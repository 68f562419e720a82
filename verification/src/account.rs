//! The MarketState user that a request speaks for: the token that it carries,
//! how the account service is asked about it, and what its answer says.

use crate::codec::{parse_json, parsed_json};
use crate::json::{text_field, Json, JsonTree};
use crate::request::{get_header, header, header_texts, Headers};
use crate::text::{
    chars_of, concat2, concat3, control, expanded, expanded_adds_up, expanded_from_start, is_control,
    string_texts,
    strip_prefix, trim, trimmed, trimmed_is_the_core, trimmed_twice, whitespace,
};
use vstd::prelude::*;
use vstd::utf8::encode_utf8;

verus! {

/// A MarketState user.
pub struct BindingView {
    pub user_id: Seq<char>,
    pub email: Seq<char>,
}

/// A MarketState user.
#[derive(Debug, PartialEq, Eq)]
pub struct OwnerBinding {
    pub user_id: String,
    pub email: String,
}

impl View for OwnerBinding {
    type V = BindingView;

    open spec fn view(&self) -> BindingView {
        BindingView { user_id: self.user_id@, email: self.email@ }
    }
}

impl Clone for OwnerBinding {
    fn clone(&self) -> (copy: Self)
        ensures
            copy@ == self@,
    {
        OwnerBinding { user_id: self.user_id.clone(), email: self.email.clone() }
    }
}

/// The user of a binding that may be absent.
pub open spec fn optional_binding(binding: Option<OwnerBinding>) -> Option<BindingView> {
    match binding {
        Some(binding) => Some(binding@),
        None => None,
    }
}

/// The owner by the record that was read, which is kept as it stands; none
/// where it names no user.
pub open spec fn recorded(stored: Option<BindingView>) -> Option<BindingView> {
    match stored {
        Some(stored) => if trimmed(stored.user_id).len() > 0 {
            Some(stored)
        } else {
            None
        },
        None => None,
    }
}

/// The owner by the record that was read; none where nothing could be read, or
/// where the record names no user.
pub fn load_owner_binding(stored: Option<OwnerBinding>) -> (binding: Option<OwnerBinding>)
    ensures
        optional_binding(binding) == recorded(optional_binding(stored)),
{
    match stored {
        Some(stored) => {
            if trim(stored.user_id.as_str()).is_empty() {
                None
            } else {
                Some(stored)
            }
        },
        None => None,
    }
}

// ---------------------------------------------------------------------------
// The token of a request
// ---------------------------------------------------------------------------

/// The longest access token, in bytes.
pub const MAX_TOKEN_BYTES: usize = 16384;

/// The part of an authorization header behind the word `Bearer`.
pub open spec fn bearer_part(value: Seq<char>) -> Option<Seq<char>> {
    if "Bearer "@.is_prefix_of(value) {
        Some(trimmed(value.skip("Bearer "@.len() as int)))
    } else if "bearer "@.is_prefix_of(value) {
        Some(trimmed(value.skip("bearer "@.len() as int)))
    } else {
        None
    }
}

/// Whether a token is longer than any should be, or holds control characters.
pub open spec fn malformed_token(token: Seq<char>) -> bool {
    ||| encode_utf8(token).len() > MAX_TOKEN_BYTES
    ||| exists|i: int| 0 <= i < token.len() && control(#[trigger] token[i])
}

/// The access token that the headers of a request carry, or what is wrong.
pub open spec fn token_in(headers: Map<Seq<char>, Seq<char>>) -> Result<Seq<char>, Seq<char>> {
    match header(headers, "authorization"@) {
        None => Err("Sign in to MarketState before using the Codex connector."@),
        Some(value) => match bearer_part(value) {
            Some(token) => if token.len() == 0 {
                Err("The MarketState authorization header is invalid."@)
            } else if malformed_token(token) {
                Err("The MarketState access token is invalid."@)
            } else {
                Ok(token)
            },
            None => Err("The MarketState authorization header is invalid."@),
        },
    }
}

/// What follows a prefix of a text.
fn after_prefix<'a>(value: &'a str, prefix: &str) -> (rest: Option<&'a str>)
    ensures
        match rest {
            Some(rest) => prefix@.is_prefix_of(value@) && rest@ == value@.skip(
                prefix@.len() as int,
            ),
            None => !prefix@.is_prefix_of(value@),
        },
{
    let chars = chars_of(value);
    let start = chars_of(prefix);
    match strip_prefix(chars.as_slice(), start.as_slice()) {
        Some(_) => {
            let rest = value.substring_char(start.len(), chars.len());
            assert(rest@ =~= value@.skip(prefix@.len() as int));
            Some(rest)
        },
        None => None,
    }
}

/// Whether a text holds a control character.
fn has_control(text: &str) -> (r: bool)
    ensures
        r == exists|i: int| 0 <= i < text@.len() && control(#[trigger] text@[i]),
{
    let chars = chars_of(text);
    for i in 0..chars.len()
        invariant
            chars@ == text@,
            forall|j: int| 0 <= j < i ==> !control(#[trigger] text@[j]),
    {
        if is_control(chars[i]) {
            assert(control(text@[i as int]));
            return true;
        }
    }
    false
}

/// The access token that the headers of a request carry.
pub fn bearer_token(headers: &Headers) -> (token: Result<&str, String>)
    ensures
        match token {
            Ok(token) => token_in(header_texts(*headers)) == Ok::<Seq<char>, Seq<char>>(token@),
            Err(error) => token_in(header_texts(*headers)) == Err::<Seq<char>, Seq<char>>(error@),
        },
{
    let value = match get_header(headers, "authorization") {
        Some(value) => value,
        None => {
            return Err("Sign in to MarketState before using the Codex connector.".to_string());
        },
    };
    let rest = match after_prefix(value, "Bearer ") {
        Some(rest) => rest,
        None => match after_prefix(value, "bearer ") {
            Some(rest) => rest,
            None => {
                return Err("The MarketState authorization header is invalid.".to_string());
            },
        },
    };
    let token = trim(rest);
    if token.is_empty() {
        return Err("The MarketState authorization header is invalid.".to_string());
    }
    if token.as_bytes().len() > MAX_TOKEN_BYTES || has_control(token) {
        return Err("The MarketState access token is invalid.".to_string());
    }
    Ok(token)
}

/// A token that is accepted is there, is short enough, has no control
/// characters and no white space at its ends.
pub proof fn accepted_token_is_clean(headers: Map<Seq<char>, Seq<char>>)
    requires
        token_in(headers) is Ok,
    ensures
        ({
            let token = token_in(headers)->Ok_0;
            &&& token.len() > 0
            &&& encode_utf8(token).len() <= MAX_TOKEN_BYTES
            &&& forall|i: int| 0 <= i < token.len() ==> !control(#[trigger] token[i])
            &&& !whitespace(token[0])
            &&& !whitespace(token.last())
        }),
{
    let value = headers["authorization"@];
    trimmed_is_the_core(value.skip("Bearer "@.len() as int));
    trimmed_is_the_core(value.skip("bearer "@.len() as int));
}

// ---------------------------------------------------------------------------
// Asking the account service
// ---------------------------------------------------------------------------

/// The account service.
pub const MARKETSTATE_SUPABASE_URL: &'static str = "https://rlvpjjbaommdeyzmwqqd.supabase.co";

/// The key by which the account service knows the application. It is public.
pub const MARKETSTATE_SUPABASE_PUBLISHABLE_KEY: &'static str =
    "sb_publishable_xSXpGiFapUycMFTZzlPBzA_OfcSdvg5";

/// The arguments with which `curl` asks the account service. The token is not
/// among them: `curl` reads it from its configuration on standard input.
pub open spec fn curl_argument_texts() -> Seq<Seq<char>> {
    seq![
        "--silent"@,
        "--show-error"@,
        "--fail-with-body"@,
        "--max-time"@,
        "10"@,
        "--header"@,
        "apikey: "@ + MARKETSTATE_SUPABASE_PUBLISHABLE_KEY@,
        "--config"@,
        "-"@,
        MARKETSTATE_SUPABASE_URL@ + "/auth/v1/user"@,
    ]
}

/// The arguments with which `curl` asks the account service.
pub fn curl_arguments() -> (arguments: Vec<String>)
    ensures
        string_texts(arguments@) == curl_argument_texts(),
{
    let mut arguments: Vec<String> = Vec::new();
    arguments.push("--silent".to_string());
    arguments.push("--show-error".to_string());
    arguments.push("--fail-with-body".to_string());
    arguments.push("--max-time".to_string());
    arguments.push("10".to_string());
    arguments.push("--header".to_string());
    arguments.push(concat2("apikey: ", MARKETSTATE_SUPABASE_PUBLISHABLE_KEY));
    arguments.push("--config".to_string());
    arguments.push("-".to_string());
    arguments.push(concat2(MARKETSTATE_SUPABASE_URL, "/auth/v1/user"));
    assert(string_texts(arguments@) =~= curl_argument_texts());
    arguments
}

/// How a character stands between the quotes of a `curl` configuration.
pub open spec fn quoted_char(c: char) -> Seq<char> {
    if c == '\\' {
        seq!['\\', '\\']
    } else if c == '"' {
        seq!['\\', '"']
    } else {
        seq![c]
    }
}

/// How a text stands between the quotes of a `curl` configuration.
pub open spec fn quoted(text: Seq<char>) -> Seq<char> {
    expanded(text, |c: char| quoted_char(c))
}

/// The text that stands between the quotes: a backslash stands for the
/// character behind it.
pub open spec fn unquoted(text: Seq<char>) -> Seq<char>
    decreases text.len(),
{
    if text.len() == 0 {
        Seq::empty()
    } else if text[0] == '\\' && text.len() > 1 {
        seq![text[1]] + unquoted(text.skip(2))
    } else {
        seq![text[0]] + unquoted(text.drop_first())
    }
}

/// Writes a text as it stands between the quotes of a `curl` configuration.
fn quote(text: &str) -> (result: String)
    ensures
        result@ == quoted(text@),
{
    let chars = chars_of(text);
    let mut result = String::new();
    let ghost f = |c: char| quoted_char(c);
    assert(chars@.take(0) =~= Seq::empty());
    for i in 0..chars.len()
        invariant
            chars@ == text@,
            f == (|c: char| quoted_char(c)),
            result@ == expanded(text@.take(i as int), f),
    {
        let c = chars[i];
        assert(text@.take(i + 1).drop_last() =~= text@.take(i as int));
        assert(text@.take(i + 1).last() == c);
        let ghost before = result@;
        if c == '\\' || c == '"' {
            result.push('\\');
        }
        result.push(c);
        assert(result@ =~= before + quoted_char(c));
    }
    assert(text@.take(chars@.len() as int) =~= text@);
    result
}

/// A text between quotes stands for itself.
pub proof fn quoted_text_reads_back(text: Seq<char>)
    ensures
        unquoted(quoted(text)) == text,
    decreases text.len(),
{
    let f = |c: char| quoted_char(c);
    if text.len() > 0 {
        let rest = text.drop_first();
        quoted_text_reads_back(rest);
        expanded_from_start(text, f);
        let q = quoted(text);
        assert(q == quoted_char(text[0]) + quoted(rest));
        if text[0] == '\\' || text[0] == '"' {
            assert(q[0] == '\\' && q[1] == text[0]);
            assert(q.skip(2) =~= quoted(rest));
        } else {
            assert(q[0] == text[0]);
            assert(q.drop_first() =~= quoted(rest));
        }
        assert(seq![text[0]] + rest =~= text);
    }
}

/// Quoting a text adds backslashes and nothing else.
proof fn quoted_chars(text: Seq<char>)
    ensures
        forall|i: int|
            0 <= i < quoted(text).len() ==> (#[trigger] quoted(text)[i]) == '\\' || text.contains(
                quoted(text)[i],
            ),
    decreases text.len(),
{
    let f = |c: char| quoted_char(c);
    if text.len() > 0 {
        let front = text.drop_last();
        quoted_chars(front);
        let q = quoted(text);
        assert(q == quoted(front) + quoted_char(text.last()));
        assert forall|i: int| 0 <= i < q.len() implies (#[trigger] q[i]) == '\\' || text.contains(
            q[i],
        ) by {
            if i < quoted(front).len() {
                assert(q[i] == quoted(front)[i]);
                if q[i] != '\\' {
                    let k = choose|k: int| 0 <= k < front.len() && front[k] == q[i];
                    assert(text[k] == q[i]);
                }
            } else {
                assert(q[i] == quoted_char(text.last())[i - quoted(front).len()]);
                assert(text[text.len() - 1] == text.last());
            }
        }
    }
}

/// The configuration that carries the token to `curl`.
pub open spec fn curl_config_text(access_token: Seq<char>) -> Seq<char> {
    "header = \"Authorization: Bearer "@ + quoted(access_token) + "\"\n"@
}

/// The configuration that carries the token to `curl`.
pub fn curl_config(access_token: &str) -> (config: String)
    ensures
        config@ == curl_config_text(access_token@),
{
    let escaped = quote(access_token);
    concat3("header = \"Authorization: Bearer ", escaped.as_str(), "\"\n")
}

/// The configuration for a token without control characters is one line: its
/// only line feed is its last character.
pub proof fn curl_config_is_one_line(access_token: Seq<char>)
    requires
        forall|i: int| 0 <= i < access_token.len() ==> !control(#[trigger] access_token[i]),
    ensures
        ({
            let config = curl_config_text(access_token);
            &&& config.last() == '\n'
            &&& forall|i: int| 0 <= i < config.len() - 1 ==> (#[trigger] config[i]) != '\n'
        }),
{
    reveal_strlit("header = \"Authorization: Bearer ");
    reveal_strlit("\"\n");
    let start = "header = \"Authorization: Bearer "@;
    let middle = quoted(access_token);
    let config = curl_config_text(access_token);
    quoted_chars(access_token);
    assert forall|i: int| 0 <= i < config.len() - 1 implies (#[trigger] config[i]) != '\n' by {
        if i < start.len() {
            assert(config[i] == start[i]);
        } else if i < start.len() + middle.len() {
            assert(config[i] == middle[i - start.len()]);
            if middle[i - start.len()] == '\n' {
                let k = choose|k: int| 0 <= k < access_token.len() && access_token[k] == '\n';
                assert(control(access_token[k]));
            }
        }
    }
}

// ---------------------------------------------------------------------------
// What the account service answers
// ---------------------------------------------------------------------------

/// How the run of `curl` ended.
pub enum CurlOutcome {
    /// It could not be run, and why.
    NotRun(String),
    /// It ended, with success or not, and wrote this.
    Finished { success: bool, output: Vec<u8> },
}

/// The user whom an account names: an identity that is not blank, and an email
/// address where there is one.
pub open spec fn account_user(payload: JsonTree) -> Result<BindingView, Seq<char>> {
    match payload.trimmed_field("id"@) {
        Some(user_id) => Ok(
            BindingView {
                user_id,
                email: match payload.text_of_field("email"@) {
                    Some(email) => trimmed(email),
                    None => Seq::empty(),
                },
            },
        ),
        None => Err("MarketState did not return a user identity."@),
    }
}

/// The result of a check as a reader of texts sees it.
pub open spec fn result_view(
    result: Result<OwnerBinding, String>,
) -> Result<BindingView, Seq<char>> {
    match result {
        Ok(binding) => Ok(binding@),
        Err(error) => Err(error@),
    }
}

/// Reads the user whom an account names.
pub fn account_identity(payload: &Json) -> (identity: Result<OwnerBinding, String>)
    ensures
        result_view(identity) == account_user(payload.tree()),
{
    let user_id = match text_field(payload, "id") {
        Some(id) => id.to_string(),
        None => {
            return Err("MarketState did not return a user identity.".to_string());
        },
    };
    let email = match payload.text_in("email") {
        Some(email) => trim(email).to_string(),
        None => String::new(),
    };
    Ok(OwnerBinding { user_id, email })
}

/// What the end of `curl` says about a token.
pub open spec fn validated(outcome: CurlOutcome) -> Result<BindingView, Seq<char>> {
    match outcome {
        CurlOutcome::NotRun(error) => Err(
            "Unable to validate the MarketState account: "@ + error@,
        ),
        CurlOutcome::Finished { success, output } => if !success {
            Err("Your MarketState session is invalid or expired. Sign in again and retry."@)
        } else {
            match parsed_json(output@) {
                Some(payload) => account_user(payload),
                None => Err("MarketState returned an invalid account response."@),
            }
        },
    }
}

/// The user whom the account service names for a token.
pub fn validate_marketstate_token(outcome: CurlOutcome) -> (identity: Result<OwnerBinding, String>)
    ensures
        result_view(identity) == validated(outcome),
{
    match outcome {
        CurlOutcome::NotRun(error) => Err(
            concat2("Unable to validate the MarketState account: ", error.as_str()),
        ),
        CurlOutcome::Finished { success, output } => {
            if !success {
                return Err(
                    "Your MarketState session is invalid or expired. Sign in again and retry.".to_string(),
                );
            }
            match parse_json(output.as_slice()) {
                Some(payload) => account_identity(&payload),
                None => Err("MarketState returned an invalid account response.".to_string()),
            }
        },
    }
}

/// Whoever the account service names is the owner again by the record of it,
/// with the same identity and email address.
pub proof fn confirmed_user_is_loaded_again(outcome: CurlOutcome)
    requires
        validated(outcome) is Ok,
    ensures
        recorded(Some(validated(outcome)->Ok_0)) == Some(validated(outcome)->Ok_0),
{
    if let CurlOutcome::Finished { success, output } = outcome {
        if let Some(payload) = parsed_json(output@) {
            if let Some(id) = payload.text_of_field("id"@) {
                trimmed_twice(id);
            }
        }
    }
}

/// Every token is accepted that is not empty, has up to 16384 bytes and no
/// control characters, whatever else it holds: it is what stands behind `Bearer`
/// or `bearer` without the white space at its ends.
pub proof fn sound_tokens_are_accepted(
    headers: Map<Seq<char>, Seq<char>>,
    rest: Seq<char>,
    token: Seq<char>,
)
    requires
        headers.dom().contains("authorization"@),
        headers["authorization"@] == "Bearer "@ + rest || headers["authorization"@] == "bearer "@
            + rest,
        token == trimmed(rest),
        token.len() > 0,
        encode_utf8(token).len() <= 16384,
        forall|i: int| 0 <= i < token.len() ==> !control(#[trigger] token[i]),
    ensures
        token_in(headers) == Ok::<Seq<char>, Seq<char>>(token),
{
    reveal_strlit("Bearer ");
    reveal_strlit("bearer ");
    let value = headers["authorization"@];
    assert(value.skip(7) =~= rest);
    if value == "Bearer "@ + rest {
        assert(value.subrange(0, 7) =~= "Bearer "@);
    } else {
        assert(value.subrange(0, 7) =~= "bearer "@);
        assert(!"Bearer "@.is_prefix_of(value)) by {
            assert(value.subrange(0, 7)[0] == 'b');
            assert("Bearer "@[0] == 'B');
        }
    }
}

/// A text without white space at its ends is itself the token behind `Bearer`.
pub proof fn tokens_are_taken_as_they_are(headers: Map<Seq<char>, Seq<char>>, token: Seq<char>)
    requires
        headers.dom().contains("authorization"@),
        headers["authorization"@] == "Bearer "@ + token,
        token.len() > 0,
        !whitespace(token[0]),
        !whitespace(token.last()),
        encode_utf8(token).len() <= 16384,
        forall|i: int| 0 <= i < token.len() ==> !control(#[trigger] token[i]),
    ensures
        token_in(headers) == Ok::<Seq<char>, Seq<char>>(token),
{
    sound_tokens_are_accepted(headers, token, token);
}

/// Every other header is refused, each with its own words: none at all, one of
/// another scheme, one with nothing in it, and one with a token that is too long
/// or has control characters.
pub proof fn other_tokens_are_refused(headers: Map<Seq<char>, Seq<char>>, rest: Seq<char>)
    ensures
        !headers.dom().contains("authorization"@) ==> token_in(headers) == Err::<
            Seq<char>,
            Seq<char>,
        >("Sign in to MarketState before using the Codex connector."@),
        headers.dom().contains("authorization"@) && !"Bearer "@.is_prefix_of(
            headers["authorization"@],
        ) && !"bearer "@.is_prefix_of(headers["authorization"@]) ==> token_in(headers) == Err::<
            Seq<char>,
            Seq<char>,
        >("The MarketState authorization header is invalid."@),
        headers.dom().contains("authorization"@) && headers["authorization"@] == "Bearer "@ + rest
            && trimmed(rest).len() == 0 ==> token_in(headers) == Err::<Seq<char>, Seq<char>>(
            "The MarketState authorization header is invalid."@,
        ),
        headers.dom().contains("authorization"@) && headers["authorization"@] == "Bearer "@ + rest
            && encode_utf8(trimmed(rest)).len() > 16384 ==> token_in(headers) == Err::<
            Seq<char>,
            Seq<char>,
        >("The MarketState access token is invalid."@),
        forall|i: int|
            headers.dom().contains("authorization"@) && headers["authorization"@] == "Bearer "@
                + rest && 0 <= i < trimmed(rest).len() && control(#[trigger] trimmed(rest)[i])
                ==> token_in(headers) == Err::<Seq<char>, Seq<char>>(
                "The MarketState access token is invalid."@,
            ),
{
    reveal_strlit("Bearer ");
    if headers.dom().contains("authorization"@) && headers["authorization"@] == "Bearer "@ + rest {
        let value = headers["authorization"@];
        assert(value.subrange(0, 7) =~= "Bearer "@);
        assert(value.skip(7) =~= rest);
        if trimmed(rest).len() == 0 {
            assert(trimmed(rest) =~= Seq::empty());
        }
        if encode_utf8(trimmed(rest)).len() > 16384 {
            assert(trimmed(rest).len() > 0) by {
                if trimmed(rest).len() == 0 {
                    assert(encode_utf8(trimmed(rest)).len() == 0);
                }
            }
        }
    }
}

/// Quoting goes character by character, of any text: a backslash stands before a
/// backslash and before a quote, and before nothing else.
pub proof fn quoting_goes_by_character(a: Seq<char>, b: Seq<char>, c: char)
    ensures
        quoted(a + b) == quoted(a) + quoted(b),
        quoted(seq![c]) == if c == '\\' || c == '"' {
            seq!['\\', c]
        } else {
            seq![c]
        },
        quoted(Seq::empty()) == Seq::<char>::empty(),
{
    expanded_adds_up(a, b, |c: char| quoted_char(c));
    assert(quoted(seq![c]) == quoted_char(c));
}

/// The configuration of `curl` carries the token, whatever it is: between the
/// quotes of its one header stands a text that is read back as the token.
pub proof fn curl_config_carries_the_token(access_token: Seq<char>)
    ensures
        exists|inner: Seq<char>|
            curl_config_text(access_token) == "header = \"Authorization: Bearer "@ + inner + "\"\n"@
                && #[trigger] unquoted(inner) == access_token,
{
    quoted_text_reads_back(access_token);
    assert(curl_config_text(access_token) == "header = \"Authorization: Bearer "@ + quoted(
        access_token,
    ) + "\"\n"@);
}

/// The account service is believed where it succeeds and names a user: the
/// identity that is not blank, and the email address where it gives one, both
/// without the white space at their ends and whatever else they are.
pub proof fn named_users_are_believed(payload: JsonTree)
    ensures
        match payload.text_of_field("id"@) {
            Some(id) => if trimmed(id).len() > 0 {
                &&& account_user(payload) matches Ok(user)
                &&& user.user_id == trimmed(id)
                &&& user.email == match payload.text_of_field("email"@) {
                    Some(email) => trimmed(email),
                    None => Seq::<char>::empty(),
                }
            } else {
                account_user(payload) == Err::<BindingView, Seq<char>>(
                    "MarketState did not return a user identity."@,
                )
            },
            None => account_user(payload) == Err::<BindingView, Seq<char>>(
                "MarketState did not return a user identity."@,
            ),
        },
{
}

/// What the account service says counts only where it was reached and agreed,
/// and where its answer is a document; otherwise the user is told why not.
pub proof fn answers_of_the_service_are_judged(outcome: CurlOutcome)
    ensures
        match outcome {
            CurlOutcome::NotRun(error) => validated(outcome) == Err::<BindingView, Seq<char>>(
                "Unable to validate the MarketState account: "@ + error@,
            ),
            CurlOutcome::Finished { success, output } => if !success {
                validated(outcome) == Err::<BindingView, Seq<char>>(
                    "Your MarketState session is invalid or expired. Sign in again and retry."@,
                )
            } else {
                match parsed_json(output@) {
                    Some(payload) => validated(outcome) == account_user(payload),
                    None => validated(outcome) == Err::<BindingView, Seq<char>>(
                        "MarketState returned an invalid account response."@,
                    ),
                }
            },
        },
{
}

/// A record is kept as it stands where it names a user, and counts for nothing
/// where its identity is blank.
pub proof fn records_are_kept(stored: BindingView)
    ensures
        trimmed(stored.user_id).len() > 0 ==> recorded(Some(stored)) == Some(stored),
        trimmed(stored.user_id).len() == 0 ==> recorded(Some(stored)) is None,
        recorded(None) is None,
{
}

/// The account service is asked for the user of the token, for ten seconds at
/// most, and the token is read from the standard input.
pub proof fn service_is_asked_for_the_user()
    ensures
        ({
            let words = curl_argument_texts();
            &&& words.len() == 10
            &&& words[0] == "--silent"@ && words[1] == "--show-error"@
            &&& words[2] == "--fail-with-body"@
            &&& words[3] == "--max-time"@ && words[4] == "10"@
            &&& words[5] == "--header"@
            &&& words[6] == "apikey: "@ + MARKETSTATE_SUPABASE_PUBLISHABLE_KEY@
            &&& words[7] == "--config"@ && words[8] == "-"@
            &&& words[9] == MARKETSTATE_SUPABASE_URL@ + "/auth/v1/user"@
        }),
{
}

} // verus!
