//! One request to Codex: what is asked of it, how it is run, and what is
//! answered.

use crate::codec::{document_view, json_bytes, normal, parse_json, parsed_json, write_json};
use crate::ids::{compact_uuid, fresh_compact_uuid, hex_digit};
use crate::json::{
    array, field_at, field_trees, find_string_field, found_string, integer, integer_tree,
    item_trees, missing_field, no_fields, object, optional_text_tree, push_field, text_field, text_value, texts,
    valid, Json, JsonTree,
};
use crate::text::{
    ascii_alphanumeric, chars_of, concat3, decimal, decimal_reads_back, decimal_text, digit_char,
    digit_value, digits_value, find, find_is_first, is_ascii_alphanumeric, optional_text, split, split_around,
    split_chars, string_texts, text_of, text_result, trim, trim_chars, trimmed,
};
use vstd::prelude::*;
use vstd::string::StringExecFns;
use vstd::utf8::encode_utf8;

verus! {

// ---------------------------------------------------------------------------
// What is asked
// ---------------------------------------------------------------------------

/// How many seconds Codex may take where the request says nothing of it.
pub const DEFAULT_TIMEOUT_SECONDS: u64 = 900;

/// The most seconds that Codex may take.
pub const MAX_TIMEOUT_SECONDS: u64 = 3600;

/// The longest identifier of a request, in bytes.
pub const MAX_REQUEST_ID_BYTES: usize = 128;

/// The characters of an identifier.
pub open spec fn id_char(c: char) -> bool {
    ascii_alphanumeric(c) || c == '.' || c == '_' || c == ':' || c == '-'
}

/// The texts that may identify a request.
pub open spec fn valid_request_id(id: Seq<char>) -> bool {
    &&& encode_utf8(id).len() <= MAX_REQUEST_ID_BYTES
    &&& forall|i: int| 0 <= i < id.len() ==> id_char(#[trigger] id[i])
}

/// The identifier of a request: its own, or else a fresh one.
pub open spec fn request_id_in(payload: JsonTree, fresh: Seq<char>) -> Result<
    Seq<char>,
    Seq<char>,
> {
    let id = match payload.trimmed_field("request_id"@) {
        Some(id) => id,
        None => fresh,
    };
    if valid_request_id(id) {
        Ok(id)
    } else {
        Err("request_id contains unsupported characters."@)
    }
}

/// Whether a text may identify a request.
fn is_request_id(id: &str) -> (valid: bool)
    ensures
        valid == valid_request_id(id@),
{
    if id.as_bytes().len() > MAX_REQUEST_ID_BYTES {
        return false;
    }
    let chars = chars_of(id);
    for i in 0..chars.len()
        invariant
            chars@ == id@,
            forall|j: int| 0 <= j < i ==> id_char(#[trigger] id@[j]),
    {
        let c = chars[i];
        if !(is_ascii_alphanumeric(c) || c == '.' || c == '_' || c == ':' || c == '-') {
            assert(!id_char(id@[i as int]));
            return false;
        }
    }
    true
}

/// The identifier of a request: its own, or else the fresh one.
pub fn request_id_or(payload: &Json, fresh: String) -> (id: Result<String, String>)
    ensures
        text_result(id) == request_id_in(payload.tree(), fresh@),
{
    let id = match text_field(payload, "request_id") {
        Some(id) => id.to_string(),
        None => fresh,
    };
    if is_request_id(id.as_str()) {
        Ok(id)
    } else {
        Err("request_id contains unsupported characters.".to_string())
    }
}

/// The identifier of a request: its own, or else one that is made up. A
/// request without one of its own is never refused.
pub fn safe_request_id(payload: &Json) -> (id: Result<String, String>)
    ensures
        exists|fresh: Seq<char>| #[trigger]
            compact_uuid(fresh) && text_result(id) == request_id_in(payload.tree(), fresh),
        payload.tree().trimmed_field("request_id"@) is None ==> id is Ok,
{
    let fresh = fresh_compact_uuid();
    proof {
        made_up_id_is_valid(fresh@);
    }
    request_id_or(payload, fresh)
}

/// A made-up identifier is one that a request may have.
pub proof fn made_up_id_is_valid(fresh: Seq<char>)
    requires
        compact_uuid(fresh),
    ensures
        valid_request_id(fresh),
{
    assert(vstd::utf8::is_ascii_chars(fresh));
    vstd::utf8::is_ascii_chars_encode_utf8(fresh);
    assert forall|i: int| 0 <= i < fresh.len() implies id_char(#[trigger] fresh[i]) by {
        assert(hex_digit(fresh[i]));
    }
}

/// How many seconds Codex may take: what the request says, within bounds.
pub open spec fn timeout_in(payload: JsonTree) -> u64 {
    let seconds = match payload.unsigned_of_field("timeout_seconds"@) {
        Some(seconds) => seconds,
        None => DEFAULT_TIMEOUT_SECONDS,
    };
    if seconds < 1 {
        1
    } else if seconds > MAX_TIMEOUT_SECONDS {
        MAX_TIMEOUT_SECONDS
    } else {
        seconds
    }
}

/// A request to Codex.
pub struct ChatView {
    pub message: Seq<char>,
    pub request_id: Seq<char>,
    pub timeout_seconds: u64,
    pub isolated: bool,
    pub compact: bool,
}

/// A request to Codex.
#[derive(Debug)]
pub struct CodexRequest {
    /// What is said to Codex.
    pub message: String,
    pub request_id: String,
    /// How many seconds Codex may take.
    pub timeout_seconds: u64,
    /// Whether Codex shall work in a directory of its own.
    pub isolated: bool,
    /// Whether the answer shall leave out what Codex printed.
    pub compact: bool,
}

impl View for CodexRequest {
    type V = ChatView;

    open spec fn view(&self) -> ChatView {
        ChatView {
            message: self.message@,
            request_id: self.request_id@,
            timeout_seconds: self.timeout_seconds,
            isolated: self.isolated,
            compact: self.compact,
        }
    }
}

/// The request that a payload makes, or why it makes none.
pub open spec fn requested(payload: JsonTree, fresh: Seq<char>) -> Result<ChatView, Seq<char>> {
    match payload.trimmed_field("message"@) {
        None => Err("message is required."@),
        Some(message) => match request_id_in(payload, fresh) {
            Err(error) => Err(error),
            Ok(request_id) => Ok(
                ChatView {
                    message,
                    request_id,
                    timeout_seconds: timeout_in(payload),
                    isolated: payload.flag("isolated_workspace"@),
                    compact: payload.flag("compact_response"@),
                },
            ),
        },
    }
}

/// A request or an error as a reader of texts sees it.
pub open spec fn request_result(
    result: Result<CodexRequest, String>,
) -> Result<ChatView, Seq<char>> {
    match result {
        Ok(request) => Ok(request@),
        Err(error) => Err(error@),
    }
}

/// How many seconds Codex may take.
fn request_timeout(payload: &Json) -> (seconds: u64)
    ensures
        seconds == timeout_in(payload.tree()),
{
    let seconds: u64 = match payload.unsigned_in("timeout_seconds") {
        Some(seconds) => seconds,
        None => DEFAULT_TIMEOUT_SECONDS,
    };
    if seconds < 1 {
        1
    } else if seconds > MAX_TIMEOUT_SECONDS {
        MAX_TIMEOUT_SECONDS
    } else {
        seconds
    }
}

/// The request that a payload makes, with the fresh identifier where it brings
/// none.
pub fn codex_request_with(payload: &Json, fresh: String) -> (request: Result<
    CodexRequest,
    String,
>)
    ensures
        request_result(request) == requested(payload.tree(), fresh@),
{
    let message = match text_field(payload, "message") {
        Some(message) => message.to_string(),
        None => {
            return Err("message is required.".to_string());
        },
    };
    match request_id_or(payload, fresh) {
        Err(error) => Err(error),
        Ok(request_id) => Ok(
            CodexRequest {
                message,
                request_id,
                timeout_seconds: request_timeout(payload),
                isolated: payload.flag("isolated_workspace"),
                compact: payload.flag("compact_response"),
            },
        ),
    }
}

/// The request that a payload makes. Where the payload brings no identifier,
/// one is made up.
pub fn codex_request(payload: &Json) -> (request: Result<CodexRequest, String>)
    ensures
        exists|fresh: Seq<char>| #[trigger]
            compact_uuid(fresh) && request_result(request) == requested(payload.tree(), fresh),
{
    let fresh = fresh_compact_uuid();
    codex_request_with(payload, fresh)
}

/// Every request that is accepted has something to say, an identifier that is
/// allowed, and a time limit between one second and an hour.
pub proof fn accepted_request_is_sound(payload: JsonTree, fresh: Seq<char>)
    requires
        requested(payload, fresh) is Ok,
    ensures
        ({
            let request = requested(payload, fresh)->Ok_0;
            &&& request.message.len() > 0
            &&& valid_request_id(request.request_id)
            &&& 1 <= request.timeout_seconds <= MAX_TIMEOUT_SECONDS
        }),
{
}

/// An identifier is accepted exactly where it has up to 128 bytes, all of them
/// ASCII letters, digits, dots, underscores, colons and hyphens; it is that of
/// the request where the request has one, else the fresh one.
pub proof fn identifiers_are_judged(payload: JsonTree, fresh: Seq<char>, id: Seq<char>)
    requires
        id == match payload.trimmed_field("request_id"@) {
            Some(own) => own,
            None => fresh,
        },
    ensures
        encode_utf8(id).len() <= 128 && (forall|i: int|
            0 <= i < id.len() ==> ('a' <= (#[trigger] id[i]) && id[i] <= 'z') || ('A' <= id[i]
                && id[i] <= 'Z') || ('0' <= id[i] && id[i] <= '9') || id[i] == '.' || id[i] == '_'
                || id[i] == ':' || id[i] == '-') ==> request_id_in(payload, fresh) == Ok::<
            Seq<char>,
            Seq<char>,
        >(id),
        encode_utf8(id).len() > 128 ==> request_id_in(payload, fresh) == Err::<
            Seq<char>,
            Seq<char>,
        >("request_id contains unsupported characters."@),
        forall|i: int|
            0 <= i < id.len() && !(('a' <= (#[trigger] id[i]) && id[i] <= 'z') || ('A' <= id[i]
                && id[i] <= 'Z') || ('0' <= id[i] && id[i] <= '9') || id[i] == '.' || id[i] == '_'
                || id[i] == ':' || id[i] == '-') ==> request_id_in(payload, fresh) == Err::<
                Seq<char>,
                Seq<char>,
            >("request_id contains unsupported characters."@),
{
}

/// The time limit is what the request says, from one second to an hour: nothing
/// in between is changed, less counts as a second and more as an hour. Where the
/// request says no whole number it is 900 seconds.
pub proof fn time_limits_are_taken(payload: JsonTree)
    ensures
        match payload.unsigned_of_field("timeout_seconds"@) {
            Some(seconds) => {
                &&& 1 <= seconds <= 3600 ==> timeout_in(payload) == seconds
                &&& seconds == 0 ==> timeout_in(payload) == 1
                &&& seconds > 3600 ==> timeout_in(payload) == 3600
            },
            None => timeout_in(payload) == 900,
        },
{
}

/// A payload with a message and an identifier that is accepted makes a request:
/// with that message, that identifier, its time limit and its two wishes. Without
/// a message it makes none, and with an identifier that is refused neither.
pub proof fn payloads_make_requests(payload: JsonTree, fresh: Seq<char>)
    ensures
        ({
            let made = requested(payload, fresh);
            let id = request_id_in(payload, fresh);
            match payload.trimmed_field("message"@) {
                None => made == Err::<ChatView, Seq<char>>("message is required."@),
                Some(message) => match id {
                    Err(error) => made == Err::<ChatView, Seq<char>>(error),
                    Ok(id) => {
                        &&& made matches Ok(request)
                        &&& request.message == message
                        &&& request.request_id == id
                        &&& request.timeout_seconds == timeout_in(payload)
                        &&& request.isolated == payload.flag("isolated_workspace"@)
                        &&& request.compact == payload.flag("compact_response"@)
                    },
                },
            }
        }),
{
}

/// The document of the form that the answer shall have, where the request asks
/// for one.
pub open spec fn schema_in(payload: JsonTree) -> Option<Result<Seq<u8>, Seq<char>>> {
    match payload.field("output_schema"@) {
        Some(JsonTree::Object(fields)) => Some(json_bytes(normal(JsonTree::Object(fields)))),
        _ => None,
    }
}

/// The document of the form that the answer shall have, where the request asks
/// for one.
pub fn schema_document(payload: &Json) -> (document: Option<Result<Vec<u8>, String>>)
    ensures
        match document {
            Some(document) => schema_in(payload.tree()) == Some(document_view(document)),
            None => schema_in(payload.tree()) is None,
        },
{
    match payload.get("output_schema") {
        Some(schema) => match schema {
            Json::Object(_) => Some(write_json(schema)),
            _ => None,
        },
        None => None,
    }
}

/// The form of the answer is written where it is an object, whatever stands in
/// it, and only there.
pub proof fn forms_are_objects(payload: JsonTree)
    ensures
        match payload.field("output_schema"@) {
            Some(JsonTree::Object(fields)) => schema_in(payload) == Some(
                json_bytes(normal(JsonTree::Object(fields))),
            ),
            _ => schema_in(payload) is None,
        },
{
}

// ---------------------------------------------------------------------------
// How Codex is called
// ---------------------------------------------------------------------------

/// The arguments that choose the model and how much it thinks.
pub open spec fn model_arguments(payload: JsonTree) -> Seq<Seq<char>> {
    (match payload.trimmed_field("model"@) {
        Some(model) => seq!["--model"@, model],
        None => Seq::empty(),
    }) + (match payload.trimmed_field("reasoning_effort"@) {
        Some(effort) => seq!["-c"@, "model_reasoning_effort=\""@ + effort + "\""@],
        None => Seq::empty(),
    })
}

/// An argument that is given where the request sets a flag.
pub open spec fn flag_argument(
    payload: JsonTree,
    name: Seq<char>,
    argument: Seq<char>,
) -> Seq<Seq<char>> {
    if payload.flag(name) {
        seq![argument]
    } else {
        Seq::empty()
    }
}

/// How much of the machine Codex may touch: what the request says, or else
/// reading only.
pub open spec fn sandbox_in(payload: JsonTree) -> Seq<char> {
    match payload.trimmed_field("sandbox"@) {
        Some(sandbox) => sandbox,
        None => "read-only"@,
    }
}

/// The arguments for a session that goes on.
pub open spec fn resume_arguments(
    payload: JsonTree,
    session_id: Seq<char>,
    output: Seq<char>,
) -> Seq<Seq<char>> {
    seq!["exec"@, "resume"@, "--json"@, "--output-last-message"@, output] + model_arguments(payload)
        + seq!["--skip-git-repo-check"@, session_id, "-"@]
}

/// The arguments for a new session.
pub open spec fn session_arguments(
    payload: JsonTree,
    output: Seq<char>,
    directory: Seq<char>,
    schema: Option<Seq<char>>,
) -> Seq<Seq<char>> {
    seq![
        "exec"@,
        "--json"@,
        "--color"@,
        "never"@,
        "--output-last-message"@,
        output,
        "--cd"@,
        directory,
    ] + model_arguments(payload) + seq![
        "--sandbox"@,
        sandbox_in(payload),
        "--skip-git-repo-check"@,
    ] + flag_argument(payload, "ephemeral"@, "--ephemeral"@) + flag_argument(
        payload,
        "ignore_user_config"@,
        "--ignore-user-config"@,
    ) + flag_argument(payload, "ignore_rules"@, "--ignore-rules"@) + (match schema {
        Some(path) => seq!["--output-schema"@, path],
        None => Seq::empty(),
    }) + seq!["-"@]
}

/// The arguments with which Codex is called: the files and the directory are
/// given by their paths.
pub open spec fn arguments(
    payload: JsonTree,
    output: Seq<char>,
    directory: Seq<char>,
    schema: Option<Seq<char>>,
) -> Seq<Seq<char>> {
    match payload.trimmed_field("session_id"@) {
        Some(session_id) => resume_arguments(payload, session_id, output),
        None => session_arguments(payload, output, directory, schema),
    }
}

/// Adds an argument.
fn push_argument(arguments: &mut Vec<String>, argument: &str)
    ensures
        string_texts(final(arguments)@) == string_texts(old(arguments)@) + seq![argument@],
{
    arguments.push(argument.to_string());
    assert(string_texts(arguments@) =~= string_texts(old(arguments)@) + seq![argument@]);
}

/// Adds two arguments.
fn push_pair(arguments: &mut Vec<String>, name: &str, value: &str)
    ensures
        string_texts(final(arguments)@) == string_texts(old(arguments)@) + seq![name@, value@],
{
    push_argument(arguments, name);
    push_argument(arguments, value);
    assert(string_texts(arguments@) =~= string_texts(old(arguments)@) + seq![name@, value@]);
}

/// Adds the arguments that choose the model and how much it thinks.
fn push_model_arguments(arguments: &mut Vec<String>, payload: &Json)
    ensures
        string_texts(final(arguments)@) == string_texts(old(arguments)@) + model_arguments(
            payload.tree(),
        ),
{
    let ghost before = string_texts(arguments@);
    if let Some(model) = text_field(payload, "model") {
        push_pair(arguments, "--model", model);
    }
    if let Some(effort) = text_field(payload, "reasoning_effort") {
        let setting = concat3("model_reasoning_effort=\"", effort, "\"");
        push_pair(arguments, "-c", setting.as_str());
    }
    assert(string_texts(arguments@) =~= before + model_arguments(payload.tree()));
}

/// Adds an argument where the request sets a flag.
fn push_flag_argument(arguments: &mut Vec<String>, payload: &Json, name: &str, argument: &str)
    ensures
        string_texts(final(arguments)@) == string_texts(old(arguments)@) + flag_argument(
            payload.tree(),
            name@,
            argument@,
        ),
{
    if payload.flag(name) {
        push_argument(arguments, argument);
    } else {
        assert(string_texts(arguments@) =~= string_texts(arguments@) + Seq::empty());
    }
}

/// The arguments for a session that goes on.
fn resume_call(payload: &Json, session_id: &str, output: &str) -> (arguments: Vec<String>)
    ensures
        string_texts(arguments@) == resume_arguments(payload.tree(), session_id@, output@),
{
    let mut arguments: Vec<String> = vec![
        "exec".to_string(),
        "resume".to_string(),
        "--json".to_string(),
        "--output-last-message".to_string(),
        output.to_string(),
    ];
    assert(string_texts(arguments@) =~= seq![
        "exec"@,
        "resume"@,
        "--json"@,
        "--output-last-message"@,
        output@,
    ]);
    push_model_arguments(&mut arguments, payload);
    let ghost before = string_texts(arguments@);
    push_pair(&mut arguments, "--skip-git-repo-check", session_id);
    push_argument(&mut arguments, "-");
    assert(string_texts(arguments@) =~= before + seq![
        "--skip-git-repo-check"@,
        session_id@,
        "-"@,
    ]);
    arguments
}

/// The arguments for a new session.
fn session_call(payload: &Json, output: &str, directory: &str, schema: Option<&str>) -> (arguments:
    Vec<String>)
    ensures
        string_texts(arguments@) == session_arguments(
            payload.tree(),
            output@,
            directory@,
            match schema {
                Some(path) => Some(path@),
                None => None,
            },
        ),
{
    let mut arguments: Vec<String> = vec![
        "exec".to_string(),
        "--json".to_string(),
        "--color".to_string(),
        "never".to_string(),
        "--output-last-message".to_string(),
        output.to_string(),
        "--cd".to_string(),
        directory.to_string(),
    ];
    assert(string_texts(arguments@) =~= seq![
        "exec"@,
        "--json"@,
        "--color"@,
        "never"@,
        "--output-last-message"@,
        output@,
        "--cd"@,
        directory@,
    ]);
    push_model_arguments(&mut arguments, payload);
    let sandbox = match text_field(payload, "sandbox") {
        Some(sandbox) => sandbox,
        None => "read-only",
    };
    let ghost before = string_texts(arguments@);
    push_pair(&mut arguments, "--sandbox", sandbox);
    push_argument(&mut arguments, "--skip-git-repo-check");
    assert(string_texts(arguments@) =~= before + seq![
        "--sandbox"@,
        sandbox@,
        "--skip-git-repo-check"@,
    ]);
    push_flag_argument(&mut arguments, payload, "ephemeral", "--ephemeral");
    push_flag_argument(&mut arguments, payload, "ignore_user_config", "--ignore-user-config");
    push_flag_argument(&mut arguments, payload, "ignore_rules", "--ignore-rules");
    match schema {
        Some(path) => {
            push_pair(&mut arguments, "--output-schema", path);
        },
        None => {
            assert(string_texts(arguments@) =~= string_texts(arguments@) + Seq::empty());
        },
    }
    push_argument(&mut arguments, "-");
    arguments
}

/// The arguments with which Codex is called: the files and the directory are
/// given by their paths.
pub fn codex_arguments(payload: &Json, output: &str, directory: &str, schema: Option<&str>) -> (args:
    Vec<String>)
    ensures
        string_texts(args@) == arguments(
            payload.tree(),
            output@,
            directory@,
            match schema {
                Some(path) => Some(path@),
                None => None,
            },
        ),
{
    match text_field(payload, "session_id") {
        Some(session_id) => resume_call(payload, session_id, output),
        None => session_call(payload, output, directory, schema),
    }
}

/// Codex is always called to execute what it reads from its input, to print
/// what happens as JSON, and to leave its last message in the given file.
pub proof fn codex_reads_the_message_from_its_input(
    payload: JsonTree,
    output: Seq<char>,
    directory: Seq<char>,
    schema: Option<Seq<char>>,
)
    ensures
        ({
            let args = arguments(payload, output, directory, schema);
            &&& args[0] == "exec"@
            &&& args.last() == "-"@
            &&& args.contains("--json"@)
            &&& exists|i: int|
                0 <= i < args.len() - 1 && #[trigger] args[i] == "--output-last-message"@ && args[i
                    + 1] == output
        }),
{
    let args = arguments(payload, output, directory, schema);
    match payload.trimmed_field("session_id"@) {
        Some(session_id) => {
            assert(args[2] == "--json"@);
            assert(args[3] == "--output-last-message"@ && args[4] == output);
        },
        None => {
            assert(args[1] == "--json"@);
            assert(args[4] == "--output-last-message"@ && args[5] == output);
        },
    }
}

/// A new session for a request that says nothing of it may only read.
pub proof fn new_session_reads_only(
    payload: JsonTree,
    output: Seq<char>,
    directory: Seq<char>,
    schema: Option<Seq<char>>,
)
    requires
        payload.trimmed_field("session_id"@) is None,
        payload.trimmed_field("sandbox"@) is None,
    ensures
        ({
            let args = arguments(payload, output, directory, schema);
            exists|i: int|
                0 <= i < args.len() - 1 && #[trigger] args[i] == "--sandbox"@ && args[i + 1]
                    == "read-only"@
        }),
{
    let args = arguments(payload, output, directory, schema);
    let n = 8 + model_arguments(payload).len() as int;
    assert(args[n] == "--sandbox"@);
    assert(args[n + 1] == "read-only"@);
}

/// A new session is called with what the request asks for, and with nothing
/// else: the model and the effort where it names them, whatever else it holds,
/// the sandbox, each flag that it sets, the form of the answer where there is a
/// file for it; all in this order.
pub proof fn new_session_gets_what_was_asked(
    payload: JsonTree,
    output: Seq<char>,
    directory: Seq<char>,
    schema: Option<Seq<char>>,
)
    requires
        payload.trimmed_field("session_id"@) is None,
    ensures
        ({
            let args = arguments(payload, output, directory, schema);
            let model = payload.trimmed_field("model"@);
            let effort = payload.trimmed_field("reasoning_effort"@);
            let sandbox = payload.trimmed_field("sandbox"@);
            let m: int = if model is Some { 10 } else { 8 };
            let e: int = if effort is Some { m + 2 } else { m };
            let a: int = if payload.flag("ephemeral"@) { e + 4 } else { e + 3 };
            let b: int = if payload.flag("ignore_user_config"@) { a + 1 } else { a };
            let c: int = if payload.flag("ignore_rules"@) { b + 1 } else { b };
            let d: int = if schema is Some { c + 2 } else { c };
            &&& args.len() == d + 1
            &&& args[0] == "exec"@ && args[1] == "--json"@
            &&& args[2] == "--color"@ && args[3] == "never"@
            &&& args[4] == "--output-last-message"@ && args[5] == output
            &&& args[6] == "--cd"@ && args[7] == directory
            &&& model matches Some(model) ==> args[8] == "--model"@ && args[9] == model
            &&& effort matches Some(effort) ==> args[m] == "-c"@ && args[m + 1]
                == "model_reasoning_effort=\""@ + effort + "\""@
            &&& args[e] == "--sandbox"@
            &&& sandbox matches Some(sandbox) ==> args[e + 1] == sandbox
            &&& sandbox is None ==> args[e + 1] == "read-only"@
            &&& args[e + 2] == "--skip-git-repo-check"@
            &&& payload.flag("ephemeral"@) ==> args[e + 3] == "--ephemeral"@
            &&& payload.flag("ignore_user_config"@) ==> args[a] == "--ignore-user-config"@
            &&& payload.flag("ignore_rules"@) ==> args[b] == "--ignore-rules"@
            &&& schema matches Some(path) ==> args[c] == "--output-schema"@ && args[c + 1] == path
            &&& args[d] == "-"@
        }),
{
    let args = arguments(payload, output, directory, schema);
    let models = model_arguments(payload);
    let x0 = seq![
        "exec"@,
        "--json"@,
        "--color"@,
        "never"@,
        "--output-last-message"@,
        output,
        "--cd"@,
        directory,
    ];
    let x1 = x0 + models;
    let x2 = x1 + seq!["--sandbox"@, sandbox_in(payload), "--skip-git-repo-check"@];
    let x3 = x2 + flag_argument(payload, "ephemeral"@, "--ephemeral"@);
    let x4 = x3 + flag_argument(payload, "ignore_user_config"@, "--ignore-user-config"@);
    let x5 = x4 + flag_argument(payload, "ignore_rules"@, "--ignore-rules"@);
    let last: Seq<Seq<char>> = match schema {
        Some(path) => seq!["--output-schema"@, path],
        None => Seq::empty(),
    };
    let x6 = x5 + last;
    assert(args == x6 + seq!["-"@]);
    assert(forall|i: int| 0 <= i < x0.len() ==> #[trigger] args[i] == x0[i]);
    assert(forall|i: int| 0 <= i < models.len() ==> args[8 + i] == #[trigger] models[i]);
    assert(args[x1.len() as int] == "--sandbox"@);
    assert(args[(x1.len() + 1) as int] == sandbox_in(payload));
    assert(args[(x1.len() + 2) as int] == "--skip-git-repo-check"@);
    assert(payload.flag("ephemeral"@) ==> args[x2.len() as int] == "--ephemeral"@);
    assert(payload.flag("ignore_user_config"@) ==> args[x3.len() as int]
        == "--ignore-user-config"@);
    assert(payload.flag("ignore_rules"@) ==> args[x4.len() as int] == "--ignore-rules"@);
    assert(forall|i: int| 0 <= i < last.len() ==> args[x5.len() + i] == #[trigger] last[i]);
    assert(payload.trimmed_field("model"@) matches Some(model) ==> models[0] == "--model"@
        && models[1] == model);
    assert(payload.trimmed_field("reasoning_effort"@) matches Some(effort) ==> models[models.len()
        - 2] == "-c"@ && models[models.len() - 1] == "model_reasoning_effort=\""@ + effort
        + "\""@);
    if let Some(path) = schema {
        assert(last[0] == "--output-schema"@ && last[1] == path);
    }
}

/// A session that goes on is called with its own name and with the model and the
/// effort where the request names them, and with nothing else.
pub proof fn resumed_session_gets_what_was_asked(
    payload: JsonTree,
    session_id: Seq<char>,
    output: Seq<char>,
    directory: Seq<char>,
    schema: Option<Seq<char>>,
)
    requires
        payload.trimmed_field("session_id"@) == Some(session_id),
    ensures
        ({
            let args = arguments(payload, output, directory, schema);
            let model = payload.trimmed_field("model"@);
            let effort = payload.trimmed_field("reasoning_effort"@);
            let m: int = if model is Some { 7 } else { 5 };
            let e: int = if effort is Some { m + 2 } else { m };
            &&& args.len() == e + 3
            &&& args[0] == "exec"@ && args[1] == "resume"@ && args[2] == "--json"@
            &&& args[3] == "--output-last-message"@ && args[4] == output
            &&& model matches Some(model) ==> args[5] == "--model"@ && args[6] == model
            &&& effort matches Some(effort) ==> args[m] == "-c"@ && args[m + 1]
                == "model_reasoning_effort=\""@ + effort + "\""@
            &&& args[e] == "--skip-git-repo-check"@
            &&& args[e + 1] == session_id
            &&& args[e + 2] == "-"@
        }),
{
}

// ---------------------------------------------------------------------------
// What Codex prints
// ---------------------------------------------------------------------------

/// The JSON document on a line. A blank line holds none.
pub open spec fn document_on(line: Seq<char>) -> Option<JsonTree> {
    if trimmed(line).len() == 0 {
        None
    } else {
        parsed_json(encode_utf8(trimmed(line)))
    }
}

/// The JSON documents among some lines, in order. A line that holds none is
/// passed over.
pub open spec fn documents_in(lines: Seq<Seq<char>>) -> Seq<JsonTree>
    decreases lines.len(),
{
    if lines.len() == 0 {
        Seq::empty()
    } else {
        match document_on(lines.last()) {
            Some(document) => documents_in(lines.drop_last()).push(document),
            None => documents_in(lines.drop_last()),
        }
    }
}

/// The events that Codex prints: one document on each line.
pub open spec fn events_in(stdout: Seq<char>) -> Seq<JsonTree> {
    documents_in(split(stdout, seq!['\n']))
}

/// The JSON document on a line.
fn parse_line(line: &[char]) -> (document: Option<Json>)
    ensures
        match document {
            Some(document) => document_on(line@) == Some(document.tree()) && valid(
                document.tree(),
            ),
            None => document_on(line@) is None,
        },
{
    let part = trim_chars(line);
    if part.len() == 0 {
        return None;
    }
    let text = text_of(part);
    parse_json(text.as_str().as_bytes())
}

/// The events that Codex prints. Lines that hold no JSON document are passed
/// over.
pub fn parse_json_lines(stdout: &str) -> (events: Vec<Json>)
    ensures
        item_trees(events@) == events_in(stdout@),
        forall|i: int| 0 <= i < events@.len() ==> valid((#[trigger] events@[i]).tree()),
{
    let chars = chars_of(stdout);
    let separator: [char; 1] = ['\n'];
    assert(separator@ =~= seq!['\n']);
    let lines = split_chars(chars.as_slice(), separator.as_slice());
    let ghost all = split(stdout@, seq!['\n']);
    let mut events: Vec<Json> = Vec::new();
    assert(item_trees(events@) =~= Seq::empty());
    assert(all.take(0) =~= Seq::empty());
    for i in 0..lines.len()
        invariant
            lines@.len() == all.len(),
            forall|j: int| 0 <= j < lines@.len() ==> (#[trigger] lines@[j])@ == all[j],
            item_trees(events@) == documents_in(all.take(i as int)),
            forall|j: int| 0 <= j < events@.len() ==> valid((#[trigger] events@[j]).tree()),
    {
        assert(all.take(i + 1).drop_last() =~= all.take(i as int));
        assert(all.take(i + 1).last() == lines@[i as int]@);
        if let Some(event) = parse_line(lines[i].as_slice()) {
            let ghost before = events@;
            events.push(event);
            assert(item_trees(events@) =~= item_trees(before).push(event.tree()));
        }
    }
    assert(all.take(all.len() as int) =~= all);
    events
}

/// The documents among some lines and some more are those of the first, then
/// those of the others.
proof fn documents_add_up(a: Seq<Seq<char>>, b: Seq<Seq<char>>)
    ensures
        documents_in(a + b) == documents_in(a) + documents_in(b),
    decreases b.len(),
{
    if b.len() == 0 {
        assert(a + b =~= a);
        assert(documents_in(a) + documents_in(b) =~= documents_in(a));
    } else {
        documents_add_up(a, b.drop_last());
        assert((a + b).drop_last() =~= a + b.drop_last());
        assert(documents_in(a + b) =~= documents_in(a) + documents_in(b));
    }
}

/// The events of two texts with a line feed between them are those of the
/// first, then those of the second: the order of the lines is kept, and no
/// line spoils another.
pub proof fn events_follow_the_lines(a: Seq<char>, b: Seq<char>)
    ensures
        events_in(a + seq!['\n'] + b) == events_in(a) + events_in(b),
{
    split_around(a, '\n', b);
    documents_add_up(split(a, seq!['\n']), split(b, seq!['\n']));
}

/// A line gives exactly the document that the parser reads from it once the
/// white space at its ends is gone, however long it is; it gives nothing where
/// the parser reads none, or where it is blank.
pub proof fn line_gives_its_event(line: Seq<char>)
    requires
        !line.contains('\n'),
    ensures
        trimmed(line).len() > 0 ==> match parsed_json(encode_utf8(trimmed(line))) {
            Some(document) => events_in(line) == seq![document],
            None => events_in(line) == Seq::<JsonTree>::empty(),
        },
        trimmed(line).len() == 0 ==> events_in(line) == Seq::<JsonTree>::empty(),
        events_in(line) == match document_on(line) {
            Some(document) => seq![document],
            None => Seq::empty(),
        },
{
    let mark = seq!['\n'];
    find_is_first(line, mark);
    if let Some(i) = find(line, mark) {
        assert(line.subrange(i as int, (i + 1) as int)[0] == '\n');
        assert(line[i as int] == '\n');
    }
    let lines = split(line, mark);
    assert(lines =~= seq![line]);
    assert(lines.drop_last() =~= Seq::empty());
    assert(documents_in(lines.drop_last()) =~= Seq::empty());
    assert(lines.last() == line);
    if trimmed(line).len() > 0 {
        if let Some(document) = parsed_json(encode_utf8(trimmed(line))) {
            assert(events_in(line) =~= seq![document]);
        } else {
            assert(events_in(line) =~= Seq::empty());
        }
    } else {
        assert(events_in(line) =~= Seq::empty());
    }
}

/// The fields in which Codex names its session.
pub open spec fn session_names() -> Seq<Seq<char>> {
    seq!["session_id"@, "sessionId"@, "thread_id"@, "threadId"@]
}

/// The session that the first event names that names one.
pub open spec fn session_in(events: Seq<JsonTree>) -> Option<Seq<char>>
    decreases events.len(),
{
    if events.len() == 0 {
        None
    } else {
        match found_string(events[0], session_names()) {
            Some(session) => Some(session),
            None => session_in(events.drop_first()),
        }
    }
}

/// The session of some events and some more is that of the first, or else that
/// of the others; one event names the session that a search for the four names
/// finds in it.
pub proof fn first_session_counts(a: Seq<JsonTree>, b: Seq<JsonTree>, event: JsonTree)
    ensures
        session_in(a + b) == match session_in(a) {
            Some(session) => Some(session),
            None => session_in(b),
        },
        session_in(seq![event]) == found_string(
            event,
            seq!["session_id"@, "sessionId"@, "thread_id"@, "threadId"@],
        ),
        session_in(Seq::empty()) is None,
    decreases a.len(),
{
    assert(seq![event].drop_first() =~= Seq::empty());
    assert(session_in(seq![event].drop_first()) is None);
    if a.len() == 0 {
        assert(a + b =~= b);
    } else {
        first_session_counts(a.drop_first(), b, event);
        assert((a + b).drop_first() =~= a.drop_first() + b);
    }
}

/// The session that some events name.
pub fn session_of(events: &Vec<Json>) -> (session: Option<String>)
    requires
        forall|i: int| 0 <= i < events@.len() ==> valid((#[trigger] events@[i]).tree()),
    ensures
        optional_text(session) == session_in(item_trees(events@)),
{
    let names: [&str; 4] = ["session_id", "sessionId", "thread_id", "threadId"];
    assert(texts(names@) =~= session_names());
    let ghost trees = item_trees(events@);
    assert(trees.skip(0) =~= trees);
    for i in 0..events.len()
        invariant
            texts(names@) == session_names(),
            trees == item_trees(events@),
            forall|j: int| 0 <= j < events@.len() ==> valid((#[trigger] events@[j]).tree()),
            session_in(trees) == session_in(trees.skip(i as int)),
    {
        assert(trees.skip(i as int)[0] == events@[i as int].tree());
        assert(trees.skip(i as int).drop_first() =~= trees.skip(i + 1));
        if let Some(session) = find_string_field(&events[i], names.as_slice()) {
            return Some(session);
        }
    }
    None
}

/// The session that Codex names in what it prints.
pub fn parse_session_id(stdout: &str) -> (session: Option<String>)
    ensures
        optional_text(session) == session_in(events_in(stdout@)),
{
    let events = parse_json_lines(stdout);
    session_of(&events)
}

// ---------------------------------------------------------------------------
// What is answered
// ---------------------------------------------------------------------------

/// How a run of Codex went.
pub struct RunView {
    pub exit_code: Option<i32>,
    pub success: bool,
    pub timed_out: bool,
    pub cancelled: bool,
    pub stdout: Seq<char>,
    pub stderr: Seq<char>,
    pub last_message: Seq<char>,
    pub elapsed_millis: u64,
    pub directory: Seq<char>,
}

/// How a run of Codex went.
#[derive(Debug)]
pub struct CodexRun {
    /// The exit code, where there was one.
    pub exit_code: Option<i32>,
    /// Whether Codex says that it succeeded.
    pub success: bool,
    /// Whether it was killed because its time was over.
    pub timed_out: bool,
    /// Whether it was cancelled.
    pub cancelled: bool,
    pub stdout: String,
    pub stderr: String,
    /// What stands in the file for the last message; nothing where there is no
    /// such file.
    pub last_message: String,
    pub elapsed_millis: u64,
    /// The directory in which Codex worked.
    pub directory: String,
}

impl View for CodexRun {
    type V = RunView;

    open spec fn view(&self) -> RunView {
        RunView {
            exit_code: self.exit_code,
            success: self.success,
            timed_out: self.timed_out,
            cancelled: self.cancelled,
            stdout: self.stdout@,
            stderr: self.stderr@,
            last_message: self.last_message@,
            elapsed_millis: self.elapsed_millis,
            directory: self.directory@,
        }
    }
}

impl RunView {
    /// Whether Codex came to a good end by itself.
    pub open spec fn ok(self) -> bool {
        self.success && !self.timed_out && !self.cancelled
    }

    /// The exit code; minus one where there was none.
    pub open spec fn return_code(self) -> int {
        match self.exit_code {
            Some(code) => code as int,
            None => -1,
        }
    }

    /// The last message; nothing of a run that was cut short.
    pub open spec fn final_message(self) -> Seq<char> {
        if self.timed_out || self.cancelled {
            Seq::empty()
        } else {
            trimmed(self.last_message)
        }
    }

    /// What went wrong.
    pub open spec fn error(self, timeout_seconds: u64) -> Seq<char> {
        if self.cancelled {
            "Codex request was cancelled."@
        } else if self.timed_out {
            "Codex timed out after "@ + decimal(timeout_seconds as nat) + " seconds."@
        } else if !self.success {
            trimmed(self.stderr)
        } else {
            Seq::empty()
        }
    }
}

/// The three digits of a number of milliseconds below a second.
pub open spec fn fraction_digits(millis: nat) -> Seq<char> {
    seq![
        digit_char(millis / 100 % 10),
        digit_char(millis / 10 % 10),
        digit_char(millis % 10),
    ]
}

/// A time in seconds, with three digits behind the point.
pub open spec fn seconds_text(millis: nat) -> Seq<char> {
    decimal(millis / 1000) + "."@ + fraction_digits(millis)
}

/// The time in seconds says how many milliseconds it was: its digits, without
/// the point, are their number.
pub proof fn seconds_count_the_milliseconds(millis: nat)
    ensures
        digits_value(decimal(millis / 1000) + fraction_digits(millis)) == millis,
{
    let whole = decimal(millis / 1000);
    let a = digit_char(millis / 100 % 10);
    let b = digit_char(millis / 10 % 10);
    let c = digit_char(millis % 10);
    decimal_reads_back(millis / 1000);
    let all = whole + fraction_digits(millis);
    assert(all.drop_last() =~= whole.push(a).push(b));
    assert(whole.push(a).push(b).drop_last() =~= whole.push(a));
    assert(whole.push(a).drop_last() =~= whole);
    assert(digits_value(whole.push(a)) == millis / 1000 * 10 + millis / 100 % 10);
    assert(digits_value(whole.push(a).push(b)) == (millis / 1000 * 10 + millis / 100 % 10) * 10
        + millis / 10 % 10);
}

/// A time in seconds, with three digits behind the point.
pub fn seconds(millis: u64) -> (text: String)
    ensures
        text@ == seconds_text(millis as nat),
{
    let mut text = decimal_text(millis / 1000);
    text.append(".");
    text.push((48u8 + (millis / 100 % 10) as u8) as char);
    text.push((48u8 + (millis / 10 % 10) as u8) as char);
    text.push((48u8 + (millis % 10) as u8) as char);
    assert(text@ =~= seconds_text(millis as nat));
    text
}

/// What every answer says of a run.
pub open spec fn short_answer(request: ChatView, run: RunView) -> Seq<(Seq<char>, JsonTree)> {
    seq![
        ("ok"@, JsonTree::Bool(run.ok())),
        ("returncode"@, integer_tree(run.return_code())),
        ("request_id"@, JsonTree::Text(request.request_id)),
        ("cancelled"@, JsonTree::Bool(run.cancelled)),
        ("timed_out"@, JsonTree::Bool(run.timed_out)),
        ("session_id"@, optional_text_tree(session_in(events_in(run.stdout)))),
        ("final_message"@, JsonTree::Text(run.final_message())),
        ("elapsed_seconds"@, JsonTree::Decimal(seconds_text(run.elapsed_millis as nat))),
        ("error"@, JsonTree::Text(run.error(request.timeout_seconds))),
    ]
}

/// What an answer says of a run besides, unless it shall be short.
pub open spec fn long_answer(run: RunView) -> Seq<(Seq<char>, JsonTree)> {
    seq![
        ("cwd"@, JsonTree::Text(run.directory)),
        ("stdout"@, JsonTree::Text(run.stdout)),
        ("stderr"@, JsonTree::Text(run.stderr)),
        ("events"@, JsonTree::Array(events_in(run.stdout))),
    ]
}

/// The answer to a request.
pub open spec fn run_answer(request: ChatView, run: RunView) -> JsonTree {
    JsonTree::Object(
        short_answer(request, run) + if request.compact {
            Seq::empty()
        } else {
            long_answer(run)
        },
    )
}

/// What went wrong with a run.
fn run_error(run: &CodexRun, timeout_seconds: u64) -> (error: String)
    ensures
        error@ == run@.error(timeout_seconds),
{
    if run.cancelled {
        "Codex request was cancelled.".to_string()
    } else if run.timed_out {
        let seconds = decimal_text(timeout_seconds);
        concat3("Codex timed out after ", seconds.as_str(), " seconds.")
    } else if !run.success {
        trim(run.stderr.as_str()).to_string()
    } else {
        let nothing = String::new();
        assert(nothing@ =~= Seq::empty());
        nothing
    }
}

/// The last message of a run.
fn run_message(run: &CodexRun) -> (message: String)
    ensures
        message@ == run@.final_message(),
{
    if run.timed_out || run.cancelled {
        let nothing = String::new();
        assert(nothing@ =~= Seq::empty());
        nothing
    } else {
        trim(run.last_message.as_str()).to_string()
    }
}

/// The answer to a request, from how the run went.
pub fn codex_answer(request: &CodexRequest, run: &CodexRun) -> (json: Json)
    ensures
        json.tree() == run_answer(request@, run@),
{
    let events = parse_json_lines(run.stdout.as_str());
    let session = match session_of(&events) {
        Some(session) => Json::Text(session),
        None => Json::Null,
    };
    let code: i32 = match run.exit_code {
        Some(code) => code,
        None => -1,
    };
    let mut fields = no_fields();
    push_field(
        &mut fields,
        "ok",
        Json::Bool(run.success && !run.timed_out && !run.cancelled),
    );
    push_field(&mut fields, "returncode", integer(code));
    push_field(&mut fields, "request_id", text_value(request.request_id.as_str()));
    push_field(&mut fields, "cancelled", Json::Bool(run.cancelled));
    push_field(&mut fields, "timed_out", Json::Bool(run.timed_out));
    push_field(&mut fields, "session_id", session);
    push_field(&mut fields, "final_message", Json::Text(run_message(run)));
    push_field(&mut fields, "elapsed_seconds", Json::Decimal(seconds(run.elapsed_millis)));
    push_field(&mut fields, "error", Json::Text(run_error(run, request.timeout_seconds)));
    assert(field_trees(fields@) == short_answer(request@, run@));
    if !request.compact {
        push_field(&mut fields, "cwd", text_value(run.directory.as_str()));
        push_field(&mut fields, "stdout", text_value(run.stdout.as_str()));
        push_field(&mut fields, "stderr", text_value(run.stderr.as_str()));
        push_field(&mut fields, "events", array(events));
    }
    assert(field_trees(fields@) =~= run_answer(request@, run@)->Object_0);
    object(fields)
}

/// A run that was cut short is no success, gives no message, and says why it
/// was cut short.
pub proof fn cut_short_run_is_no_success(request: ChatView, run: RunView)
    requires
        run.timed_out || run.cancelled,
    ensures
        !run.ok(),
        run.final_message() == Seq::<char>::empty(),
        run.cancelled ==> run.error(request.timeout_seconds) == "Codex request was cancelled."@,
        !run.cancelled ==> run.error(request.timeout_seconds) == "Codex timed out after "@
            + decimal(request.timeout_seconds as nat) + " seconds."@,
{
}

/// A good run has nothing to say about what went wrong.
pub proof fn good_run_has_no_error(request: ChatView, run: RunView)
    requires
        run.ok(),
    ensures
        run.error(request.timeout_seconds) == Seq::<char>::empty(),
        run.final_message() == trimmed(run.last_message),
{
}

/// Whether the names of some fields differ, each from every other.
spec fn names_differ(fields: Seq<(Seq<char>, JsonTree)>) -> bool {
    forall|i: int, j: int|
        0 <= i < j < fields.len() ==> (#[trigger] fields[i]).0 != (#[trigger] fields[j]).0
}

/// No field of an answer has the name of another.
proof fn answer_names_differ(request: ChatView, run: RunView)
    ensures
        names_differ(short_answer(request, run) + long_answer(run)),
        names_differ(run_answer(request, run)->Object_0),
{
    let fields = run_answer(request, run)->Object_0;
    let all = short_answer(request, run) + long_answer(run);
    reveal_strlit("ok");
    reveal_strlit("returncode");
    reveal_strlit("request_id");
    reveal_strlit("cancelled");
    reveal_strlit("timed_out");
    reveal_strlit("session_id");
    reveal_strlit("final_message");
    reveal_strlit("elapsed_seconds");
    reveal_strlit("error");
    reveal_strlit("cwd");
    reveal_strlit("stdout");
    reveal_strlit("stderr");
    reveal_strlit("events");
    assert("returncode"@[2] == 't' && "request_id"@[2] == 'q' && "session_id"@[2] == 's');
    assert("cancelled"@[0] == 'c' && "timed_out"@[0] == 't');
    assert("stdout"@[3] == 'o' && "stderr"@[3] == 'e' && "events"@[3] == 'n');
    assert(all[0].0.len() == 2 && all[1].0.len() == 10 && all[2].0.len() == 10);
    assert(all[3].0.len() == 9 && all[4].0.len() == 9 && all[5].0.len() == 10);
    assert(all[6].0.len() == 13 && all[7].0.len() == 15 && all[8].0.len() == 5);
    assert(all[9].0.len() == 3 && all[10].0.len() == 6);
    assert(all[11].0.len() == 6 && all[12].0.len() == 6);
    assert(all.len() == 13);
    assert forall|i: int, j: int| 0 <= i < j < all.len() implies (#[trigger] all[i]).0 != (
    #[trigger] all[j]).0 by {
        if all[i].0.len() == all[j].0.len() {
            if all[i].0.len() == 10 {
                assert(all[i].0[2] != all[j].0[2]);
            } else if all[i].0.len() == 9 {
                assert(all[i].0[0] != all[j].0[0]);
            } else {
                assert(all[i].0.len() == 6);
                assert(all[i].0[3] != all[j].0[3]);
            }
        }
    }
    assert forall|i: int, j: int| 0 <= i < j < fields.len() implies (#[trigger] fields[i]).0 != (
    #[trigger] fields[j]).0 by {
        assert(fields[i] == all[i] && fields[j] == all[j]);
    }
}

/// The answer says of a run how it went, under these names, whatever Codex
/// printed: it is good where Codex succeeded by itself; the last message is what
/// Codex left, and nothing of a run that was cut short; the error is why it was
/// cut short, or else what Codex printed as errors.
pub proof fn answer_by_name(request: ChatView, run: RunView)
    ensures
        ({
            let given = run_answer(request, run);
            let cut_short = run.timed_out || run.cancelled;
            &&& given.bool_of_field("ok"@) == Some(run.ok())
            &&& given.text_of_field("final_message"@) == Some(run.final_message())
            &&& given.text_of_field("error"@) == Some(run.error(request.timeout_seconds))
            &&& given.bool_of_field("ok"@) == Some(run.success && !cut_short)
            &&& run.exit_code matches Some(code) ==> code >= 0 ==> given.field("returncode"@)
                == Some(JsonTree::Unsigned(code as u64))
            &&& run.exit_code matches Some(code) ==> code < 0 ==> given.field("returncode"@)
                == Some(JsonTree::Negative(code as i64))
            &&& run.exit_code is None ==> given.field("returncode"@) == Some(
                JsonTree::Negative((-1) as i64),
            )
            &&& given.text_of_field("request_id"@) == Some(request.request_id)
            &&& given.bool_of_field("cancelled"@) == Some(run.cancelled)
            &&& given.bool_of_field("timed_out"@) == Some(run.timed_out)
            &&& given.field("session_id"@) == Some(
                match session_in(events_in(run.stdout)) {
                    Some(session) => JsonTree::Text(session),
                    None => JsonTree::Null,
                },
            )
            &&& given.text_of_field("final_message"@) == Some(
                if cut_short {
                    Seq::<char>::empty()
                } else {
                    trimmed(run.last_message)
                },
            )
            &&& given.field("elapsed_seconds"@) == Some(
                JsonTree::Decimal(seconds_text(run.elapsed_millis as nat)),
            )
            &&& given.text_of_field("error"@) == Some(
                if run.cancelled {
                    "Codex request was cancelled."@
                } else if run.timed_out {
                    "Codex timed out after "@ + decimal(request.timeout_seconds as nat)
                        + " seconds."@
                } else if run.success {
                    Seq::<char>::empty()
                } else {
                    trimmed(run.stderr)
                },
            )
        }),
{
    let fields = run_answer(request, run)->Object_0;
    let short = short_answer(request, run);
    answer_names_differ(request, run);
    assert forall|i: int| 0 <= i < 9 implies #[trigger] fields[i] == short[i] by {}
    field_at(fields, 0);
    field_at(fields, 1);
    field_at(fields, 2);
    field_at(fields, 3);
    field_at(fields, 4);
    field_at(fields, 5);
    field_at(fields, 6);
    field_at(fields, 7);
    field_at(fields, 8);
}

/// Unless it shall be short, the answer says besides where Codex worked, all that
/// it printed, and the events in it; a short answer says nothing of these.
pub proof fn long_answer_by_name(request: ChatView, run: RunView)
    ensures
        ({
            let given = run_answer(request, run);
            &&& !request.compact ==> {
                &&& given.text_of_field("cwd"@) == Some(run.directory)
                &&& given.text_of_field("stdout"@) == Some(run.stdout)
                &&& given.text_of_field("stderr"@) == Some(run.stderr)
                &&& given.field("events"@) == Some(JsonTree::Array(events_in(run.stdout)))
            }
            &&& request.compact ==> {
                &&& given.field("cwd"@) is None
                &&& given.field("stdout"@) is None
                &&& given.field("stderr"@) is None
                &&& given.field("events"@) is None
            }
        }),
{
    let fields = run_answer(request, run)->Object_0;
    let all = short_answer(request, run) + long_answer(run);
    answer_names_differ(request, run);
    if request.compact {
        assert forall|i: int| 0 <= i < fields.len() implies #[trigger] fields[i] == all[i] by {}
        missing_field(fields, all[9].0);
        missing_field(fields, all[10].0);
        missing_field(fields, all[11].0);
        missing_field(fields, all[12].0);
    } else {
        assert(fields =~= all);
        field_at(fields, 9);
        field_at(fields, 10);
        field_at(fields, 11);
        field_at(fields, 12);
    }
}

/// The last three digits of a number, one by one.
proof fn last_three_digits(n: nat)
    ensures
        (n / 100 % 10 * 10 + n / 10 % 10) * 10 + n % 10 == n % 1000,
{
    let tens = n / 10;
    let hundreds = tens / 10;
    let thousands = hundreds / 10;
    assert(n == 10 * tens + n % 10);
    assert(tens == 10 * hundreds + tens % 10);
    assert(hundreds == 10 * thousands + hundreds % 10);
    assert(hundreds == n / 100);
    assert(thousands == n / 1000);
    assert(n == 1000 * thousands + n % 1000);
}

/// The digits behind the point count the milliseconds.
proof fn fraction_counts_the_milliseconds(millis: nat)
    ensures
        digits_value(fraction_digits(millis)) == millis % 1000,
{
    let x = millis / 100 % 10;
    let y = millis / 10 % 10;
    let z = millis % 10;
    let a = digit_char(x);
    let b = digit_char(y);
    let c = digit_char(z);
    assert(digit_value(a) == x && digit_value(b) == y && digit_value(c) == z);
    let all = seq![a, b, c];
    assert(all =~= fraction_digits(millis));
    assert(all.drop_last() =~= seq![a, b]);
    assert(seq![a, b].drop_last() =~= seq![a]);
    assert(seq![a].drop_last() =~= Seq::empty());
    reveal_with_fuel(digits_value, 4);
    assert(digits_value(all) == (x * 10 + y) * 10 + z);
    last_three_digits(millis);
}

/// A time in seconds is written with the whole seconds before the point and the
/// milliseconds in three digits behind it.
pub proof fn seconds_have_a_point(millis: nat)
    ensures
        ({
            let text = seconds_text(millis);
            let whole = decimal(millis / 1000);
            &&& text.len() == whole.len() + 4
            &&& text.take(whole.len() as int) == whole
            &&& text[whole.len() as int] == '.'
            &&& digits_value(text.skip((whole.len() + 1) as int)) == millis % 1000
        }),
{
    reveal_strlit(".");
    let text = seconds_text(millis);
    let whole = decimal(millis / 1000);
    assert(text.take(whole.len() as int) =~= whole);
    assert(text.skip((whole.len() + 1) as int) =~= fraction_digits(millis));
    fraction_counts_the_milliseconds(millis);
}

// ---------------------------------------------------------------------------
// The connection test
// ---------------------------------------------------------------------------

/// The request by which the user tests the connection.
pub open spec fn probe() -> JsonTree {
    JsonTree::Object(
        seq![
            (
                "message"@,
                JsonTree::Text(
                    "This is a MarketState connector health check. Reply with exactly: Ready"@,
                ),
            ),
            ("sandbox"@, JsonTree::Text("read-only"@)),
            ("timeout_seconds"@, JsonTree::Unsigned(180)),
            ("ephemeral"@, JsonTree::Bool(true)),
            ("compact_response"@, JsonTree::Bool(true)),
            ("isolated_workspace"@, JsonTree::Bool(true)),
            ("ignore_user_config"@, JsonTree::Bool(true)),
            ("ignore_rules"@, JsonTree::Bool(true)),
        ],
    )
}

/// The request by which the user tests the connection.
pub fn test_payload() -> (payload: Json)
    ensures
        payload.tree() == probe(),
{
    let mut fields = no_fields();
    push_field(
        &mut fields,
        "message",
        text_value("This is a MarketState connector health check. Reply with exactly: Ready"),
    );
    push_field(&mut fields, "sandbox", text_value("read-only"));
    push_field(&mut fields, "timeout_seconds", Json::Unsigned(180));
    push_field(&mut fields, "ephemeral", Json::Bool(true));
    push_field(&mut fields, "compact_response", Json::Bool(true));
    push_field(&mut fields, "isolated_workspace", Json::Bool(true));
    push_field(&mut fields, "ignore_user_config", Json::Bool(true));
    push_field(&mut fields, "ignore_rules", Json::Bool(true));
    assert(field_trees(fields@) =~= probe()->Object_0);
    object(fields)
}

/// What the user is told of a test: what Codex said, or what went wrong.
pub open spec fn tested(given: JsonTree) -> Result<Seq<char>, Seq<char>> {
    if given.flag("ok"@) {
        Ok(
            match given.text_of_field("final_message"@) {
                Some(message) => message,
                None => "Ready"@,
            },
        )
    } else {
        Err(
            match given.text_of_field("error"@) {
                Some(error) => error,
                None => "Codex test failed."@,
            },
        )
    }
}

/// What the user is told of a test, from the answer to it. Where it could not
/// be run, the error is passed on.
pub fn test_connection(response: Result<Json, String>) -> (told: Result<String, String>)
    ensures
        text_result(told) == match response {
            Ok(given) => tested(given.tree()),
            Err(error) => Err(error@),
        },
{
    match response {
        Ok(given) => {
            if given.flag("ok") {
                match given.text_in("final_message") {
                    Some(message) => Ok(message.to_string()),
                    None => Ok("Ready".to_string()),
                }
            } else {
                match given.text_in("error") {
                    Some(error) => Err(error.to_string()),
                    None => Err("Codex test failed.".to_string()),
                }
            }
        },
        Err(error) => Err(error),
    }
}

/// A test succeeds exactly where the run is a good one, and tells the last
/// message or what went wrong.
pub proof fn test_tells_how_the_run_went(request: ChatView, run: RunView)
    ensures
        tested(run_answer(request, run)) == if run.ok() {
            Ok::<Seq<char>, Seq<char>>(run.final_message())
        } else {
            Err(run.error(request.timeout_seconds))
        },
        run.success && !run.timed_out && !run.cancelled ==> tested(run_answer(request, run)) == Ok::<
            Seq<char>,
            Seq<char>,
        >(trimmed(run.last_message)),
        !(run.success && !run.timed_out && !run.cancelled) ==> tested(run_answer(request, run))
            == Err::<Seq<char>, Seq<char>>(run.error(request.timeout_seconds)),
{
    answer_by_name(request, run);
}

/// The user is told what an answer says: its message where it is a good one, and
/// its error otherwise; something fixed where it says nothing.
pub proof fn test_tells_what_the_answer_says(given: JsonTree)
    ensures
        given.bool_of_field("ok"@) == Some(true) ==> tested(given) == Ok::<Seq<char>, Seq<char>>(
            match given.text_of_field("final_message"@) {
                Some(message) => message,
                None => "Ready"@,
            },
        ),
        given.bool_of_field("ok"@) != Some(true) ==> tested(given) == Err::<Seq<char>, Seq<char>>(
            match given.text_of_field("error"@) {
                Some(error) => error,
                None => "Codex test failed."@,
            },
        ),
{
}

/// The test asks Codex for one word, read-only, within three minutes, in a
/// directory of its own and without what the user has set up, and wants a short
/// answer.
pub proof fn test_is_harmless()
    ensures
        probe().text_of_field("message"@) == Some(
            "This is a MarketState connector health check. Reply with exactly: Ready"@,
        ),
        probe().text_of_field("sandbox"@) == Some("read-only"@),
        timeout_in(probe()) == 180,
        probe().flag("ephemeral"@),
        probe().flag("compact_response"@),
        probe().flag("isolated_workspace"@),
        probe().flag("ignore_user_config"@),
        probe().flag("ignore_rules"@),
        probe().field("session_id"@) is None,
{
    reveal_strlit("message");
    reveal_strlit("sandbox");
    reveal_strlit("timeout_seconds");
    reveal_strlit("ephemeral");
    reveal_strlit("compact_response");
    reveal_strlit("isolated_workspace");
    reveal_strlit("ignore_user_config");
    reveal_strlit("ignore_rules");
    reveal_strlit("session_id");
    let fields = probe()->Object_0;
    assert("message"@[0] == 'm' && "sandbox"@[0] == 's');
    assert("isolated_workspace"@[1] == 's' && "ignore_user_config"@[1] == 'g');
    assert(fields[0].0.len() == 7 && fields[1].0.len() == 7 && fields[2].0.len() == 15);
    assert(fields[3].0.len() == 9 && fields[4].0.len() == 16 && fields[5].0.len() == 18);
    assert(fields[6].0.len() == 18 && fields[7].0.len() == 12);
    assert(fields.len() == 8);
    assert forall|i: int, j: int| 0 <= i < j < fields.len() implies (#[trigger] fields[i]).0 != (
    #[trigger] fields[j]).0 by {
        if fields[i].0.len() == fields[j].0.len() {
            assert(fields[i].0[0] != fields[j].0[0] || fields[i].0[1] != fields[j].0[1]);
        }
    }
    field_at(fields, 0);
    field_at(fields, 1);
    field_at(fields, 2);
    field_at(fields, 3);
    field_at(fields, 4);
    field_at(fields, 5);
    field_at(fields, 6);
    field_at(fields, 7);
    missing_field(fields, "session_id"@);
}

} // verus!
