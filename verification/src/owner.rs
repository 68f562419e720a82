//! The owner of an installation. The first user whom the account service
//! confirms becomes the owner; every other user is turned away until the owner
//! is unlinked.

use crate::account::{
    bearer_token, optional_binding, token_in, validate_marketstate_token, validated, BindingView,
    CurlOutcome, OwnerBinding,
};
use crate::codec::{
    document_view, normal, normal_fields, parsed_json, plain_name, put_field, record_bytes,
    record_object, record_texts, record_to_vec_pretty,
};
use crate::codex::command_view;
use crate::json::{field_at, name_less, JsonTree};
use crate::request::{header, header_texts, Headers};
use crate::text::{attempt_view, concat2, concat3, same_text};
use vstd::prelude::*;

verus! {

/// How long the answer of the account service is relied upon, in nanoseconds.
pub const AUTH_CACHE_NANOS: u64 = 30_000_000_000;

/// A user whom the account service has confirmed.
pub struct CachedView {
    pub access_token: Seq<char>,
    pub identity: BindingView,
    pub checked_at: u64,
}

/// A user whom the account service has confirmed.
#[derive(Debug)]
pub struct CachedIdentity {
    pub access_token: String,
    pub identity: OwnerBinding,
    /// When the user was last seen, in nanoseconds on the clock of the
    /// process.
    pub checked_at: u64,
}

impl View for CachedIdentity {
    type V = CachedView;

    open spec fn view(&self) -> CachedView {
        CachedView {
            access_token: self.access_token@,
            identity: self.identity@,
            checked_at: self.checked_at,
        }
    }
}

/// Who owns the installation, and who was confirmed last.
pub struct OwnerView {
    pub binding: Option<BindingView>,
    pub auth_cache: Option<CachedView>,
}

/// Who owns the installation, and who was confirmed last.
#[derive(Debug)]
pub struct OwnerState {
    pub binding: Option<OwnerBinding>,
    pub auth_cache: Option<CachedIdentity>,
}

impl View for OwnerState {
    type V = OwnerView;

    open spec fn view(&self) -> OwnerView {
        OwnerView {
            binding: optional_binding(self.binding),
            auth_cache: match self.auth_cache {
                Some(cached) => Some(cached@),
                None => None,
            },
        }
    }
}

/// Why a request is not let in.
pub struct FailureView {
    pub status: u16,
    pub reason: Seq<char>,
    pub code: Seq<char>,
    pub message: Seq<char>,
}

/// Why a request is not let in.
#[derive(Debug)]
pub struct AuthFailure {
    pub status: u16,
    pub reason: &'static str,
    pub code: &'static str,
    pub message: String,
}

impl View for AuthFailure {
    type V = FailureView;

    open spec fn view(&self) -> FailureView {
        FailureView {
            status: self.status,
            reason: self.reason@,
            code: self.code@,
            message: self.message@,
        }
    }
}

// ---------------------------------------------------------------------------
// Who asks
// ---------------------------------------------------------------------------

/// The request carries no token that could be checked.
pub open spec fn login_required(message: Seq<char>) -> FailureView {
    FailureView {
        status: 401,
        reason: "Unauthorized"@,
        code: "marketstate_login_required"@,
        message,
    }
}

/// The account service does not confirm the token.
pub open spec fn session_invalid(message: Seq<char>) -> FailureView {
    FailureView {
        status: 401,
        reason: "Unauthorized"@,
        code: "marketstate_session_invalid"@,
        message,
    }
}

/// The installation belongs to somebody else.
pub open spec fn owned_by(owner: BindingView) -> FailureView {
    FailureView {
        status: 403,
        reason: "Forbidden"@,
        code: "connector_owned_by_another_user"@,
        message: "This connector belongs to "@ + (if owner.email.len() == 0 {
            "another MarketState user"@
        } else {
            owner.email
        })
            + ". Open the connector and explicitly unlink that account before changing users."@,
    }
}

/// The new owner could not be recorded.
pub open spec fn claim_failed(message: Seq<char>) -> FailureView {
    FailureView {
        status: 500,
        reason: "Internal Server Error"@,
        code: "owner_binding_failed"@,
        message,
    }
}

/// Nobody can say who the owner is.
pub open spec fn state_unavailable() -> FailureView {
    FailureView {
        status: 500,
        reason: "Internal Server Error"@,
        code: "owner_state_unavailable"@,
        message: "Connector account state is unavailable."@,
    }
}

/// The answer when the state of the owner cannot be reached.
pub fn owner_state_unavailable() -> (failure: AuthFailure)
    ensures
        failure@ == state_unavailable(),
{
    AuthFailure {
        status: 500,
        reason: "Internal Server Error",
        code: "owner_state_unavailable",
        message: "Connector account state is unavailable.".to_string(),
    }
}

/// The token of a request, or the answer to a request without one.
pub fn request_token(headers: &Headers) -> (token: Result<&str, AuthFailure>)
    ensures
        match token {
            Ok(token) => token_in(header_texts(*headers)) == Ok::<Seq<char>, Seq<char>>(token@),
            Err(failure) => match token_in(header_texts(*headers)) {
                Ok(_) => false,
                Err(message) => failure@ == login_required(message),
            },
        },
{
    match bearer_token(headers) {
        Ok(token) => Ok(token),
        Err(message) => Err(
            AuthFailure {
                status: 401,
                reason: "Unauthorized",
                code: "marketstate_login_required",
                message,
            },
        ),
    }
}

/// The user whom the account service names, or the answer when it names none.
pub fn session_identity(
    validated: Result<OwnerBinding, String>,
) -> (identity: Result<OwnerBinding, AuthFailure>)
    ensures
        match validated {
            Ok(binding) => identity == Ok::<OwnerBinding, AuthFailure>(binding),
            Err(message) => identity matches Err(failure) && failure@ == session_invalid(message@),
        },
{
    match validated {
        Ok(binding) => Ok(binding),
        Err(message) => Err(
            AuthFailure {
                status: 401,
                reason: "Unauthorized",
                code: "marketstate_session_invalid",
                message,
            },
        ),
    }
}

impl OwnerView {
    /// The user who was confirmed with that token less than the time ago for
    /// which this counts. A clock that stands before that moment counts as no
    /// time gone.
    pub open spec fn cached(self, access_token: Seq<char>, now: u64) -> Option<BindingView> {
        match self.auth_cache {
            Some(cached) => if cached.access_token == access_token && now - cached.checked_at
                < AUTH_CACHE_NANOS {
                Some(cached.identity)
            } else {
                None
            },
            None => None,
        }
    }
}

// ---------------------------------------------------------------------------
// Who owns
// ---------------------------------------------------------------------------

/// What becomes of a confirmed user: the owner after it, and the answer. Where
/// nobody owns the installation yet, the user becomes the owner if that could
/// be recorded (`saved`).
pub open spec fn authorized(
    owner: OwnerView,
    access_token: Seq<char>,
    identity: BindingView,
    saved: Result<(), Seq<char>>,
    now: u64,
) -> (OwnerView, Result<BindingView, FailureView>) {
    let cache = Some(CachedView { access_token, identity, checked_at: now });
    match owner.binding {
        Some(binding) => if binding.user_id != identity.user_id {
            (owner, Err(owned_by(binding)))
        } else {
            (OwnerView { binding: Some(binding), auth_cache: cache }, Ok(identity))
        },
        None => match saved {
            Err(message) => (owner, Err(claim_failed(message))),
            Ok(_) => (OwnerView { binding: Some(identity), auth_cache: cache }, Ok(identity)),
        },
    }
}

/// The answer to a user as a reader of texts sees it.
pub open spec fn answer_view(
    answer: Result<OwnerBinding, AuthFailure>,
) -> Result<BindingView, FailureView> {
    match answer {
        Ok(binding) => Ok(binding@),
        Err(failure) => Err(failure@),
    }
}

/// Whoever was confirmed last is the owner.
pub open spec fn consistent(owner: OwnerView) -> bool {
    match owner.auth_cache {
        Some(cached) => owner.binding is Some && owner.binding->0.user_id
            == cached.identity.user_id,
        None => true,
    }
}

impl OwnerState {
    /// The state when the connector starts: the owner on record, and nobody
    /// confirmed.
    pub fn new(binding: Option<OwnerBinding>) -> (state: Self)
        ensures
            state@ == (OwnerView { binding: optional_binding(binding), auth_cache: None }),
            consistent(state@),
    {
        OwnerState { binding, auth_cache: None }
    }

    /// Whether nobody owns the installation.
    pub fn is_unclaimed(&self) -> (r: bool)
        ensures
            r == (self@.binding is None),
    {
        self.binding.is_none()
    }

    /// The user who was lately confirmed with that token.
    pub fn cached_identity(&self, access_token: &str, now: u64) -> (identity: Option<OwnerBinding>)
        ensures
            optional_binding(identity) == self@.cached(access_token@, now),
    {
        match &self.auth_cache {
            Some(cached) => {
                let age: u64 = if now > cached.checked_at {
                    now - cached.checked_at
                } else {
                    0
                };
                if same_text(cached.access_token.as_str(), access_token) && age
                    < AUTH_CACHE_NANOS {
                    Some(cached.identity.clone())
                } else {
                    None
                }
            },
            None => None,
        }
    }

    /// Forgets the owner.
    fn unlink(&mut self)
        ensures
            final(self)@ == (OwnerView { binding: None, auth_cache: None }),
    {
        self.binding = None;
        self.auth_cache = None;
    }
}

/// How the question who asks can be settled.
pub enum IdentityView {
    Denied(FailureView),
    Known { access_token: Seq<char>, identity: BindingView },
    Ask { access_token: Seq<char> },
}

/// How the question who asks can be settled.
#[derive(Debug)]
pub enum IdentityCheck {
    /// The request is turned away.
    Denied(AuthFailure),
    /// The user was lately confirmed with the same token.
    Known { access_token: String, identity: OwnerBinding },
    /// The account service has to be asked about the token.
    Ask { access_token: String },
}

impl View for IdentityCheck {
    type V = IdentityView;

    open spec fn view(&self) -> IdentityView {
        match *self {
            IdentityCheck::Denied(failure) => IdentityView::Denied(failure@),
            IdentityCheck::Known { access_token, identity } => IdentityView::Known {
                access_token: access_token@,
                identity: identity@,
            },
            IdentityCheck::Ask { access_token } => IdentityView::Ask {
                access_token: access_token@,
            },
        }
    }
}

/// How the question who asks can be settled, from the headers of the request.
pub open spec fn identity_check(
    owner: OwnerView,
    headers: Map<Seq<char>, Seq<char>>,
    now: u64,
) -> IdentityView {
    match token_in(headers) {
        Err(message) => IdentityView::Denied(login_required(message)),
        Ok(access_token) => match owner.cached(access_token, now) {
            Some(identity) => IdentityView::Known { access_token, identity },
            None => IdentityView::Ask { access_token },
        },
    }
}

/// How the question who asks can be settled, from the headers of the request.
pub fn check_identity(owner: &OwnerState, headers: &Headers, now: u64) -> (check: IdentityCheck)
    ensures
        check@ == identity_check(owner@, header_texts(*headers), now),
{
    match request_token(headers) {
        Err(failure) => IdentityCheck::Denied(failure),
        Ok(access_token) => match owner.cached_identity(access_token, now) {
            Some(identity) => IdentityCheck::Known {
                access_token: access_token.to_string(),
                identity,
            },
            None => IdentityCheck::Ask { access_token: access_token.to_string() },
        },
    }
}

/// Of all that a request says, only its `Authorization` header counts for who
/// asks. No other header can name a user.
pub proof fn only_the_token_identifies(
    owner: OwnerView,
    headers: Map<Seq<char>, Seq<char>>,
    others: Map<Seq<char>, Seq<char>>,
    now: u64,
)
    requires
        header(headers, "authorization"@) == header(others, "authorization"@),
    ensures
        identity_check(owner, headers, now) == identity_check(owner, others, now),
{
}

/// The answer to a user who does not own the installation.
fn turned_away(binding: &OwnerBinding) -> (failure: AuthFailure)
    ensures
        failure@ == owned_by(binding@),
{
    let owner = if binding.email.as_str().is_empty() {
        "another MarketState user"
    } else {
        binding.email.as_str()
    };
    AuthFailure {
        status: 403,
        reason: "Forbidden",
        code: "connector_owned_by_another_user",
        message: concat3(
            "This connector belongs to ",
            owner,
            ". Open the connector and explicitly unlink that account before changing users.",
        ),
    }
}

/// Lets a confirmed user in, or turns the user away. `saved` says whether the
/// user could be recorded as the owner; it counts only where nobody owns the
/// installation.
pub fn authorize_marketstate_user(
    owner: &mut OwnerState,
    access_token: &str,
    identity: OwnerBinding,
    saved: Result<(), String>,
    now: u64,
) -> (answer: Result<OwnerBinding, AuthFailure>)
    ensures
        (final(owner)@, answer_view(answer)) == authorized(
            old(owner)@,
            access_token@,
            identity@,
            attempt_view(saved),
            now,
        ),
        consistent(old(owner)@) ==> consistent(final(owner)@),
{
    match &owner.binding {
        Some(binding) => {
            if !same_text(binding.user_id.as_str(), identity.user_id.as_str()) {
                return Err(turned_away(binding));
            }
        },
        None => {
            match saved {
                Ok(_) => {
                    owner.binding = Some(identity.clone());
                },
                Err(message) => {
                    return Err(
                        AuthFailure {
                            status: 500,
                            reason: "Internal Server Error",
                            code: "owner_binding_failed",
                            message,
                        },
                    );
                },
            }
        },
    }
    owner.auth_cache = Some(
        CachedIdentity {
            access_token: access_token.to_string(),
            identity: identity.clone(),
            checked_at: now,
        },
    );
    Ok(identity)
}

/// The token and the user of a request, once the question who asks is settled,
/// or the answer where it cannot be. `asked` is what came of asking the account
/// service; it counts only where it had to be asked.
pub open spec fn confirmed(check: IdentityView, asked: CurlOutcome) -> Result<
    (Seq<char>, BindingView),
    FailureView,
> {
    match check {
        IdentityView::Denied(failure) => Err(failure),
        IdentityView::Known { access_token, identity } => Ok((access_token, identity)),
        IdentityView::Ask { access_token } => match validated(asked) {
            Ok(identity) => Ok((access_token, identity)),
            Err(message) => Err(session_invalid(message)),
        },
    }
}

/// A token and a user, or an answer, as a reader of texts sees them.
pub open spec fn confirmed_view(
    result: Result<(String, OwnerBinding), AuthFailure>,
) -> Result<(Seq<char>, BindingView), FailureView> {
    match result {
        Ok((access_token, identity)) => Ok((access_token@, identity@)),
        Err(failure) => Err(failure@),
    }
}

/// Settles the question who asks. `asked` is what came of asking the account
/// service; it counts only where [`check_identity`] says that it has to be
/// asked.
pub fn confirmed_identity(check: IdentityCheck, asked: CurlOutcome) -> (result: Result<
    (String, OwnerBinding),
    AuthFailure,
>)
    ensures
        confirmed_view(result) == confirmed(check@, asked),
{
    match check {
        IdentityCheck::Denied(failure) => Err(failure),
        IdentityCheck::Known { access_token, identity } => Ok((access_token, identity)),
        IdentityCheck::Ask { access_token } => match session_identity(
            validate_marketstate_token(asked),
        ) {
            Ok(identity) => Ok((access_token, identity)),
            Err(failure) => Err(failure),
        },
    }
}

/// What comes of a request by the whole way through, which is that of
/// [`check_identity`], [`confirmed_identity`] and
/// [`authorize_marketstate_user`] in turn. The owner may have changed while the
/// account service was asked.
pub open spec fn authorization(
    owner: OwnerView,
    headers: Map<Seq<char>, Seq<char>>,
    now: u64,
    asked: CurlOutcome,
    owner_later: OwnerView,
    saved: Result<(), Seq<char>>,
    later: u64,
) -> (OwnerView, Result<BindingView, FailureView>) {
    match confirmed(identity_check(owner, headers, now), asked) {
        Err(failure) => (owner_later, Err(failure)),
        Ok((access_token, identity)) => authorized(
            owner_later,
            access_token,
            identity,
            saved,
            later,
        ),
    }
}

/// Nobody is let in without a token that the account service confirms, now or
/// lately; and whoever is let in is the owner from then on.
pub proof fn only_confirmed_owners_are_let_in(
    owner: OwnerView,
    headers: Map<Seq<char>, Seq<char>>,
    now: u64,
    asked: CurlOutcome,
    owner_later: OwnerView,
    saved: Result<(), Seq<char>>,
    later: u64,
)
    requires
        authorization(owner, headers, now, asked, owner_later, saved, later).1 is Ok,
    ensures
        ({
            let (next, answer) = authorization(
                owner,
                headers,
                now,
                asked,
                owner_later,
                saved,
                later,
            );
            let identity = answer->Ok_0;
            &&& token_in(headers) is Ok
            &&& owner.cached(token_in(headers)->Ok_0, now) == Some(identity) || validated(asked)
                == Ok::<BindingView, Seq<char>>(identity)
            &&& next.binding matches Some(binding)
            &&& binding.user_id == identity.user_id
            &&& owner_later.binding matches Some(before) ==> before.user_id == identity.user_id
        }),
{
}

/// A request without a usable token, or whose token the account service does
/// not confirm, is answered with 401 and changes nothing.
pub proof fn unconfirmed_users_are_unauthorized(
    owner: OwnerView,
    headers: Map<Seq<char>, Seq<char>>,
    now: u64,
    asked: CurlOutcome,
    owner_later: OwnerView,
    saved: Result<(), Seq<char>>,
    later: u64,
)
    requires
        match token_in(headers) {
            Err(_) => true,
            Ok(token) => owner.cached(token, now) is None && validated(asked) is Err,
        },
    ensures
        ({
            let (next, answer) = authorization(
                owner,
                headers,
                now,
                asked,
                owner_later,
                saved,
                later,
            );
            &&& next == owner_later
            &&& answer matches Err(failure)
            &&& failure.status == 401
        }),
{
}

// ---------------------------------------------------------------------------
// Recording the owner
// ---------------------------------------------------------------------------

/// What the record of an owner holds: the identity and the email address, and
/// nothing else.
pub open spec fn record_tree(owner: BindingView) -> JsonTree {
    JsonTree::Object(
        seq![("email"@, JsonTree::Text(owner.email)), ("user_id"@, JsonTree::Text(owner.user_id))],
    )
}

/// The texts of the record of an owner, in the order in which they are written.
pub open spec fn record_fields(owner: BindingView) -> Seq<(Seq<char>, Seq<char>)> {
    seq![("user_id"@, owner.user_id), ("email"@, owner.email)]
}

/// What is written for an owner holds the identity and the email address.
proof fn record_is_normal(owner: BindingView)
    ensures
        normal(record_object(record_fields(owner))) == record_tree(owner),
        forall|i: int|
            0 <= i < record_fields(owner).len() ==> plain_name(
                (#[trigger] record_fields(owner)[i]).0,
            ),
{
    reveal_strlit("user_id");
    reveal_strlit("email");
    let fields = record_object(record_fields(owner))->Object_0;
    let user = ("user_id"@, JsonTree::Text(owner.user_id));
    let email = ("email"@, JsonTree::Text(owner.email));
    assert(fields =~= seq![user, email]);
    reveal_with_fuel(normal_fields, 2);
    assert(normal(fields[0].1) == user.1 && normal(fields[1].1) == email.1);
    assert(normal_fields(fields, 0) =~= Seq::empty());
    assert(normal_fields(fields, 1) =~= seq![user]);
    assert("email"@[0] == 'e' && "user_id"@[0] == 'u');
    assert(name_less("email"@, "user_id"@));
    assert(put_field(seq![user], email.0, email.1) =~= seq![email, user]);
    assert(normal_fields(fields, 2) =~= seq![email, user]);
}

/// The record of an owner as it is written to its file. Read as JSON, it holds
/// the identity and the email address of the owner, and nothing else.
pub fn owner_record(owner: &OwnerBinding) -> (document: Result<Vec<u8>, String>)
    ensures
        document_view(document) == record_bytes(record_fields(owner@)),
        document matches Ok(bytes) ==> parsed_json(bytes@) == Some(record_tree(owner@)),
{
    let fields: Vec<(String, String)> = vec![
        ("user_id".to_string(), owner.user_id.clone()),
        ("email".to_string(), owner.email.clone()),
    ];
    assert(record_texts(fields@) =~= record_fields(owner@));
    proof {
        record_is_normal(owner@);
    }
    record_to_vec_pretty(&fields)
}

/// The record of an owner names that owner.
pub proof fn record_names_the_owner(owner: BindingView)
    ensures
        record_tree(owner).text_of_field("user_id"@) == Some(owner.user_id),
        record_tree(owner).text_of_field("email"@) == Some(owner.email),
        record_tree(owner)->Object_0.len() == 2,
{
    reveal_strlit("user_id");
    reveal_strlit("email");
    let fields = record_tree(owner)->Object_0;
    assert(fields[0].0.len() == 5 && fields[1].0.len() == 7);
    field_at(fields, 0);
    field_at(fields, 1);
}

/// What is done to record the owner, in order.
#[derive(Clone, Copy, Debug, PartialEq, Eq, Structural)]
pub enum SaveStage {
    /// The directory for the record is found.
    Locate,
    /// The directory is made.
    Prepare,
    /// The record is put into bytes.
    Encode,
    /// The bytes are written to a file of their own.
    Write,
    /// That file takes the place of the record.
    Activate,
}

/// What is said where a stage fails.
pub open spec fn save_failure_text(stage: SaveStage, error: Seq<char>) -> Seq<char> {
    match stage {
        SaveStage::Locate => "Owner configuration path is invalid."@,
        SaveStage::Prepare => "Unable to create connector configuration: "@ + error,
        SaveStage::Encode => error,
        SaveStage::Write => "Unable to save connector owner: "@ + error,
        SaveStage::Activate => "Unable to activate connector owner: "@ + error,
    }
}

/// What is said where a stage fails.
pub fn save_failure(stage: SaveStage, error: &str) -> (message: String)
    ensures
        message@ == save_failure_text(stage, error@),
{
    match stage {
        SaveStage::Locate => "Owner configuration path is invalid.".to_string(),
        SaveStage::Prepare => concat2(
            "Unable to create connector configuration: ",
            error,
        ),
        SaveStage::Encode => error.to_string(),
        SaveStage::Write => concat2("Unable to save connector owner: ", error),
        SaveStage::Activate => concat2("Unable to activate connector owner: ", error),
    }
}

// ---------------------------------------------------------------------------
// Unlinking
// ---------------------------------------------------------------------------

/// Whether the previous user is signed out of Codex, from how the sign-out
/// went: whether the command succeeded and what it printed, or why it could not
/// run. Where there is no Codex to run it, the sign-out was not done either.
pub open spec fn sign_out(
    result: Option<Result<(bool, Seq<char>), Seq<char>>>,
) -> Result<(), Seq<char>> {
    match result {
        None => Err("Codex sign-out failed, so the MarketState user was not unlinked."@),
        Some(Ok((success, detail))) => if success {
            Ok(())
        } else if detail.len() == 0 {
            Err("Codex sign-out failed, so the MarketState user was not unlinked."@)
        } else {
            Err("Codex sign-out failed: "@ + detail)
        },
        Some(Err(error)) => Err("Unable to sign out of Codex: "@ + error),
    }
}

/// The result of a command that may not have been run.
pub open spec fn optional_command_view(
    result: Option<Result<(bool, String), String>>,
) -> Option<Result<(bool, Seq<char>), Seq<char>>> {
    match result {
        Some(result) => Some(command_view(result)),
        None => None,
    }
}

/// Whether the owner may be unlinked once Codex was asked to sign out.
pub fn signed_out_of_codex(sign_out_result: &Option<Result<(bool, String), String>>) -> (may:
    Result<(), String>)
    ensures
        attempt_view(may) == sign_out(optional_command_view(*sign_out_result)),
{
    match sign_out_result {
        None => Err(
            "Codex sign-out failed, so the MarketState user was not unlinked.".to_string(),
        ),
        Some(Ok((success, detail))) => {
            if *success {
                Ok(())
            } else if detail.as_str().is_empty() {
                Err("Codex sign-out failed, so the MarketState user was not unlinked.".to_string())
            } else {
                Err(concat2("Codex sign-out failed: ", detail.as_str()))
            }
        },
        Some(Err(error)) => Err(concat2("Unable to sign out of Codex: ", error.as_str())),
    }
}

/// The owner after an attempt to unlink it, and the answer. The owner stays
/// where Codex was not signed out, or where the record of the owner could not
/// be removed.
pub open spec fn unlinked(
    owner: OwnerView,
    sign_out_result: Option<Result<(bool, Seq<char>), Seq<char>>>,
    removed: Result<(), Seq<char>>,
) -> (OwnerView, Result<(), Seq<char>>) {
    match sign_out(sign_out_result) {
        Err(message) => (owner, Err(message)),
        Ok(_) => match removed {
            Err(error) => (owner, Err("Unable to unlink the MarketState account: "@ + error)),
            Ok(_) => (OwnerView { binding: None, auth_cache: None }, Ok(())),
        },
    }
}

/// Unlinks the owner. `removed` says whether the record of the owner could be
/// removed; it counts only where Codex was signed out.
pub fn unlink_marketstate_user(
    owner: &mut OwnerState,
    sign_out_result: &Option<Result<(bool, String), String>>,
    removed: Result<(), String>,
) -> (result: Result<(), String>)
    ensures
        (final(owner)@, attempt_view(result)) == unlinked(
            old(owner)@,
            optional_command_view(*sign_out_result),
            attempt_view(removed),
        ),
        consistent(old(owner)@) ==> consistent(final(owner)@),
{
    match signed_out_of_codex(sign_out_result) {
        Err(message) => Err(message),
        Ok(_) => match removed {
            Ok(_) => {
                owner.unlink();
                Ok(())
            },
            Err(error) => Err(
                concat2("Unable to unlink the MarketState account: ", error.as_str()),
            ),
        },
    }
}

/// The owner is unlinked only where the previous user is signed out of Codex:
/// the sign-out was run, and it succeeded.
pub proof fn unlinking_signs_out_of_codex(
    owner: OwnerView,
    sign_out_result: Option<Result<(bool, Seq<char>), Seq<char>>>,
    removed: Result<(), Seq<char>>,
)
    requires
        unlinked(owner, sign_out_result, removed).1 is Ok,
    ensures
        sign_out_result matches Some(Ok((success, _))) && success,
{
}

// ---------------------------------------------------------------------------
// Over time
// ---------------------------------------------------------------------------

/// What can happen to the owner.
pub enum OwnerEvent {
    /// A confirmed user asks to be let in.
    Authorize {
        access_token: Seq<char>,
        identity: BindingView,
        saved: Result<(), Seq<char>>,
        now: u64,
    },
    /// The owner is unlinked.
    Unlink,
}

/// The owner after an event.
pub open spec fn owner_after(owner: OwnerView, event: OwnerEvent) -> OwnerView {
    match event {
        OwnerEvent::Authorize { access_token, identity, saved, now } => authorized(
            owner,
            access_token,
            identity,
            saved,
            now,
        ).0,
        OwnerEvent::Unlink => OwnerView { binding: None, auth_cache: None },
    }
}

/// The owner after some events.
pub open spec fn owner_after_all(owner: OwnerView, events: Seq<OwnerEvent>) -> OwnerView
    decreases events.len(),
{
    if events.len() == 0 {
        owner
    } else {
        owner_after(owner_after_all(owner, events.drop_last()), events.last())
    }
}

/// The first confirmed user claims the installation: where nobody owns it and
/// the claim can be recorded, the user is let in and owns it from then on.
pub proof fn first_user_claims(
    owner: OwnerView,
    access_token: Seq<char>,
    identity: BindingView,
    now: u64,
)
    requires
        owner.binding is None,
    ensures
        ({
            let (next, answer) = authorized(owner, access_token, identity, Ok(()), now);
            answer == Ok::<BindingView, FailureView>(identity) && next.binding == Some(identity)
        }),
{
}

/// Once there is an owner, it stays the same whatever users ask, until it is
/// unlinked; and every other user is answered with 403 and changes nothing.
pub proof fn owner_stays_until_unlinked(
    owner: OwnerView,
    events: Seq<OwnerEvent>,
    access_token: Seq<char>,
    identity: BindingView,
    saved: Result<(), Seq<char>>,
    now: u64,
)
    requires
        owner.binding is Some,
        forall|i: int| 0 <= i < events.len() ==> (#[trigger] events[i]) is Authorize,
        identity.user_id != owner.binding->0.user_id,
    ensures
        owner_after_all(owner, events).binding == owner.binding,
        ({
            let later = owner_after_all(owner, events);
            let (next, answer) = authorized(later, access_token, identity, saved, now);
            &&& next == later
            &&& answer matches Err(failure)
            &&& failure.status == 403
        }),
    decreases events.len(),
{
    if events.len() > 0 {
        let front = events.drop_last();
        assert forall|i: int| 0 <= i < front.len() implies (#[trigger] front[i]) is Authorize by {
            assert(front[i] == events[i]);
        }
        owner_stays_until_unlinked(owner, front, access_token, identity, saved, now);
        assert(events[events.len() - 1] is Authorize);
    }
}

/// Whoever was confirmed last is the owner, at all times: it holds when the
/// connector starts, and whatever happens then.
pub proof fn confirmed_user_is_the_owner(binding: Option<BindingView>, events: Seq<OwnerEvent>)
    ensures
        consistent(owner_after_all(OwnerView { binding, auth_cache: None }, events)),
    decreases events.len(),
{
    if events.len() > 0 {
        confirmed_user_is_the_owner(binding, events.drop_last());
    }
}

/// Unlinking lets the next user claim the installation, and no earlier answer
/// of the account service counts any more.
pub proof fn unlinking_frees_the_installation(
    owner: OwnerView,
    access_token: Seq<char>,
    identity: BindingView,
    now: u64,
)
    ensures
        ({
            let free = owner_after(owner, OwnerEvent::Unlink);
            &&& free.cached(access_token, now) is None
            &&& authorized(free, access_token, identity, Ok(()), now).1 == Ok::<
                BindingView,
                FailureView,
            >(identity)
        }),
{
}

/// A user who was let in is recognised again by the same token, without
/// another question to the account service, for as long as that counts and
/// nobody else was let in; and is let in again.
pub proof fn let_in_again(
    owner: OwnerView,
    access_token: Seq<char>,
    identity: BindingView,
    saved: Result<(), Seq<char>>,
    now: u64,
    later: u64,
)
    requires
        authorized(owner, access_token, identity, saved, now).1 is Ok,
        now <= later,
        later - now < AUTH_CACHE_NANOS,
    ensures
        ({
            let next = authorized(owner, access_token, identity, saved, now).0;
            &&& next.cached(access_token, later) == Some(identity)
            &&& authorized(next, access_token, identity, saved, later).1 == Ok::<
                BindingView,
                FailureView,
            >(identity)
        }),
{
}

/// The owner is let in, by whatever token and email address, and is the one who
/// was confirmed last from then on. That there is a record already is not
/// changed by what came of writing one.
pub proof fn owner_is_let_in(
    owner: OwnerView,
    access_token: Seq<char>,
    identity: BindingView,
    saved: Result<(), Seq<char>>,
    now: u64,
)
    requires
        owner.binding is Some,
        owner.binding->0.user_id == identity.user_id,
    ensures
        ({
            let (next, answer) = authorized(owner, access_token, identity, saved, now);
            &&& answer == Ok::<BindingView, FailureView>(identity)
            &&& next.binding == owner.binding
            &&& next.auth_cache matches Some(cached)
            &&& cached.access_token == access_token
            &&& cached.identity == identity
            &&& cached.checked_at == now
        }),
{
}

/// A user whose claim cannot be recorded is told so, and nobody owns the
/// installation then either. One whose claim is recorded is the owner and the
/// one who was confirmed last.
pub proof fn claims_are_settled(
    owner: OwnerView,
    access_token: Seq<char>,
    identity: BindingView,
    saved: Result<(), Seq<char>>,
    now: u64,
)
    requires
        owner.binding is None,
    ensures
        ({
            let (next, answer) = authorized(owner, access_token, identity, saved, now);
            match saved {
                Ok(_) => {
                    &&& answer == Ok::<BindingView, FailureView>(identity)
                    &&& next.binding == Some(identity)
                    &&& next.auth_cache == Some(
                        CachedView { access_token, identity, checked_at: now },
                    )
                },
                Err(message) => {
                    &&& next == owner
                    &&& answer matches Err(failure)
                    &&& failure.status == 500
                    &&& failure.reason == "Internal Server Error"@
                    &&& failure.code == "owner_binding_failed"@
                    &&& failure.message == message
                },
            }
        }),
{
}

/// A user who is not the owner is told whose the installation is: by the email
/// address of the owner, whatever it is, where there is one.
pub proof fn other_users_are_told_the_owner(
    owner: OwnerView,
    access_token: Seq<char>,
    identity: BindingView,
    saved: Result<(), Seq<char>>,
    now: u64,
)
    requires
        owner.binding is Some,
        owner.binding->0.user_id != identity.user_id,
    ensures
        ({
            let (next, answer) = authorized(owner, access_token, identity, saved, now);
            let email = owner.binding->0.email;
            let named = if email.len() > 0 {
                email
            } else {
                "another MarketState user"@
            };
            &&& next == owner
            &&& answer matches Err(failure)
            &&& failure.status == 403
            &&& failure.reason == "Forbidden"@
            &&& failure.code == "connector_owned_by_another_user"@
            &&& failure.message == "This connector belongs to "@ + named
                + ". Open the connector and explicitly unlink that account before changing users."@
        }),
{
}

/// A user is known by the token by which it was confirmed last, for less than
/// thirty seconds, and by no other token and no longer.
pub proof fn memory_lasts_half_a_minute(
    owner: OwnerView,
    cached: CachedView,
    access_token: Seq<char>,
    now: u64,
)
    requires
        owner.auth_cache == Some(cached),
    ensures
        access_token == cached.access_token && now < cached.checked_at + 30_000_000_000
            ==> owner.cached(access_token, now) == Some(cached.identity),
        now >= cached.checked_at + 30_000_000_000 ==> owner.cached(access_token, now) is None,
        access_token != cached.access_token ==> owner.cached(access_token, now) is None,
{
}

/// Nobody is known where nobody was confirmed.
pub proof fn nobody_is_known_unconfirmed(owner: OwnerView, access_token: Seq<char>, now: u64)
    requires
        owner.auth_cache is None,
    ensures
        owner.cached(access_token, now) is None,
{
}

/// The way to settle who asks: a request without a usable token is told to sign
/// in, a user who is known is taken for known, and every other token is asked
/// about.
pub proof fn ways_to_settle_who_asks(
    owner: OwnerView,
    headers: Map<Seq<char>, Seq<char>>,
    now: u64,
)
    ensures
        match token_in(headers) {
            Err(message) => identity_check(owner, headers, now) == IdentityView::Denied(
                FailureView {
                    status: 401,
                    reason: "Unauthorized"@,
                    code: "marketstate_login_required"@,
                    message,
                },
            ),
            Ok(access_token) => match owner.cached(access_token, now) {
                Some(identity) => identity_check(owner, headers, now) == (IdentityView::Known {
                    access_token,
                    identity,
                }),
                None => identity_check(owner, headers, now) == (IdentityView::Ask {
                    access_token,
                }),
            },
        },
{
}

/// Who asks is settled by what is known or by what the account service says, and
/// a token that it does not confirm is answered with its words.
pub proof fn who_asks_is_settled(
    access_token: Seq<char>,
    identity: BindingView,
    failure: FailureView,
    asked: CurlOutcome,
)
    ensures
        confirmed(IdentityView::Denied(failure), asked) == Err::<
            (Seq<char>, BindingView),
            FailureView,
        >(failure),
        confirmed(IdentityView::Known { access_token, identity }, asked) == Ok::<
            (Seq<char>, BindingView),
            FailureView,
        >((access_token, identity)),
        match validated(asked) {
            Ok(user) => confirmed(IdentityView::Ask { access_token }, asked) == Ok::<
                (Seq<char>, BindingView),
                FailureView,
            >((access_token, user)),
            Err(message) => confirmed(IdentityView::Ask { access_token }, asked) == Err::<
                (Seq<char>, BindingView),
                FailureView,
            >(
                FailureView {
                    status: 401,
                    reason: "Unauthorized"@,
                    code: "marketstate_session_invalid"@,
                    message,
                },
            ),
        },
{
}

/// The owner is unlinked where Codex was signed out and the record is gone,
/// whatever Codex printed; otherwise the owner stays, and the user is told what
/// stood in the way, with the words of Codex or of the machine.
pub proof fn unlinking_is_settled(
    owner: OwnerView,
    detail: Seq<char>,
    error: Seq<char>,
    removed: Result<(), Seq<char>>,
)
    ensures
        unlinked(owner, Some(Ok((true, detail))), Ok(())) == (
            OwnerView { binding: None, auth_cache: None },
            Ok::<(), Seq<char>>(()),
        ),
        unlinked(owner, Some(Ok((true, detail))), Err(error)) == (
            owner,
            Err::<(), Seq<char>>("Unable to unlink the MarketState account: "@ + error),
        ),
        detail.len() > 0 ==> unlinked(owner, Some(Ok((false, detail))), removed) == (
            owner,
            Err::<(), Seq<char>>("Codex sign-out failed: "@ + detail),
        ),
        detail.len() == 0 ==> unlinked(owner, Some(Ok((false, detail))), removed) == (
            owner,
            Err::<(), Seq<char>>(
                "Codex sign-out failed, so the MarketState user was not unlinked."@,
            ),
        ),
        unlinked(owner, Some(Err(error)), removed) == (
            owner,
            Err::<(), Seq<char>>("Unable to sign out of Codex: "@ + error),
        ),
        unlinked(owner, None, removed) == (
            owner,
            Err::<(), Seq<char>>(
                "Codex sign-out failed, so the MarketState user was not unlinked."@,
            ),
        ),
{
}

/// What keeps the owner from being recorded is told with the words of the
/// machine, whatever they are.
pub proof fn failures_to_record_are_told(error: Seq<char>)
    ensures
        save_failure_text(SaveStage::Locate, error) == "Owner configuration path is invalid."@,
        save_failure_text(SaveStage::Prepare, error)
            == "Unable to create connector configuration: "@ + error,
        save_failure_text(SaveStage::Encode, error) == error,
        save_failure_text(SaveStage::Write, error) == "Unable to save connector owner: "@ + error,
        save_failure_text(SaveStage::Activate, error) == "Unable to activate connector owner: "@
            + error,
{
}

/// A sign-out counts where Codex succeeded, whatever it printed, and nowhere
/// else; what stood in the way is told.
pub proof fn signing_out_is_settled(detail: Seq<char>, error: Seq<char>)
    ensures
        sign_out(Some(Ok((true, detail)))) is Ok,
        detail.len() > 0 ==> sign_out(Some(Ok((false, detail)))) == Err::<(), Seq<char>>(
            "Codex sign-out failed: "@ + detail,
        ),
        detail.len() == 0 ==> sign_out(Some(Ok((false, detail)))) == Err::<(), Seq<char>>(
            "Codex sign-out failed, so the MarketState user was not unlinked."@,
        ),
        sign_out(Some(Err(error))) == Err::<(), Seq<char>>(
            "Unable to sign out of Codex: "@ + error,
        ),
        sign_out(None) == Err::<(), Seq<char>>(
            "Codex sign-out failed, so the MarketState user was not unlinked."@,
        ),
{
}

/// Every failure carries the words that it was given, whatever they are. A
/// sender who is not known is unauthorized; what the connector itself cannot do
/// is an error of its own.
pub proof fn failures_carry_their_words(message: Seq<char>)
    ensures
        login_required(message).message == message && session_invalid(message).message == message
            && claim_failed(message).message == message,
        login_required(message).status == 401 && session_invalid(message).status == 401,
        login_required(message).reason == "Unauthorized"@ && session_invalid(message).reason
            == "Unauthorized"@,
        login_required(message).code == "marketstate_login_required"@,
        session_invalid(message).code == "marketstate_session_invalid"@,
        claim_failed(message).status == 500 && state_unavailable().status == 500,
        claim_failed(message).reason == "Internal Server Error"@ && state_unavailable().reason
            == "Internal Server Error"@,
        claim_failed(message).code == "owner_binding_failed"@,
        state_unavailable().code == "owner_state_unavailable"@,
        state_unavailable().message == "Connector account state is unavailable."@,
{
}

/// The record of an owner holds both things that are known of it, each under its
/// name, whatever they are.
pub proof fn record_holds_both(owner: BindingView)
    ensures
        record_fields(owner).len() == 2,
        record_fields(owner)[0] == ("user_id"@, owner.user_id),
        record_fields(owner)[1] == ("email"@, owner.email),
{
}

} // verus!
