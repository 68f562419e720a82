//! What is done with a request that has arrived: whether it is listened to,
//! whether its sender must be known, and what is answered.

use crate::access::{
    allowed_origin, approved_origin, approved_origins_are_plain, loopback_host, valid_host,
};
use crate::account::{optional_binding, BindingView, OwnerBinding};
use crate::chat::{answer_by_name, run_answer, ChatView, RunView};
use crate::codec::{json_bytes, normal, parse_json, parsed_json};
use crate::json::{
    field_at, field_trees, missing_field, no_fields, object, push_field, text_value, Json, JsonTree,
};
use crate::owner::{
    answer_view, authorized, owner_state_unavailable, state_unavailable, AuthFailure, FailureView,
    OwnerView,
};
use crate::request::{get_header, header, HttpRequest, RequestView};
use crate::response::{
    body_of, json_response, one_line, text_response, HttpResponse, ResponseView,
};
use crate::text::{control, optional_text, same_text, trimmed};
use vstd::prelude::*;

verus! {

// ---------------------------------------------------------------------------
// Answers
// ---------------------------------------------------------------------------

/// An object that holds an error.
pub open spec fn error_tree(error: Seq<char>) -> JsonTree {
    JsonTree::Object(seq![("error"@, JsonTree::Text(error))])
}

/// An object that holds an error.
fn error_value(error: &str) -> (json: Json)
    ensures
        json.tree() == error_tree(error@),
{
    let mut fields = no_fields();
    push_field(&mut fields, "error", text_value(error));
    assert(field_trees(fields@) =~= error_tree(error@)->Object_0);
    object(fields)
}

/// The answer where no request could be read.
pub open spec fn unreadable_answer(error: Seq<char>) -> ResponseView {
    json_response(400, "Bad Request"@, error_tree(error), None)
}

/// The answer where no request could be read.
pub fn unreadable_response(error: &str) -> (response: HttpResponse)
    ensures
        response@ == unreadable_answer(error@),
        response@ == json_response(400, "Bad Request"@, error_tree(error@), None),
{
    HttpResponse::json(400, "Bad Request", &error_value(error), None)
}

/// What a request is told that is not let in.
pub open spec fn failure_tree(failure: FailureView) -> JsonTree {
    JsonTree::Object(
        seq![
            ("ok"@, JsonTree::Bool(false)),
            ("code"@, JsonTree::Text(failure.code)),
            ("error"@, JsonTree::Text(failure.message)),
        ],
    )
}

/// The answer to a request that is not let in.
pub open spec fn denied(failure: FailureView, origin: Option<Seq<char>>) -> ResponseView {
    json_response(failure.status, failure.reason, failure_tree(failure), origin)
}

/// The answer to a request that is not let in.
fn denied_response(failure: &AuthFailure, origin: Option<String>) -> (response: HttpResponse)
    ensures
        response@ == denied(failure@, optional_text(origin)),
{
    let mut fields = no_fields();
    push_field(&mut fields, "ok", Json::Bool(false));
    push_field(&mut fields, "code", text_value(failure.code));
    push_field(&mut fields, "error", text_value(failure.message.as_str()));
    assert(field_trees(fields@) =~= failure_tree(failure@)->Object_0);
    HttpResponse::json(failure.status, failure.reason, &object(fields), origin)
}

// ---------------------------------------------------------------------------
// Who is listened to
// ---------------------------------------------------------------------------

/// The requests whose sender must be known.
pub open spec fn protected(method: Seq<char>, path: Seq<char>) -> bool {
    (path == "/health"@ || path == "/chat"@ || path == "/cancel"@) && method != "OPTIONS"@
}

/// A request that is listened to.
pub struct AdmittedView {
    pub origin: Option<Seq<char>>,
    pub requires_user: bool,
}

/// A request that is listened to.
#[derive(Debug)]
pub struct Admitted {
    /// The web origin that may read the answer.
    origin: Option<String>,
    /// Whether the sender must be known.
    requires_user: bool,
}

impl View for Admitted {
    type V = AdmittedView;

    closed spec fn view(&self) -> AdmittedView {
        AdmittedView { origin: optional_text(self.origin), requires_user: self.requires_user }
    }
}

impl Admitted {
    /// Whether the sender must be known.
    pub fn requires_user(&self) -> (required: bool)
        ensures
            required == self@.requires_user,
    {
        self.requires_user
    }
}

/// Whether a request is listened to, or what it is answered.
pub open spec fn admission(request: RequestView) -> Result<AdmittedView, ResponseView> {
    let requires_user = protected(request.method, request.path);
    let host = header(request.headers, "host"@);
    if !(host is Some && loopback_host(host->0)) {
        Err(json_response(403, "Forbidden"@, error_tree("Invalid loopback host."@), None))
    } else {
        match header(request.headers, "origin"@) {
            None => Ok(AdmittedView { origin: None, requires_user }),
            Some(origin) => if approved_origin(trimmed(origin)) {
                Ok(AdmittedView { origin: Some(trimmed(origin)), requires_user })
            } else {
                Err(json_response(403, "Forbidden"@, error_tree("Origin is not allowed."@), None))
            },
        }
    }
}

/// An admission as a reader of texts sees it.
pub open spec fn admission_view(
    admission: Result<Admitted, HttpResponse>,
) -> Result<AdmittedView, ResponseView> {
    match admission {
        Ok(admitted) => Ok(admitted@),
        Err(response) => Err(response@),
    }
}

/// Whether the sender of a request must be known.
pub fn requires_user(method: &str, path: &str) -> (required: bool)
    ensures
        required == protected(method@, path@),
{
    (same_text(path, "/health") || same_text(path, "/chat") || same_text(path, "/cancel"))
        && !same_text(method, "OPTIONS")
}

/// Whether a request is listened to, or what it is answered.
pub fn check_access(request: &HttpRequest) -> (admitted: Result<Admitted, HttpResponse>)
    ensures
        admission_view(admitted) == admission(request@),
{
    if !valid_host(get_header(&request.headers, "host")) {
        return Err(
            HttpResponse::json(403, "Forbidden", &error_value("Invalid loopback host."), None),
        );
    }
    let given = get_header(&request.headers, "origin");
    let origin = allowed_origin(given);
    if given.is_some() && origin.is_none() {
        return Err(
            HttpResponse::json(403, "Forbidden", &error_value("Origin is not allowed."), None),
        );
    }
    let requires_user = requires_user(request.method.as_str(), request.path.as_str());
    Ok(Admitted { origin, requires_user })
}

// ---------------------------------------------------------------------------
// What is to be done
// ---------------------------------------------------------------------------

/// What is to be done for a request.
pub enum DispatchView {
    Answer(ResponseView),
    Health { origin: Option<Seq<char>>, user: Option<BindingView> },
    Cancel { origin: Option<Seq<char>>, request_id: Seq<char> },
    Chat { origin: Option<Seq<char>>, payload: JsonTree },
}

/// What is to be done for a request.
#[derive(Debug)]
pub enum Dispatch {
    /// Answer.
    Answer(HttpResponse),
    /// Find out how the connector does, for [`health_response`].
    Health { origin: Option<String>, user: Option<OwnerBinding> },
    /// Cancel a request, for [`cancel_response`].
    Cancel { origin: Option<String>, request_id: String },
    /// Run Codex, for [`chat_response`].
    Chat { origin: Option<String>, payload: Json },
}

impl View for Dispatch {
    type V = DispatchView;

    open spec fn view(&self) -> DispatchView {
        match *self {
            Dispatch::Answer(response) => DispatchView::Answer(response@),
            Dispatch::Health { origin, user } => DispatchView::Health {
                origin: optional_text(origin),
                user: optional_binding(user),
            },
            Dispatch::Cancel { origin, request_id } => DispatchView::Cancel {
                origin: optional_text(origin),
                request_id: request_id@,
            },
            Dispatch::Chat { origin, payload } => DispatchView::Chat {
                origin: optional_text(origin),
                payload: payload.tree(),
            },
        }
    }
}

/// The request that a body names to be cancelled; no name where it names none.
pub open spec fn cancel_target(document: Option<JsonTree>) -> Seq<char> {
    match document {
        Some(payload) => match payload.text_of_field("request_id"@) {
            Some(request_id) => request_id,
            None => Seq::empty(),
        },
        None => Seq::empty(),
    }
}

/// What is to be done for a request that is let in, by its method and path and
/// the document in its body.
pub open spec fn routed(
    method: Seq<char>,
    path: Seq<char>,
    document: Option<JsonTree>,
    origin: Option<Seq<char>>,
    user: Option<BindingView>,
) -> DispatchView {
    if method == "OPTIONS"@ {
        DispatchView::Answer(
            ResponseView {
                status: 204,
                reason: "No Content"@,
                content_type: "text/plain; charset=utf-8"@,
                body: Seq::empty(),
                origin,
            },
        )
    } else if method == "GET"@ && path == "/"@ {
        DispatchView::Answer(
            text_response(200, "OK"@, "MarketState Codex Connector is running.\n"@, origin),
        )
    } else if method == "GET"@ && path == "/health"@ {
        DispatchView::Health { origin, user }
    } else if method == "POST"@ && path == "/cancel"@ {
        DispatchView::Cancel { origin, request_id: cancel_target(document) }
    } else if method == "POST"@ && path == "/chat"@ {
        match document {
            Some(payload) => DispatchView::Chat { origin, payload },
            None => DispatchView::Answer(
                json_response(400, "Bad Request"@, error_tree("Invalid JSON body."@), origin),
            ),
        }
    } else {
        DispatchView::Answer(
            json_response(404, "Not Found"@, error_tree("Not found."@), origin),
        )
    }
}

/// What is to be done for a request that is listened to. `answer` is what came
/// of the question who asks; it counts only where that must be known.
pub open spec fn dispatched(
    request: RequestView,
    admitted: AdmittedView,
    answer: Option<Result<BindingView, FailureView>>,
) -> DispatchView {
    let document = parsed_json(request.body);
    if admitted.requires_user {
        match answer {
            Some(Ok(identity)) => routed(
                request.method,
                request.path,
                document,
                admitted.origin,
                Some(identity),
            ),
            Some(Err(failure)) => DispatchView::Answer(denied(failure, admitted.origin)),
            None => DispatchView::Answer(
                denied(state_unavailable(), admitted.origin),
            ),
        }
    } else {
        routed(request.method, request.path, document, admitted.origin, None)
    }
}

/// An answer that may not have been asked for, as a reader of texts sees it.
pub open spec fn optional_answer(
    answer: Option<Result<OwnerBinding, AuthFailure>>,
) -> Option<Result<BindingView, FailureView>> {
    match answer {
        Some(answer) => Some(answer_view(answer)),
        None => None,
    }
}

/// What is to be done for a request that is let in.
pub fn route(
    method: &str,
    path: &str,
    document: Option<Json>,
    origin: Option<String>,
    user: Option<OwnerBinding>,
) -> (dispatch: Dispatch)
    ensures
        dispatch@ == routed(
            method@,
            path@,
            match document {
                Some(payload) => Some(payload.tree()),
                None => None,
            },
            optional_text(origin),
            optional_binding(user),
        ),
{
    if same_text(method, "OPTIONS") {
        Dispatch::Answer(HttpResponse::empty(204, "No Content", origin))
    } else if same_text(method, "GET") && same_text(path, "/") {
        Dispatch::Answer(
            HttpResponse::text(200, "OK", "MarketState Codex Connector is running.\n", origin),
        )
    } else if same_text(method, "GET") && same_text(path, "/health") {
        Dispatch::Health { origin, user }
    } else if same_text(method, "POST") && same_text(path, "/cancel") {
        let request_id = match &document {
            Some(payload) => match payload.text_in("request_id") {
                Some(request_id) => request_id.to_string(),
                None => String::new(),
            },
            None => String::new(),
        };
        assert(request_id@ =~= cancel_target(
            match document {
                Some(payload) => Some(payload.tree()),
                None => None,
            },
        ));
        Dispatch::Cancel { origin, request_id }
    } else if same_text(method, "POST") && same_text(path, "/chat") {
        match document {
            Some(payload) => Dispatch::Chat { origin, payload },
            None => Dispatch::Answer(
                HttpResponse::json(400, "Bad Request", &error_value("Invalid JSON body."), origin),
            ),
        }
    } else {
        Dispatch::Answer(HttpResponse::json(404, "Not Found", &error_value("Not found."), origin))
    }
}

/// What is to be done for a request that is listened to.
fn dispatch(
    request: &HttpRequest,
    admitted: Admitted,
    answer: Option<Result<OwnerBinding, AuthFailure>>,
) -> (dispatch: Dispatch)
    ensures
        dispatch@ == dispatched(request@, admitted@, optional_answer(answer)),
{
    let document = parse_json(request.body.as_slice());
    let method = request.method.as_str();
    let path = request.path.as_str();
    if admitted.requires_user {
        match answer {
            Some(Ok(identity)) => route(method, path, document, admitted.origin, Some(identity)),
            Some(Err(failure)) => Dispatch::Answer(denied_response(&failure, admitted.origin)),
            None => {
                let failure = owner_state_unavailable();
                Dispatch::Answer(denied_response(&failure, admitted.origin))
            },
        }
    } else {
        route(method, path, document, admitted.origin, None)
    }
}

/// What is to be done for a request.
pub open spec fn served(
    request: RequestView,
    answer: Option<Result<BindingView, FailureView>>,
) -> DispatchView {
    match admission(request) {
        Err(response) => DispatchView::Answer(response),
        Ok(admitted) => dispatched(request, admitted, answer),
    }
}

/// What is to be done for a request. `answer` is what came of the question who
/// asks; it counts only where [`check_access`] says that the sender must be
/// known, and where it is then missing the request is turned away.
pub fn handle_http_connection(
    request: &HttpRequest,
    answer: Option<Result<OwnerBinding, AuthFailure>>,
) -> (serving: Dispatch)
    ensures
        serving@ == served(request@, optional_answer(answer)),
{
    match check_access(request) {
        Err(response) => Dispatch::Answer(response),
        Ok(admitted) => dispatch(request, admitted, answer),
    }
}

// ---------------------------------------------------------------------------
// The answers to what was done
// ---------------------------------------------------------------------------

/// How the connector does.
pub struct HealthView {
    pub authenticated: bool,
    pub auth_status: Seq<char>,
    pub codex_bin: Seq<char>,
    pub codex_version: Seq<char>,
    pub workspace_root: Seq<char>,
    pub active_requests: usize,
}

/// How the connector does.
#[derive(Debug)]
pub struct HealthReport {
    /// Whether the user of Codex is signed in.
    pub authenticated: bool,
    pub auth_status: String,
    pub codex_bin: String,
    pub codex_version: String,
    pub workspace_root: String,
    /// How many requests run.
    pub active_requests: usize,
}

impl View for HealthReport {
    type V = HealthView;

    open spec fn view(&self) -> HealthView {
        HealthView {
            authenticated: self.authenticated,
            auth_status: self.auth_status@,
            codex_bin: self.codex_bin@,
            codex_version: self.codex_version@,
            workspace_root: self.workspace_root@,
            active_requests: self.active_requests,
        }
    }
}

/// What a user is in an answer.
pub open spec fn user_tree(user: Option<BindingView>) -> JsonTree {
    match user {
        Some(user) => JsonTree::Object(
            seq![("user_id"@, JsonTree::Text(user.user_id)), ("email"@, JsonTree::Text(user.email))],
        ),
        None => JsonTree::Null,
    }
}

/// What is answered to the question how the connector does.
pub open spec fn health_tree(report: HealthView, user: Option<BindingView>) -> JsonTree {
    JsonTree::Object(
        seq![
            ("ok"@, JsonTree::Bool(true)),
            ("authenticated"@, JsonTree::Bool(report.authenticated)),
            ("auth_status"@, JsonTree::Text(report.auth_status)),
            ("codex_bin"@, JsonTree::Text(report.codex_bin)),
            ("codex_version"@, JsonTree::Text(report.codex_version)),
            ("workspace_root"@, JsonTree::Text(report.workspace_root)),
            ("auth_required"@, JsonTree::Bool(true)),
            ("marketstate_user"@, user_tree(user)),
            ("active_requests"@, JsonTree::Unsigned(report.active_requests as u64)),
            ("managed_by"@, JsonTree::Text("marketstate-codex-connector"@)),
        ],
    )
}

/// What a user is in an answer.
fn user_value(user: &Option<OwnerBinding>) -> (json: Json)
    ensures
        json.tree() == user_tree(optional_binding(*user)),
{
    match user {
        Some(user) => {
            let mut fields = no_fields();
            push_field(&mut fields, "user_id", text_value(user.user_id.as_str()));
            push_field(&mut fields, "email", text_value(user.email.as_str()));
            assert(field_trees(fields@) =~= user_tree(Some(user@))->Object_0);
            object(fields)
        },
        None => Json::Null,
    }
}

/// What the sender of a question about the health of the connector gets.
pub open spec fn health_answer(
    report: HealthView,
    user: Option<BindingView>,
    origin: Option<Seq<char>>,
) -> ResponseView {
    json_response(200, "OK"@, health_tree(report, user), origin)
}

/// The answer to the question how the connector does.
pub fn health_response(
    report: &HealthReport,
    user: &Option<OwnerBinding>,
    origin: Option<String>,
) -> (response: HttpResponse)
    ensures
        response@ == health_answer(report@, optional_binding(*user), optional_text(origin)),
        response@ == json_response(
            200,
            "OK"@,
            health_tree(report@, optional_binding(*user)),
            optional_text(origin),
        ),
{
    let mut fields = no_fields();
    push_field(&mut fields, "ok", Json::Bool(true));
    push_field(&mut fields, "authenticated", Json::Bool(report.authenticated));
    push_field(&mut fields, "auth_status", text_value(report.auth_status.as_str()));
    push_field(&mut fields, "codex_bin", text_value(report.codex_bin.as_str()));
    push_field(&mut fields, "codex_version", text_value(report.codex_version.as_str()));
    push_field(&mut fields, "workspace_root", text_value(report.workspace_root.as_str()));
    push_field(&mut fields, "auth_required", Json::Bool(true));
    push_field(&mut fields, "marketstate_user", user_value(user));
    push_field(&mut fields, "active_requests", Json::Unsigned(report.active_requests as u64));
    push_field(&mut fields, "managed_by", text_value("marketstate-codex-connector"));
    assert(field_trees(fields@) =~= health_tree(
        report@,
        optional_binding(*user),
    )->Object_0);
    HttpResponse::json(200, "OK", &object(fields), origin)
}

/// What is answered to the wish to cancel a request.
pub open spec fn cancel_tree(request_id: Seq<char>, cancelled: bool) -> JsonTree {
    JsonTree::Object(
        seq![
            ("ok"@, JsonTree::Bool(cancelled)),
            ("request_id"@, JsonTree::Text(request_id)),
            ("cancelled"@, JsonTree::Bool(cancelled)),
        ] + if cancelled {
            Seq::empty()
        } else {
            seq![("error"@, JsonTree::Text("No active request has that request_id."@))]
        },
    )
}

/// The answer to the wish to cancel a request: whether one was found.
pub open spec fn cancel_answer(
    request_id: Seq<char>,
    cancelled: bool,
    origin: Option<Seq<char>>,
) -> ResponseView {
    if cancelled {
        json_response(200, "OK"@, cancel_tree(request_id, true), origin)
    } else {
        json_response(404, "Not Found"@, cancel_tree(request_id, false), origin)
    }
}

/// The answer to the wish to cancel a request.
pub fn cancel_response(request_id: &str, cancelled: bool, origin: Option<String>) -> (response:
    HttpResponse)
    ensures
        response@ == cancel_answer(request_id@, cancelled, optional_text(origin)),
        response@ == if cancelled {
            json_response(200, "OK"@, cancel_tree(request_id@, true), optional_text(origin))
        } else {
            json_response(404, "Not Found"@, cancel_tree(request_id@, false), optional_text(origin))
        },
{
    let mut fields = no_fields();
    push_field(&mut fields, "ok", Json::Bool(cancelled));
    push_field(&mut fields, "request_id", text_value(request_id));
    push_field(&mut fields, "cancelled", Json::Bool(cancelled));
    if !cancelled {
        push_field(&mut fields, "error", text_value("No active request has that request_id."));
    }
    assert(field_trees(fields@) =~= cancel_tree(request_id@, cancelled)->Object_0);
    if cancelled {
        HttpResponse::json(200, "OK", &object(fields), origin)
    } else {
        HttpResponse::json(404, "Not Found", &object(fields), origin)
    }
}

/// The answer to a request to Codex: what came of the run, or why there was
/// none.
pub open spec fn chat_answer(
    result: Result<JsonTree, Seq<char>>,
    origin: Option<Seq<char>>,
) -> ResponseView {
    match result {
        Ok(given) => if given.flag("ok"@) {
            json_response(200, "OK"@, given, origin)
        } else {
            json_response(502, "Bad Gateway"@, given, origin)
        },
        Err(error) => json_response(400, "Bad Request"@, error_tree(error), origin),
    }
}

/// The answer to a request to Codex: what came of the run, or why there was
/// none.
pub fn chat_response(result: &Result<Json, String>, origin: Option<String>) -> (response:
    HttpResponse)
    ensures
        response@ == chat_answer(
            match *result {
                Ok(given) => Ok(given.tree()),
                Err(error) => Err(error@),
            },
            optional_text(origin),
        ),
{
    match result {
        Ok(given) => {
            if given.flag("ok") {
                HttpResponse::json(200, "OK", given, origin)
            } else {
                HttpResponse::json(502, "Bad Gateway", given, origin)
            }
        },
        Err(error) => {
            HttpResponse::json(400, "Bad Request", &error_value(error.as_str()), origin)
        },
    }
}

// ---------------------------------------------------------------------------
// What holds of every request
// ---------------------------------------------------------------------------

/// Every protected request is authenticated: nothing is told of the connector,
/// no request is cancelled and Codex is not run unless the sender was
/// confirmed and let in.
pub proof fn protected_requests_are_authenticated(
    request: RequestView,
    answer: Option<Result<BindingView, FailureView>>,
)
    requires
        !(served(request, answer) is Answer),
    ensures
        protected(request.method, request.path),
        answer matches Some(Ok(_)),
{
    reveal_strlit("OPTIONS");
    reveal_strlit("GET");
    reveal_strlit("POST");
}

/// A request that is listened to but whose sender is not let in is answered
/// with the reason, whatever else it says.
pub proof fn denied_sender_is_told_why(request: RequestView, failure: FailureView)
    requires
        admission(request) is Ok,
        protected(request.method, request.path),
    ensures
        served(request, Some(Err(failure))) == DispatchView::Answer(
            denied(failure, admission(request)->Ok_0.origin),
        ),
{
}

/// A request for another host than the connector, or from a web origin that it
/// does not know, is refused before anything else, and the refusal is for no
/// web origin to read.
pub proof fn strangers_are_refused(
    request: RequestView,
    answer: Option<Result<BindingView, FailureView>>,
)
    requires
        ({
            let host = header(request.headers, "host"@);
            let origin = header(request.headers, "origin"@);
            ||| host is None
            ||| !loopback_host(host->0)
            ||| origin is Some && !approved_origin(trimmed(origin->0))
        }),
    ensures
        served(request, answer) matches DispatchView::Answer(response) && response.status == 403
            && response.origin is None,
{
}

/// Only web origins that the connector knows are ever allowed to read an
/// answer.
pub proof fn only_known_origins_read_answers(
    request: RequestView,
    answer: Option<Result<BindingView, FailureView>>,
)
    ensures
        ({
            let origin = match served(request, answer) {
                DispatchView::Answer(response) => response.origin,
                DispatchView::Health { origin, .. } => origin,
                DispatchView::Cancel { origin, .. } => origin,
                DispatchView::Chat { origin, .. } => origin,
            };
            origin matches Some(origin) ==> approved_origin(origin)
        }),
{
}

/// The user who is named in an answer is the one who was confirmed, whatever
/// the request says.
pub proof fn named_user_is_the_confirmed_one(request: RequestView, identity: BindingView)
    requires
        served(request, Some(Ok(identity))) is Health,
    ensures
        served(request, Some(Ok(identity)))->Health_user == Some(identity),
{
    protected_requests_are_authenticated(request, Some(Ok(identity)));
}

/// Every answer stays within its lines: the origin that it names has no
/// control characters.
pub proof fn named_origins_stay_on_their_line(
    request: RequestView,
    answer: Option<Result<BindingView, FailureView>>,
)
    ensures
        served(request, answer) matches DispatchView::Answer(response) ==> (response.origin matches
            Some(origin) ==> one_line(origin)),
{
    only_known_origins_read_answers(request, answer);
    if let DispatchView::Answer(response) = served(request, answer) {
        if let Some(origin) = response.origin {
            approved_origins_are_plain(origin);
            assert forall|i: int| 0 <= i < origin.len() implies (#[trigger] origin[i]) != '\r'
                && origin[i] != '\n' by {
                assert(!control(origin[i]));
            }
        }
    }
}

/// The status of the answer tells how the run went: 200 for a good one, 502 for
/// every other.
pub proof fn status_tells_how_the_run_went(
    request: ChatView,
    run: RunView,
    origin: Option<Seq<char>>,
)
    ensures
        chat_answer(Ok(run_answer(request, run)), origin).status == if run.ok() {
            200u16
        } else {
            502u16
        },
        chat_answer(Ok(run_answer(request, run)), origin).status == if run.success
            && !run.timed_out && !run.cancelled {
            200u16
        } else {
            502u16
        },
{
    answer_by_name(request, run);
}

/// A confirmed user who is not the owner is answered with 403 on every
/// protected request that is listened to.
pub proof fn other_users_receive_forbidden(
    owner: OwnerView,
    request: RequestView,
    access_token: Seq<char>,
    identity: BindingView,
    saved: Result<(), Seq<char>>,
    now: u64,
)
    requires
        admission(request) is Ok,
        protected(request.method, request.path),
        owner.binding is Some,
        owner.binding->0.user_id != identity.user_id,
    ensures
        served(request, Some(authorized(owner, access_token, identity, saved, now).1)) matches
            DispatchView::Answer(response) && response.status == 403,
{
}

/// Every request for the connector is listened to that comes from no web origin
/// or from one that is known, which may then read the answer. The sender must be
/// known on three paths, unless the browser only asks what is allowed.
pub proof fn requests_for_the_connector_are_listened_to(request: RequestView)
    requires
        request.headers.dom().contains("host"@),
        loopback_host(request.headers["host"@]),
    ensures
        ({
            let path = request.path;
            let guarded = (path == "/health"@ || path == "/chat"@ || path == "/cancel"@)
                && request.method != "OPTIONS"@;
            &&& !request.headers.dom().contains("origin"@) ==> admission(request) == Ok::<
                AdmittedView,
                ResponseView,
            >(AdmittedView { origin: None, requires_user: guarded })
            &&& request.headers.dom().contains("origin"@) && approved_origin(
                trimmed(request.headers["origin"@]),
            ) ==> admission(request) == Ok::<AdmittedView, ResponseView>(
                AdmittedView {
                    origin: Some(trimmed(request.headers["origin"@])),
                    requires_user: guarded,
                },
            )
        }),
{
}

/// A request that is not listened to is told which of the two is wrong.
pub proof fn refused_requests_are_told(request: RequestView)
    ensures
        !request.headers.dom().contains("host"@) || !loopback_host(request.headers["host"@])
            ==> admission(request) == Err::<AdmittedView, ResponseView>(
            json_response(
                403,
                "Forbidden"@,
                JsonTree::Object(seq![("error"@, JsonTree::Text("Invalid loopback host."@))]),
                None,
            ),
        ),
        request.headers.dom().contains("host"@) && loopback_host(request.headers["host"@])
            && request.headers.dom().contains("origin"@) && !approved_origin(
            trimmed(request.headers["origin"@]),
        ) ==> admission(request) == Err::<AdmittedView, ResponseView>(
            json_response(
                403,
                "Forbidden"@,
                JsonTree::Object(seq![("error"@, JsonTree::Text("Origin is not allowed."@))]),
                None,
            ),
        ),
{
}

/// Each request gets what its method and path ask for, whatever document, origin
/// and user come with it.
pub proof fn requests_reach_their_aim(
    path: Seq<char>,
    document: Option<JsonTree>,
    origin: Option<Seq<char>>,
    user: Option<BindingView>,
)
    ensures
        routed("OPTIONS"@, path, document, origin, user) matches DispatchView::Answer(response)
            && response.status == 204 && response.reason == "No Content"@ && response.body
            == Seq::<u8>::empty() && response.origin == origin,
        routed("GET"@, "/"@, document, origin, user) == DispatchView::Answer(
            text_response(200, "OK"@, "MarketState Codex Connector is running.\n"@, origin),
        ),
        routed("GET"@, "/health"@, document, origin, user) == (DispatchView::Health {
            origin,
            user,
        }),
        routed("POST"@, "/cancel"@, document, origin, user) matches DispatchView::Cancel {
            origin: o,
            request_id,
        } && o == origin && request_id == match document {
            Some(payload) => match payload.text_of_field("request_id"@) {
                Some(request_id) => request_id,
                None => Seq::<char>::empty(),
            },
            None => Seq::<char>::empty(),
        },
        document matches Some(payload) ==> routed("POST"@, "/chat"@, document, origin, user) == (
        DispatchView::Chat { origin, payload }),
        document is None ==> routed("POST"@, "/chat"@, document, origin, user)
            == DispatchView::Answer(
            json_response(
                400,
                "Bad Request"@,
                JsonTree::Object(seq![("error"@, JsonTree::Text("Invalid JSON body."@))]),
                origin,
            ),
        ),
{
    reveal_strlit("OPTIONS");
    reveal_strlit("GET");
    reveal_strlit("POST");
    reveal_strlit("/");
    reveal_strlit("/health");
    reveal_strlit("/cancel");
    reveal_strlit("/chat");
    assert("OPTIONS"@.len() == 7 && "GET"@.len() == 3 && "POST"@.len() == 4);
    assert("/"@.len() == 1 && "/health"@.len() == 7 && "/cancel"@.len() == 7);
    assert("/chat"@.len() == 5);
}

/// Every other request is answered with 404.
pub proof fn other_requests_find_nothing(
    method: Seq<char>,
    path: Seq<char>,
    document: Option<JsonTree>,
    origin: Option<Seq<char>>,
    user: Option<BindingView>,
)
    requires
        method != "OPTIONS"@,
        !(method == "GET"@ && (path == "/"@ || path == "/health"@)),
        !(method == "POST"@ && (path == "/cancel"@ || path == "/chat"@)),
    ensures
        routed(method, path, document, origin, user) == DispatchView::Answer(
            json_response(
                404,
                "Not Found"@,
                JsonTree::Object(seq![("error"@, JsonTree::Text("Not found."@))]),
                origin,
            ),
        ),
{
}

/// A request that is let in is served with the document in its body and, where
/// the sender must be known, for the user who was confirmed.
pub proof fn admitted_requests_are_served(request: RequestView, identity: BindingView)
    requires
        admission(request) is Ok,
    ensures
        ({
            let origin = admission(request)->Ok_0.origin;
            let document = parsed_json(request.body);
            &&& protected(request.method, request.path) ==> served(request, Some(Ok(identity)))
                == routed(request.method, request.path, document, origin, Some(identity))
            &&& !protected(request.method, request.path) ==> served(request, None) == routed(
                request.method,
                request.path,
                document,
                origin,
                None,
            )
        }),
{
}

/// Whoever is not let in is told why, by code and in words, whatever these are.
pub proof fn denials_say_why(failure: FailureView, origin: Option<Seq<char>>)
    ensures
        denied(failure, origin) == json_response(
            failure.status,
            failure.reason,
            failure_tree(failure),
            origin,
        ),
        failure_tree(failure).bool_of_field("ok"@) == Some(false),
        failure_tree(failure).text_of_field("code"@) == Some(failure.code),
        failure_tree(failure).text_of_field("error"@) == Some(failure.message),
{
    reveal_strlit("ok");
    reveal_strlit("code");
    reveal_strlit("error");
    let fields = failure_tree(failure)->Object_0;
    assert(fields[0].0.len() == 2 && fields[1].0.len() == 4 && fields[2].0.len() == 5);
    field_at(fields, 0);
    field_at(fields, 1);
    field_at(fields, 2);
}

/// The answer about the health of the connector says what was found out, under
/// these names, and names the user.
pub proof fn health_by_name(report: HealthView, user: BindingView)
    ensures
        ({
            let told = health_tree(report, Some(user));
            &&& told.bool_of_field("ok"@) == Some(true)
            &&& told.bool_of_field("authenticated"@) == Some(report.authenticated)
            &&& told.text_of_field("auth_status"@) == Some(report.auth_status)
            &&& told.text_of_field("codex_bin"@) == Some(report.codex_bin)
            &&& told.text_of_field("codex_version"@) == Some(report.codex_version)
            &&& told.text_of_field("workspace_root"@) == Some(report.workspace_root)
            &&& told.bool_of_field("auth_required"@) == Some(true)
            &&& told.unsigned_of_field("active_requests"@) == Some(report.active_requests as u64)
            &&& told.text_of_field("managed_by"@) == Some("marketstate-codex-connector"@)
            &&& told.field("marketstate_user"@) matches Some(named)
            &&& named.text_of_field("user_id"@) == Some(user.user_id)
            &&& named.text_of_field("email"@) == Some(user.email)
        }),
        health_tree(report, None).field("marketstate_user"@) == Some(JsonTree::Null),
{
    reveal_strlit("ok");
    reveal_strlit("authenticated");
    reveal_strlit("auth_status");
    reveal_strlit("codex_bin");
    reveal_strlit("codex_version");
    reveal_strlit("workspace_root");
    reveal_strlit("auth_required");
    reveal_strlit("marketstate_user");
    reveal_strlit("active_requests");
    reveal_strlit("managed_by");
    reveal_strlit("user_id");
    reveal_strlit("email");
    let named = user_tree(Some(user))->Object_0;
    assert(named[0].0.len() == 7 && named[1].0.len() == 5);
    field_at(named, 0);
    field_at(named, 1);
    health_names_differ(report, Some(user));
    health_names_differ(report, None);
    let fields = health_tree(report, Some(user))->Object_0;
    field_at(fields, 0);
    field_at(fields, 1);
    field_at(fields, 2);
    field_at(fields, 3);
    field_at(fields, 4);
    field_at(fields, 5);
    field_at(fields, 6);
    field_at(fields, 7);
    field_at(fields, 8);
    field_at(fields, 9);
    field_at(health_tree(report, None)->Object_0, 7);
}

/// No field of that answer has the name of another.
proof fn health_names_differ(report: HealthView, user: Option<BindingView>)
    ensures
        ({
            let fields = health_tree(report, user)->Object_0;
            forall|i: int, j: int|
                0 <= i < j < fields.len() ==> (#[trigger] fields[i]).0 != (#[trigger] fields[j]).0
        }),
{
    reveal_strlit("ok");
    reveal_strlit("authenticated");
    reveal_strlit("auth_status");
    reveal_strlit("codex_bin");
    reveal_strlit("codex_version");
    reveal_strlit("workspace_root");
    reveal_strlit("auth_required");
    reveal_strlit("marketstate_user");
    reveal_strlit("active_requests");
    reveal_strlit("managed_by");
    let fields = health_tree(report, user)->Object_0;
    assert("authenticated"@[4] == 'e' && "codex_version"@[4] == 'x' && "auth_required"@[4] == '_');
    assert(fields.len() == 10);
    assert(fields[0].0.len() == 2 && fields[1].0.len() == 13 && fields[2].0.len() == 11);
    assert(fields[3].0.len() == 9 && fields[4].0.len() == 13 && fields[5].0.len() == 14);
    assert(fields[6].0.len() == 13 && fields[7].0.len() == 16 && fields[8].0.len() == 15);
    assert(fields[9].0.len() == 10);
    assert forall|i: int, j: int| 0 <= i < j < fields.len() implies (#[trigger] fields[i]).0 != (
    #[trigger] fields[j]).0 by {
        if fields[i].0.len() == fields[j].0.len() {
            assert(fields[i].0[4] != fields[j].0[4]);
        }
    }
}

/// The answer to a cancellation names the request and says whether it was
/// cancelled; where it was not, it says why.
pub proof fn cancellation_by_name(request_id: Seq<char>, cancelled: bool)
    ensures
        ({
            let told = cancel_tree(request_id, cancelled);
            &&& told.bool_of_field("ok"@) == Some(cancelled)
            &&& told.text_of_field("request_id"@) == Some(request_id)
            &&& told.bool_of_field("cancelled"@) == Some(cancelled)
            &&& cancelled ==> told.field("error"@) is None
            &&& !cancelled ==> told.text_of_field("error"@) == Some(
                "No active request has that request_id."@,
            )
        }),
{
    reveal_strlit("ok");
    reveal_strlit("request_id");
    reveal_strlit("cancelled");
    reveal_strlit("error");
    let fields = cancel_tree(request_id, cancelled)->Object_0;
    assert(fields[0].0.len() == 2 && fields[1].0.len() == 10 && fields[2].0.len() == 9);
    field_at(fields, 0);
    field_at(fields, 1);
    field_at(fields, 2);
    if cancelled {
        missing_field(fields, "error"@);
    } else {
        assert(fields[3].0.len() == 5);
        field_at(fields, 3);
    }
}

/// The answer to a chat is the whole of what came of the run, whatever that is;
/// where nothing came of it, it is the error.
pub proof fn chats_are_answered_in_full(
    given: JsonTree,
    error: Seq<char>,
    origin: Option<Seq<char>>,
)
    ensures
        given.bool_of_field("ok"@) == Some(true) ==> chat_answer(Ok(given), origin)
            == json_response(200, "OK"@, given, origin),
        given.bool_of_field("ok"@) != Some(true) ==> chat_answer(Ok(given), origin)
            == json_response(502, "Bad Gateway"@, given, origin),
        chat_answer(Err(error), origin) == json_response(
            400,
            "Bad Request"@,
            JsonTree::Object(seq![("error"@, JsonTree::Text(error))]),
            origin,
        ),
{
}

/// A question about the health of the connector is always answered with success,
/// and a cancellation with success where a request was found and with 404
/// elsewhere; only the origin that asked may read either.
pub proof fn answers_say_how_it_went(
    report: HealthView,
    user: Option<BindingView>,
    request_id: Seq<char>,
    origin: Option<Seq<char>>,
)
    ensures
        health_answer(report, user, origin).status == 200,
        health_answer(report, user, origin).reason == "OK"@,
        health_answer(report, user, origin).origin == origin,
        health_answer(report, user, origin).body == body_of(
            json_bytes(normal(health_tree(report, user))),
        ),
        cancel_answer(request_id, true, origin).status == 200,
        cancel_answer(request_id, true, origin).reason == "OK"@,
        cancel_answer(request_id, false, origin).status == 404,
        cancel_answer(request_id, false, origin).reason == "Not Found"@,
        forall|cancelled: bool| #[trigger]
            cancel_answer(request_id, cancelled, origin).origin == origin && cancel_answer(
                request_id,
                cancelled,
                origin,
            ).body == body_of(json_bytes(normal(cancel_tree(request_id, cancelled)))),
{
}

/// The sender must be known on three paths and nowhere else, by every method but
/// the one by which a browser asks what is allowed.
pub proof fn three_paths_are_protected(method: Seq<char>, path: Seq<char>)
    ensures
        !protected("OPTIONS"@, path),
        method != "OPTIONS"@ ==> protected(method, "/health"@) && protected(method, "/chat"@)
            && protected(method, "/cancel"@),
        path != "/health"@ && path != "/chat"@ && path != "/cancel"@ ==> !protected(method, path),
{
}

/// Where nobody can say who asks, what is protected is answered with an error of
/// the connector itself.
pub proof fn unknown_state_is_told(request: RequestView)
    requires
        admission(request) is Ok,
        protected(request.method, request.path),
    ensures
        served(request, None) matches DispatchView::Answer(response) && response.status == 500
            && response.reason == "Internal Server Error"@ && response.origin == admission(
            request,
        )->Ok_0.origin,
{
}

/// An error is told in one field, in its own words.
pub proof fn errors_are_told(error: Seq<char>)
    ensures
        error_tree(error).text_of_field("error"@) == Some(error),
        error_tree(error)->Object_0.len() == 1,
{
    field_at(error_tree(error)->Object_0, 0);
}

/// What could not be read as a request is a bad one, and what was wrong with it
/// is told, whatever it was, to no web origin.
pub proof fn unreadable_requests_are_told(error: Seq<char>)
    ensures
        unreadable_answer(error).status == 400,
        unreadable_answer(error).reason == "Bad Request"@,
        unreadable_answer(error).origin is None,
        unreadable_answer(error).body == body_of(
            json_bytes(normal(JsonTree::Object(seq![("error"@, JsonTree::Text(error))]))),
        ),
{
}

} // verus!
