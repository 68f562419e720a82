//! What the window of the connector shows, and what it opens.

use crate::autostart::Platform;
use crate::bridge::{BridgeService, BridgeView, CONNECTOR_ENDPOINT};
use crate::codex::{LoginProgress, LoginView};
use crate::owner::{OwnerState, OwnerView};
use crate::text::{attempt_view, same_text, string_texts};
use vstd::prelude::*;

verus! {

/// What the window shows.
pub struct StatusView {
    pub service_running: bool,
    pub externally_managed: bool,
    pub endpoint: Seq<char>,
    pub codex_found: bool,
    pub codex_version: Seq<char>,
    pub authenticated: bool,
    pub auth_status: Seq<char>,
    pub launch_at_login: bool,
    pub login_in_progress: bool,
    pub last_error: Seq<char>,
    pub owner_bound: bool,
    pub owner_email: Seq<char>,
}

/// What the window shows.
#[derive(Debug)]
pub struct ConnectorStatus {
    pub service_running: bool,
    pub externally_managed: bool,
    pub endpoint: &'static str,
    pub codex_found: bool,
    pub codex_version: String,
    pub authenticated: bool,
    pub auth_status: String,
    pub launch_at_login: bool,
    pub login_in_progress: bool,
    pub last_error: String,
    pub owner_bound: bool,
    pub owner_email: String,
}

impl View for ConnectorStatus {
    type V = StatusView;

    open spec fn view(&self) -> StatusView {
        StatusView {
            service_running: self.service_running,
            externally_managed: self.externally_managed,
            endpoint: self.endpoint@,
            codex_found: self.codex_found,
            codex_version: self.codex_version@,
            authenticated: self.authenticated,
            auth_status: self.auth_status@,
            launch_at_login: self.launch_at_login,
            login_in_progress: self.login_in_progress,
            last_error: self.last_error@,
            owner_bound: self.owner_bound,
            owner_email: self.owner_email@,
        }
    }
}

/// What Codex tells of itself, where it is installed.
pub struct ToldView {
    pub version: Seq<char>,
    pub authenticated: bool,
    pub auth_status: Seq<char>,
}

/// What Codex tells of itself.
#[derive(Debug)]
pub struct CodexTold {
    pub version: String,
    /// Whether its user is signed in.
    pub authenticated: bool,
    pub auth_status: String,
}

impl View for CodexTold {
    type V = ToldView;

    open spec fn view(&self) -> ToldView {
        ToldView {
            version: self.version@,
            authenticated: self.authenticated,
            auth_status: self.auth_status@,
        }
    }
}

/// What Codex tells of itself; what is shown where it is not installed.
pub open spec fn told_or_missing(told: Option<CodexTold>) -> ToldView {
    match told {
        Some(told) => told@,
        None => ToldView {
            version: Seq::empty(),
            authenticated: false,
            auth_status: "Codex is not installed."@,
        },
    }
}

/// What the window shows. While a sign-in is under way and there is something
/// to say of it, that is said in place of what Codex says.
pub open spec fn shown(
    running: bool,
    bridge: BridgeView,
    login: LoginView,
    owner: OwnerView,
    codex_found: bool,
    told: ToldView,
    launch_at_login: bool,
) -> StatusView {
    StatusView {
        service_running: running,
        externally_managed: bridge.externally_managed,
        endpoint: CONNECTOR_ENDPOINT@,
        codex_found,
        codex_version: told.version,
        authenticated: told.authenticated,
        auth_status: if login.in_progress && login.message.len() > 0 {
            login.message
        } else {
            told.auth_status
        },
        launch_at_login,
        login_in_progress: login.in_progress,
        last_error: bridge.last_error,
        owner_bound: owner.binding is Some,
        owner_email: match owner.binding {
            Some(binding) => binding.email,
            None => Seq::empty(),
        },
    }
}

/// What the window shows. `told` is what Codex tells of itself, where it is
/// installed.
pub fn connector_status(
    running: bool,
    bridge: &BridgeService,
    login: &LoginProgress,
    owner: &OwnerState,
    told: Option<CodexTold>,
    launch_at_login: bool,
) -> (status: ConnectorStatus)
    ensures
        status@ == shown(
            running,
            bridge@,
            login@,
            owner@,
            told is Some,
            told_or_missing(told),
            launch_at_login,
        ),
{
    let codex_found = told.is_some();
    let told = match told {
        Some(told) => told,
        None => {
            let version = String::new();
            assert(version@ =~= Seq::empty());
            CodexTold {
                version,
                authenticated: false,
                auth_status: "Codex is not installed.".to_string(),
            }
        },
    };
    let owner_email = match &owner.binding {
        Some(binding) => binding.email.clone(),
        None => {
            let nothing = String::new();
            assert(nothing@ =~= Seq::empty());
            nothing
        },
    };
    ConnectorStatus {
        service_running: running,
        externally_managed: bridge.externally_managed,
        endpoint: CONNECTOR_ENDPOINT,
        codex_found,
        codex_version: told.version,
        authenticated: told.authenticated,
        auth_status: if login.in_progress && !login.message.as_str().is_empty() {
            login.message.clone()
        } else {
            told.auth_status
        },
        launch_at_login,
        login_in_progress: login.in_progress,
        last_error: bridge.last_error.clone(),
        owner_bound: owner.binding.is_some(),
        owner_email,
    }
}

// ---------------------------------------------------------------------------
// The page about the installation of Codex
// ---------------------------------------------------------------------------

/// The page about the installation of Codex.
pub const CODEX_INSTALL_URL: &'static str = "https://github.com/openai/codex#quickstart";

/// The command that opens that page: its name and its arguments.
pub open spec fn open_words(platform: Platform) -> (Seq<char>, Seq<Seq<char>>) {
    match platform {
        Platform::MacOs => ("open"@, seq![CODEX_INSTALL_URL@]),
        Platform::Windows => ("cmd.exe"@, seq!["/C"@, "start"@, ""@, CODEX_INSTALL_URL@]),
        Platform::Other => ("xdg-open"@, seq![CODEX_INSTALL_URL@]),
    }
}

/// The command that opens the page about the installation of Codex.
pub fn open_command(platform: Platform) -> (command: (String, Vec<String>))
    ensures
        (command.0@, string_texts(command.1@)) == open_words(platform),
{
    let (program, arguments): (String, Vec<String>) = match platform {
        Platform::MacOs => ("open".to_string(), vec![CODEX_INSTALL_URL.to_string()]),
        Platform::Windows => (
            "cmd.exe".to_string(),
            vec![
                "/C".to_string(),
                "start".to_string(),
                "".to_string(),
                CODEX_INSTALL_URL.to_string(),
            ],
        ),
        Platform::Other => ("xdg-open".to_string(), vec![CODEX_INSTALL_URL.to_string()]),
    };
    let ghost words = open_words(platform);
    assert(string_texts(arguments@) =~= words.1);
    (program, arguments)
}

/// What the user is told of that command.
pub open spec fn opening_told(result: Result<bool, Seq<char>>) -> Result<(), Seq<char>> {
    match result {
        Err(error) => Err(error),
        Ok(success) => if success {
            Ok(())
        } else {
            Err("Unable to open the Codex installation page."@)
        },
    }
}

/// What the user is told of that command, from whether it could be run and
/// whether it succeeded.
pub fn open_codex_install(result: Result<bool, String>) -> (told: Result<(), String>)
    ensures
        attempt_view(told) == match result {
            Err(error) => Err(error@),
            Ok(success) => if success {
                Ok::<(), Seq<char>>(())
            } else {
                Err("Unable to open the Codex installation page."@)
            },
        },
        attempt_view(told) == opening_told(
            match result {
                Ok(success) => Ok(success),
                Err(error) => Err(error@),
            },
        ),
{
    match result {
        Err(error) => Err(error),
        Ok(success) => {
            if success {
                Ok(())
            } else {
                Err("Unable to open the Codex installation page.".to_string())
            }
        },
    }
}

/// Whether the connector is to open without its window.
pub open spec fn background_wished(arguments: Seq<Seq<char>>) -> bool {
    arguments.contains("--background"@)
}

/// Whether the connector is to open without its window, from the arguments
/// that it was started with.
pub fn starts_in_background(arguments: &Vec<String>) -> (background: bool)
    ensures
        background == string_texts(arguments@).contains("--background"@),
        background == background_wished(string_texts(arguments@)),
{
    for i in 0..arguments.len()
        invariant
            forall|j: int| 0 <= j < i ==> (#[trigger] arguments@[j])@ != "--background"@,
    {
        if same_text(arguments[i].as_str(), "--background") {
            assert(string_texts(arguments@)[i as int] == "--background"@);
            return true;
        }
    }
    assert forall|k: int| 0 <= k < string_texts(arguments@).len() implies string_texts(
        arguments@,
    )[k] != "--background"@ by {
        assert(arguments@[k]@ != "--background"@);
    }
    false
}

/// The window shows each thing as it is, whatever the others are.
pub proof fn window_shows_things_as_they_are(
    running: bool,
    bridge: BridgeView,
    login: LoginView,
    owner: OwnerView,
    codex_found: bool,
    told: ToldView,
    launch_at_login: bool,
)
    ensures
        ({
            let status = shown(running, bridge, login, owner, codex_found, told, launch_at_login);
            &&& status.service_running == running
            &&& status.externally_managed == bridge.externally_managed
            &&& status.endpoint == "http://127.0.0.1:8765"@
            &&& status.codex_found == codex_found
            &&& status.codex_version == told.version
            &&& status.authenticated == told.authenticated
            &&& status.launch_at_login == launch_at_login
            &&& status.login_in_progress == login.in_progress
            &&& status.last_error == bridge.last_error
            &&& !login.in_progress ==> status.auth_status == told.auth_status
            &&& login.message.len() == 0 ==> status.auth_status == told.auth_status
            &&& login.in_progress && login.message.len() > 0 ==> status.auth_status
                == login.message
            &&& status.owner_bound <==> owner.binding is Some
            &&& owner.binding matches Some(binding) ==> status.owner_email == binding.email
            &&& owner.binding is None ==> status.owner_email == Seq::<char>::empty()
        }),
{
}

/// What Codex tells is shown as it is; where it is not installed, nobody is
/// signed in and the window says why.
pub proof fn missing_codex_is_told(told: CodexTold)
    ensures
        told_or_missing(Some(told)).version == told.version@,
        told_or_missing(Some(told)).authenticated == told.authenticated,
        told_or_missing(Some(told)).auth_status == told.auth_status@,
        told_or_missing(None).version == Seq::<char>::empty(),
        !told_or_missing(None).authenticated,
        told_or_missing(None).auth_status == "Codex is not installed."@,
{
}

/// The page about the installation is opened by the command of the machine, and
/// on every machine its address is the last thing that the command is given.
pub proof fn page_is_opened_on_every_machine(platform: Platform)
    ensures
        open_words(platform).1.len() > 0,
        open_words(platform).1.last() == "https://github.com/openai/codex#quickstart"@,
        open_words(Platform::MacOs).0 == "open"@ && open_words(Platform::MacOs).1.len() == 1,
        open_words(Platform::Other).0 == "xdg-open"@ && open_words(Platform::Other).1.len() == 1,
        open_words(Platform::Windows).0 == "cmd.exe"@,
        open_words(Platform::Windows).1.drop_last() == seq!["/C"@, "start"@, ""@],
{
    assert(open_words(Platform::Windows).1.drop_last() =~= seq!["/C"@, "start"@, ""@]);
}

/// The connector opens without its window where one of its arguments says so,
/// wherever that stands and whatever the others are, and only there.
pub proof fn any_argument_may_wish_the_background(a: Seq<Seq<char>>, b: Seq<Seq<char>>)
    ensures
        background_wished(a + seq!["--background"@] + b),
        (forall|i: int| 0 <= i < a.len() ==> (#[trigger] a[i]) != "--background"@)
            ==> !background_wished(a),
{
    let all = a + seq!["--background"@] + b;
    assert(all[a.len() as int] == "--background"@);
}

/// That the page was opened is no error; that it was not is told, in the words
/// of the machine where it has any.
pub proof fn opening_is_told(error: Seq<char>)
    ensures
        opening_told(Ok(true)) is Ok,
        opening_told(Ok(false)) == Err::<(), Seq<char>>(
            "Unable to open the Codex installation page."@,
        ),
        opening_told(Err(error)) == Err::<(), Seq<char>>(error),
{
}

} // verus!
