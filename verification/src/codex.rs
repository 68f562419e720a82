//! The Codex command: how it is called besides for a request, and what is made
//! of its answers.

use crate::text::{concat2, lossy_text, string_from_utf8_lossy, string_texts, trim, trimmed};
use vstd::prelude::*;

verus! {

/// What Codex is asked besides requests.
#[derive(Clone, Copy, Debug, PartialEq, Eq, Structural)]
pub enum CodexCommand {
    /// Its version.
    Version,
    /// Whether its user is signed in.
    LoginStatus,
    /// To sign its user in.
    Login,
    /// To sign its user out.
    Logout,
}

/// The arguments of a command.
pub open spec fn command_words(command: CodexCommand) -> Seq<Seq<char>> {
    match command {
        CodexCommand::Version => seq!["--version"@],
        CodexCommand::LoginStatus => seq!["login"@, "status"@],
        CodexCommand::Login => seq!["login"@],
        CodexCommand::Logout => seq!["logout"@],
    }
}

/// The arguments of a command.
pub fn command_arguments(command: CodexCommand) -> (arguments: Vec<String>)
    ensures
        string_texts(arguments@) == command_words(command),
{
    let arguments: Vec<String> = match command {
        CodexCommand::Version => vec!["--version".to_string()],
        CodexCommand::LoginStatus => vec!["login".to_string(), "status".to_string()],
        CodexCommand::Login => vec!["login".to_string()],
        CodexCommand::Logout => vec!["logout".to_string()],
    };
    assert(string_texts(arguments@) =~= command_words(command));
    arguments
}

/// A command that has ended.
#[derive(Debug)]
pub struct CommandResult {
    pub success: bool,
    /// What it printed.
    pub stdout: Vec<u8>,
    /// What it printed as errors.
    pub stderr: Vec<u8>,
}

/// The result of a command as a reader of texts sees it.
pub open spec fn command_view(
    result: Result<(bool, String), String>,
) -> Result<(bool, Seq<char>), Seq<char>> {
    match result {
        Ok((success, detail)) => Ok((success, detail@)),
        Err(error) => Err(error@),
    }
}

/// What a command says: what it printed, or else what it printed as errors,
/// without the white space at the ends.
pub open spec fn detail(stdout: Seq<char>, stderr: Seq<char>) -> Seq<char> {
    if trimmed(stdout).len() == 0 {
        trimmed(stderr)
    } else {
        trimmed(stdout)
    }
}

/// What a command says, from what it printed and what it printed as errors.
pub fn command_detail(stdout: &str, stderr: &str) -> (said: String)
    ensures
        said@ == detail(stdout@, stderr@),
{
    let stdout = trim(stdout);
    if stdout.is_empty() {
        trim(stderr).to_string()
    } else {
        stdout.to_string()
    }
}

/// What comes of a command: whether it succeeded and what it says, or why it
/// could not be run.
pub open spec fn outcome(result: Result<CommandResult, String>) -> Result<
    (bool, Seq<char>),
    Seq<char>,
> {
    match result {
        Ok(result) => Ok(
            (result.success, detail(lossy_text(result.stdout@), lossy_text(result.stderr@))),
        ),
        Err(error) => Err(error@),
    }
}

/// What comes of a command.
pub fn command_output(result: Result<CommandResult, String>) -> (output: Result<
    (bool, String),
    String,
>)
    ensures
        command_view(output) == outcome(result),
{
    match result {
        Ok(result) => {
            let stdout = string_from_utf8_lossy(result.stdout.as_slice());
            let stderr = string_from_utf8_lossy(result.stderr.as_slice());
            Ok((result.success, command_detail(stdout.as_str(), stderr.as_str())))
        },
        Err(error) => Err(error),
    }
}

/// The version that Codex tells; nothing where it could not be asked.
pub open spec fn told_version(output: Result<(bool, Seq<char>), Seq<char>>) -> Seq<char> {
    match output {
        Ok((_, version)) => version,
        Err(_) => Seq::empty(),
    }
}

/// The version that Codex tells, from what came of [`CodexCommand::Version`].
pub fn codex_version(output: Result<(bool, String), String>) -> (version: String)
    ensures
        version@ == told_version(command_view(output)),
{
    match output {
        Ok((_, version)) => version,
        Err(_) => {
            let nothing = String::new();
            assert(nothing@ =~= Seq::empty());
            nothing
        },
    }
}

/// Whether the user of Codex is signed in, and what is told of it.
pub open spec fn told_status(output: Result<(bool, Seq<char>), Seq<char>>) -> (bool, Seq<char>) {
    match output {
        Ok((success, said)) => (
            success,
            if said.len() > 0 {
                said
            } else if success {
                "Connected to Codex"@
            } else {
                "Sign in to your Codex account"@
            },
        ),
        Err(error) => (false, "Unable to check Codex authentication: "@ + error),
    }
}

/// Whether the user of Codex is signed in, from what came of
/// [`CodexCommand::LoginStatus`].
pub fn codex_auth_status(output: Result<(bool, String), String>) -> (status: (bool, String))
    ensures
        (status.0, status.1@) == told_status(command_view(output)),
{
    match output {
        Ok((success, said)) => {
            if !said.as_str().is_empty() {
                (success, said)
            } else if success {
                (true, "Connected to Codex".to_string())
            } else {
                (false, "Sign in to your Codex account".to_string())
            }
        },
        Err(error) => (false, concat2("Unable to check Codex authentication: ", error.as_str())),
    }
}

/// Whoever looks at the status is told something, whatever Codex says.
pub proof fn status_says_something(output: Result<(bool, Seq<char>), Seq<char>>)
    ensures
        told_status(output).1.len() > 0,
{
    reveal_strlit("Connected to Codex");
    reveal_strlit("Sign in to your Codex account");
    reveal_strlit("Unable to check Codex authentication: ");
}

// ---------------------------------------------------------------------------
// Signing in
// ---------------------------------------------------------------------------

/// How far the sign-in to Codex has come.
pub struct LoginView {
    pub in_progress: bool,
    pub message: Seq<char>,
}

/// How far the sign-in to Codex has come.
#[derive(Debug)]
pub struct LoginProgress {
    pub in_progress: bool,
    pub message: String,
}

impl View for LoginProgress {
    type V = LoginView;

    open spec fn view(&self) -> LoginView {
        LoginView { in_progress: self.in_progress, message: self.message@ }
    }
}

/// What the user is told of a sign-in that was run: whether it succeeded, or
/// what it printed as errors.
pub open spec fn login_told(success: bool, stderr: Seq<char>) -> Seq<char> {
    if success {
        "Codex account connected."@
    } else if trimmed(stderr).len() == 0 {
        "Codex sign-in did not complete."@
    } else {
        trimmed(stderr)
    }
}

/// What the user is told of a sign-in that was run.
pub fn login_message(success: bool, stderr: &str) -> (message: String)
    ensures
        message@ == login_told(success, stderr@),
{
    if success {
        return "Codex account connected.".to_string();
    }
    let stderr = trim(stderr);
    if stderr.is_empty() {
        "Codex sign-in did not complete.".to_string()
    } else {
        stderr.to_string()
    }
}

/// What the user is told once a sign-in has ended.
pub open spec fn login_outcome(result: Result<CommandResult, String>) -> Seq<char> {
    match result {
        Ok(result) => login_told(result.success, lossy_text(result.stderr@)),
        Err(error) => "Unable to start Codex sign-in: "@ + error@,
    }
}

/// How far the sign-in has come after the wish to sign in: it is under way where
/// Codex is installed.
pub open spec fn login_begun(login: LoginView, codex_found: bool) -> LoginView {
    if codex_found && !login.in_progress {
        LoginView {
            in_progress: true,
            message: "Complete sign-in in the browser opened by OpenAI."@,
        }
    } else {
        login
    }
}

/// How far the sign-in has come once it has ended.
pub open spec fn login_ended(result: Result<CommandResult, String>) -> LoginView {
    LoginView { in_progress: false, message: login_outcome(result) }
}

/// What comes of the wish to sign in.
#[derive(Debug, PartialEq, Eq)]
pub enum LoginStart {
    /// Codex is to be called for it.
    Run,
    /// A sign-in is under way already.
    UnderWay,
    /// It cannot be done.
    Refused(String),
}

impl LoginProgress {
    /// No sign-in so far.
    pub fn new() -> (login: Self)
        ensures
            login@ == (LoginView { in_progress: false, message: Seq::empty() }),
    {
        let message = String::new();
        assert(message@ =~= Seq::empty());
        LoginProgress { in_progress: false, message }
    }

    /// Starts a sign-in, unless one is under way or Codex is not installed.
    pub fn begin_codex_login(&mut self, codex_found: bool) -> (start: LoginStart)
        ensures
            match start {
                LoginStart::Refused(error) => !codex_found && error@ == "Codex is not installed."@
                    && final(self)@ == old(self)@,
                LoginStart::UnderWay => codex_found && old(self)@.in_progress && final(self)@
                    == old(self)@,
                LoginStart::Run => codex_found && !old(self)@.in_progress && final(self)@ == (
                LoginView {
                    in_progress: true,
                    message: "Complete sign-in in the browser opened by OpenAI."@,
                }),
            },
            final(self)@ == login_begun(old(self)@, codex_found),
    {
        if !codex_found {
            LoginStart::Refused("Codex is not installed.".to_string())
        } else if self.in_progress {
            LoginStart::UnderWay
        } else {
            self.in_progress = true;
            self.message = "Complete sign-in in the browser opened by OpenAI.".to_string();
            LoginStart::Run
        }
    }

    /// Takes note of the end of a sign-in.
    pub fn finish(&mut self, result: Result<CommandResult, String>)
        ensures
            final(self)@ == (LoginView { in_progress: false, message: login_outcome(result) }),
            final(self)@ == login_ended(result),
    {
        self.in_progress = false;
        self.message = match result {
            Ok(result) => {
                let stderr = string_from_utf8_lossy(result.stderr.as_slice());
                login_message(result.success, stderr.as_str())
            },
            Err(error) => concat2("Unable to start Codex sign-in: ", error.as_str()),
        };
    }
}

/// Each command is called by its own words.
pub proof fn commands_by_their_words()
    ensures
        command_words(CodexCommand::Version) == seq!["--version"@],
        command_words(CodexCommand::LoginStatus) == seq!["login"@, "status"@],
        command_words(CodexCommand::Login) == seq!["login"@],
        command_words(CodexCommand::Logout) == seq!["logout"@],
{
}

/// A command says what it printed, whatever that is and however long, and what
/// it printed as errors only where it printed nothing else.
pub proof fn commands_say_what_they_print(result: CommandResult, error: String)
    ensures
        ({
            let printed = trimmed(lossy_text(result.stdout@));
            let errors = trimmed(lossy_text(result.stderr@));
            outcome(Ok(result)) == Ok::<(bool, Seq<char>), Seq<char>>(
                (
                    result.success,
                    if printed.len() > 0 {
                        printed
                    } else {
                        errors
                    },
                ),
            )
        }),
        outcome(Err(error)) == Err::<(bool, Seq<char>), Seq<char>>(error@),
{
}

/// The version is what Codex says, whether or not it calls that a success.
pub proof fn version_is_what_is_said(success: bool, said: Seq<char>, error: Seq<char>)
    ensures
        told_version(Ok((success, said))) == said,
        told_version(Err(error)) == Seq::<char>::empty(),
{
}

/// The user is signed in where Codex says so by its success and nowhere else.
/// What it says of it is told as it is; silence is put into words.
pub proof fn status_is_what_is_said(success: bool, said: Seq<char>, error: Seq<char>)
    ensures
        told_status(Ok((success, said))).0 == success,
        said.len() > 0 ==> told_status(Ok((success, said))).1 == said,
        told_status(Ok((true, Seq::empty()))).1 == "Connected to Codex"@,
        told_status(Ok((false, Seq::empty()))).1 == "Sign in to your Codex account"@,
        told_status(Err(error)) == (false, "Unable to check Codex authentication: "@ + error),
{
}

/// A sign-in that succeeded is told as such, whatever was printed; of one that
/// did not, the errors are told as they are, or that it did not complete.
pub proof fn sign_in_is_told(result: CommandResult, error: String)
    ensures
        ({
            let errors = trimmed(lossy_text(result.stderr@));
            login_outcome(Ok(result)) == if result.success {
                "Codex account connected."@
            } else if errors.len() > 0 {
                errors
            } else {
                "Codex sign-in did not complete."@
            }
        }),
        login_outcome(Err(error)) == "Unable to start Codex sign-in: "@ + error@,
{
}

/// There is one sign-in at a time: a second wish changes nothing until the first
/// has ended, and then another can begin. Without Codex nothing begins.
pub proof fn one_sign_in_at_a_time(
    login: LoginView,
    codex_found: bool,
    result: Result<CommandResult, String>,
)
    ensures
        login_begun(login, false) == login,
        login.in_progress ==> login_begun(login, codex_found) == login,
        login_begun(login, true).in_progress,
        login_begun(login_begun(login, true), codex_found) == login_begun(login, true),
        !login.in_progress ==> login_begun(login, true).message
            == "Complete sign-in in the browser opened by OpenAI."@,
        !login_ended(result).in_progress,
        login_ended(result).message == login_outcome(result),
        login_begun(login_ended(result), true).message
            == "Complete sign-in in the browser opened by OpenAI."@,
{
}

} // verus!
