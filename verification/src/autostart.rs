//! Starting the connector when its user signs in to the machine: a launch agent
//! on macOS, an entry in the registry on Windows.

use crate::paths::{optional_path, LocalPath, PathView};
use crate::text::{
    attempt_view, chars_of, concat2, concat3, expanded, expanded_adds_up, expanded_from_start, string_texts,
    text_result,
};
use vstd::prelude::*;
use vstd::string::StringExecFns;

verus! {

/// The kinds of machines that the connector tells apart.
#[derive(Clone, Copy, Debug, PartialEq, Eq, Structural)]
pub enum Platform {
    MacOs,
    Windows,
    Other,
}

/// The name of the launch agent.
pub const AUTOSTART_ID: &'static str = "ai.marketstate.codex-connector";

/// The key of the registry that lists what is started.
pub const REGISTRY_KEY: &'static str = "HKCU\\Software\\Microsoft\\Windows\\CurrentVersion\\Run";

/// The name of the entry in the registry.
pub const REGISTRY_VALUE: &'static str = "MarketStateCodexConnector";

// ---------------------------------------------------------------------------
// The launch agent
// ---------------------------------------------------------------------------

/// Where the launch agent stands below a home directory.
pub open spec fn agent_path(home: PathView) -> PathView {
    home.join("Library/LaunchAgents"@).join(AUTOSTART_ID@ + ".plist"@)
}

/// The directory of the launch agents.
pub open spec fn agent_directory(home: PathView) -> PathView {
    home.join("Library/LaunchAgents"@)
}

/// The file of the launch agent, where the home directory is known.
pub fn autostart_file(home: &Option<LocalPath>) -> (path: Result<LocalPath, String>)
    ensures
        match *home {
            Some(home) => path matches Ok(path) && path@ == agent_path(home@),
            None => path matches Err(error) && error@ == "Unable to locate the home directory."@,
        },
{
    match home {
        Some(home) => {
            let name = concat2(AUTOSTART_ID, ".plist");
            Ok(home.join("Library/LaunchAgents").join(name.as_str()))
        },
        None => Err("Unable to locate the home directory.".to_string()),
    }
}

/// How a character stands in an XML text.
pub open spec fn escaped_char(c: char) -> Seq<char> {
    if c == '&' {
        "&amp;"@
    } else if c == '<' {
        "&lt;"@
    } else if c == '>' {
        "&gt;"@
    } else if c == '"' {
        "&quot;"@
    } else if c == '\'' {
        "&apos;"@
    } else {
        seq![c]
    }
}

/// How a text stands in an XML text.
pub open spec fn escaped(text: Seq<char>) -> Seq<char> {
    expanded(text, |c: char| escaped_char(c))
}

/// The text that an XML text stands for.
pub open spec fn unescaped(text: Seq<char>) -> Seq<char>
    decreases text.len(),
{
    if text.len() == 0 {
        Seq::empty()
    } else if text.len() >= 5 && "&amp;"@.is_prefix_of(text) {
        seq!['&'] + unescaped(text.skip(5))
    } else if text.len() >= 4 && "&lt;"@.is_prefix_of(text) {
        seq!['<'] + unescaped(text.skip(4))
    } else if text.len() >= 4 && "&gt;"@.is_prefix_of(text) {
        seq!['>'] + unescaped(text.skip(4))
    } else if text.len() >= 6 && "&quot;"@.is_prefix_of(text) {
        seq!['"'] + unescaped(text.skip(6))
    } else if text.len() >= 6 && "&apos;"@.is_prefix_of(text) {
        seq!['\''] + unescaped(text.skip(6))
    } else {
        seq![text[0]] + unescaped(text.drop_first())
    }
}

/// Writes a text as it stands in an XML text.
pub fn xml_escape(value: &str) -> (text: String)
    ensures
        text@ == escaped(value@),
{
    let chars = chars_of(value);
    let mut text = String::new();
    let ghost f = |c: char| escaped_char(c);
    assert(chars@.take(0) =~= Seq::empty());
    for i in 0..chars.len()
        invariant
            chars@ == value@,
            f == (|c: char| escaped_char(c)),
            text@ == expanded(value@.take(i as int), f),
    {
        let c = chars[i];
        assert(value@.take(i + 1).drop_last() =~= value@.take(i as int));
        assert(value@.take(i + 1).last() == c);
        let ghost before = text@;
        if c == '&' {
            text.append("&amp;");
        } else if c == '<' {
            text.append("&lt;");
        } else if c == '>' {
            text.append("&gt;");
        } else if c == '"' {
            text.append("&quot;");
        } else if c == '\'' {
            text.append("&apos;");
        } else {
            text.push(c);
        }
        assert(text@ =~= before + escaped_char(c));
    }
    assert(value@.take(chars@.len() as int) =~= value@);
    text
}

/// What stands for a character is taken for that character, whatever follows.
proof fn escaped_char_reads_back(c: char, rest: Seq<char>)
    ensures
        unescaped(escaped_char(c) + rest) == seq![c] + unescaped(rest),
{
    reveal_strlit("&amp;");
    reveal_strlit("&lt;");
    reveal_strlit("&gt;");
    reveal_strlit("&quot;");
    reveal_strlit("&apos;");
    let start = escaped_char(c);
    let text = start + rest;
    assert(text.skip(start.len() as int) =~= rest);
    assert(text.take(start.len() as int) =~= start);
    assert(start.is_prefix_of(text));
    assert(text[0] == start[0]);
    if start.len() > 1 {
        assert(text[1] == start[1]);
    }
    if c == '&' {
    } else if c == '<' {
        assert(!"&amp;"@.is_prefix_of(text)) by {
            if "&amp;"@.is_prefix_of(text) {
                assert(text.subrange(0, 5)[1] == 'a');
            }
        }
    } else if c == '>' {
        assert(!"&amp;"@.is_prefix_of(text)) by {
            if "&amp;"@.is_prefix_of(text) {
                assert(text.subrange(0, 5)[1] == 'a');
            }
        }
        assert(!"&lt;"@.is_prefix_of(text)) by {
            if "&lt;"@.is_prefix_of(text) {
                assert(text.subrange(0, 4)[1] == 'l');
            }
        }
    } else if c == '"' {
        assert(!"&amp;"@.is_prefix_of(text)) by {
            if "&amp;"@.is_prefix_of(text) {
                assert(text.subrange(0, 5)[1] == 'a');
            }
        }
        assert(!"&lt;"@.is_prefix_of(text)) by {
            if "&lt;"@.is_prefix_of(text) {
                assert(text.subrange(0, 4)[1] == 'l');
            }
        }
        assert(!"&gt;"@.is_prefix_of(text)) by {
            if "&gt;"@.is_prefix_of(text) {
                assert(text.subrange(0, 4)[1] == 'g');
            }
        }
    } else if c == '\'' {
        assert(text[2] == start[2]);
        assert(!"&amp;"@.is_prefix_of(text)) by {
            if "&amp;"@.is_prefix_of(text) {
                assert(text.subrange(0, 5)[2] == 'm');
            }
        }
        assert(!"&lt;"@.is_prefix_of(text)) by {
            if "&lt;"@.is_prefix_of(text) {
                assert(text.subrange(0, 4)[1] == 'l');
            }
        }
        assert(!"&gt;"@.is_prefix_of(text)) by {
            if "&gt;"@.is_prefix_of(text) {
                assert(text.subrange(0, 4)[1] == 'g');
            }
        }
        assert(!"&quot;"@.is_prefix_of(text)) by {
            if "&quot;"@.is_prefix_of(text) {
                assert(text.subrange(0, 6)[1] == 'q');
            }
        }
    } else {
        assert(text.drop_first() =~= rest);
        assert forall|entity: Seq<char>|
            entity.len() > 0 && entity[0] == '&' implies !#[trigger] entity.is_prefix_of(text) by {
            if entity.is_prefix_of(text) {
                assert(text.subrange(0, entity.len() as int)[0] == '&');
            }
        }
    }
}

/// An escaped text stands for itself.
pub proof fn escaped_text_reads_back(text: Seq<char>)
    ensures
        unescaped(escaped(text)) == text,
    decreases text.len(),
{
    if text.len() > 0 {
        let rest = text.drop_first();
        escaped_text_reads_back(rest);
        expanded_from_start(text, |c: char| escaped_char(c));
        escaped_char_reads_back(text[0], escaped(rest));
        assert(seq![text[0]] + rest =~= text);
    }
}

/// An escaped text cannot end the element or the attribute that it stands in:
/// it has no angle brackets and no quotes.
pub proof fn escaped_text_has_no_markup(text: Seq<char>)
    ensures
        forall|i: int|
            0 <= i < escaped(text).len() ==> !(seq!['<', '>', '"', '\''].contains(
                #[trigger] escaped(text)[i],
            )),
    decreases text.len(),
{
    if text.len() > 0 {
        let front = text.drop_last();
        let last = escaped_char(text.last());
        escaped_text_has_no_markup(front);
        reveal_strlit("&amp;");
        reveal_strlit("&lt;");
        reveal_strlit("&gt;");
        reveal_strlit("&quot;");
        reveal_strlit("&apos;");
        assert(escaped(text) == escaped(front) + last);
        assert forall|i: int| 0 <= i < escaped(text).len() implies !(seq![
            '<',
            '>',
            '"',
            '\'',
        ].contains(#[trigger] escaped(text)[i])) by {
            if i < escaped(front).len() {
                assert(escaped(text)[i] == escaped(front)[i]);
            } else {
                assert(escaped(text)[i] == last[i - escaped(front).len()]);
            }
        }
    }
}

/// What the launch agent says: that the executable is started in the
/// background at sign-in.
pub open spec fn agent_text(executable: Seq<char>) -> Seq<char> {
    "<?xml version=\"1.0\" encoding=\"UTF-8\"?>\n<!DOCTYPE plist PUBLIC \"-//Apple//DTD PLIST 1.0//EN\" \"http://www.apple.com/DTDs/PropertyList-1.0.dtd\">\n<plist version=\"1.0\"><dict><key>Label</key><string>"@
        + AUTOSTART_ID@ + "</string><key>ProgramArguments</key><array><string>"@ + escaped(
        executable,
    )
        + "</string><string>--background</string></array><key>RunAtLoad</key><true/></dict></plist>\n"@
}

/// Writes what the launch agent says.
pub fn launch_agent(executable: &str) -> (text: String)
    ensures
        text@ == agent_text(executable@),
{
    let mut text =
        "<?xml version=\"1.0\" encoding=\"UTF-8\"?>\n<!DOCTYPE plist PUBLIC \"-//Apple//DTD PLIST 1.0//EN\" \"http://www.apple.com/DTDs/PropertyList-1.0.dtd\">\n<plist version=\"1.0\"><dict><key>Label</key><string>".to_string();
    text.append(AUTOSTART_ID);
    text.append("</string><key>ProgramArguments</key><array><string>");
    let executable = xml_escape(executable);
    text.append(executable.as_str());
    text.append(
        "</string><string>--background</string></array><key>RunAtLoad</key><true/></dict></plist>\n",
    );
    text
}

// ---------------------------------------------------------------------------
// Switching it on and off
// ---------------------------------------------------------------------------

/// What is done to switch the start at sign-in on or off.
pub enum ChangeView {
    RemoveFile(PathView),
    WriteFile { directory: PathView, path: PathView, contents: Seq<char> },
    Registry(Seq<Seq<char>>),
}

/// What is done to switch the start at sign-in on or off.
#[derive(Debug)]
pub enum AutostartChange {
    /// Remove a file, if it is there.
    RemoveFile(LocalPath),
    /// Make a directory and write a file in it.
    WriteFile { directory: LocalPath, path: LocalPath, contents: String },
    /// Call `reg.exe` with arguments; see [`registry_outcome`].
    Registry(Vec<String>),
}

impl View for AutostartChange {
    type V = ChangeView;

    open spec fn view(&self) -> ChangeView {
        match *self {
            AutostartChange::RemoveFile(path) => ChangeView::RemoveFile(path@),
            AutostartChange::WriteFile { directory, path, contents } => ChangeView::WriteFile {
                directory: directory@,
                path: path@,
                contents: contents@,
            },
            AutostartChange::Registry(arguments) => ChangeView::Registry(
                string_texts(arguments@),
            ),
        }
    }
}

/// The arguments by which `reg.exe` adds the entry: the executable in quotes,
/// to be started in the background.
pub open spec fn registry_add(executable: Seq<char>) -> Seq<Seq<char>> {
    seq![
        "add"@,
        REGISTRY_KEY@,
        "/v"@,
        REGISTRY_VALUE@,
        "/t"@,
        "REG_SZ"@,
        "/d"@,
        "\""@ + executable + "\" --background"@,
        "/f"@,
    ]
}

/// The arguments by which `reg.exe` deletes the entry.
pub open spec fn registry_delete() -> Seq<Seq<char>> {
    seq!["delete"@, REGISTRY_KEY@, "/v"@, REGISTRY_VALUE@, "/f"@]
}

/// The arguments by which `reg.exe` looks for the entry.
pub open spec fn registry_query() -> Seq<Seq<char>> {
    seq!["query"@, REGISTRY_KEY@, "/v"@, REGISTRY_VALUE@]
}

/// What is done to switch the start at sign-in on or off, or why nothing can
/// be done. The executable counts only where it is switched on.
pub open spec fn change(
    platform: Platform,
    enabled: bool,
    home: Option<PathView>,
    executable: Result<Seq<char>, Seq<char>>,
) -> Result<ChangeView, Seq<char>> {
    match platform {
        Platform::MacOs => match home {
            None => Err("Unable to locate the home directory."@),
            Some(home) => if !enabled {
                Ok(ChangeView::RemoveFile(agent_path(home)))
            } else {
                match executable {
                    Err(error) => Err(error),
                    Ok(executable) => Ok(
                        ChangeView::WriteFile {
                            directory: agent_directory(home),
                            path: agent_path(home),
                            contents: agent_text(executable),
                        },
                    ),
                }
            },
        },
        Platform::Windows => if !enabled {
            Ok(ChangeView::Registry(registry_delete()))
        } else {
            match executable {
                Err(error) => Err(error),
                Ok(executable) => Ok(ChangeView::Registry(registry_add(executable))),
            }
        },
        Platform::Other => Err("Launch at login is currently supported on macOS and Windows."@),
    }
}

/// A change or an error as a reader of texts sees it.
pub open spec fn change_view(
    result: Result<AutostartChange, String>,
) -> Result<ChangeView, Seq<char>> {
    match result {
        Ok(change) => Ok(change@),
        Err(error) => Err(error@),
    }
}

/// The arguments by which `reg.exe` adds the entry.
fn registry_add_arguments(executable: &str) -> (arguments: Vec<String>)
    ensures
        string_texts(arguments@) == registry_add(executable@),
{
    let arguments = vec![
        "add".to_string(),
        REGISTRY_KEY.to_string(),
        "/v".to_string(),
        REGISTRY_VALUE.to_string(),
        "/t".to_string(),
        "REG_SZ".to_string(),
        "/d".to_string(),
        concat3("\"", executable, "\" --background"),
        "/f".to_string(),
    ];
    assert(string_texts(arguments@) =~= registry_add(executable@));
    arguments
}

/// The arguments by which `reg.exe` deletes the entry.
fn registry_delete_arguments() -> (arguments: Vec<String>)
    ensures
        string_texts(arguments@) == registry_delete(),
{
    let arguments = vec![
        "delete".to_string(),
        REGISTRY_KEY.to_string(),
        "/v".to_string(),
        REGISTRY_VALUE.to_string(),
        "/f".to_string(),
    ];
    assert(string_texts(arguments@) =~= registry_delete());
    arguments
}

/// What is done to switch the start at sign-in on or off, or why nothing can
/// be done. The executable counts only where it is switched on.
pub fn set_os_autostart(
    platform: Platform,
    enabled: bool,
    home: &Option<LocalPath>,
    executable: Result<String, String>,
) -> (result: Result<AutostartChange, String>)
    ensures
        change_view(result) == change(
            platform,
            enabled,
            optional_path(*home),
            text_result(executable),
        ),
{
    match platform {
        Platform::MacOs => match autostart_file(home) {
            Err(error) => Err(error),
            Ok(path) => {
                if !enabled {
                    Ok(AutostartChange::RemoveFile(path))
                } else {
                    match (home, executable) {
                        (_, Err(error)) => Err(error),
                        (Some(home), Ok(executable)) => Ok(
                            AutostartChange::WriteFile {
                                directory: home.join("Library/LaunchAgents"),
                                path,
                                contents: launch_agent(executable.as_str()),
                            },
                        ),
                        (None, Ok(_)) => Err("Unable to locate the home directory.".to_string()),
                    }
                }
            },
        },
        Platform::Windows => {
            if !enabled {
                Ok(AutostartChange::Registry(registry_delete_arguments()))
            } else {
                match executable {
                    Err(error) => Err(error),
                    Ok(executable) => Ok(
                        AutostartChange::Registry(registry_add_arguments(executable.as_str())),
                    ),
                }
            }
        },
        Platform::Other => Err(
            "Launch at login is currently supported on macOS and Windows.".to_string(),
        ),
    }
}

/// What comes of a call of `reg.exe`.
pub open spec fn registry_told(enabled: bool, result: Result<bool, Seq<char>>) -> Result<
    (),
    Seq<char>,
> {
    match result {
        Err(error) => Err(error),
        Ok(success) => if enabled && !success {
            Err("Windows could not enable launch at login."@)
        } else {
            Ok(())
        },
    }
}

/// What comes of a call of `reg.exe`, from whether it could be run and whether
/// it succeeded. That an entry cannot be deleted is no failure.
pub fn registry_outcome(enabled: bool, result: Result<bool, String>) -> (outcome: Result<
    (),
    String,
>)
    ensures
        match result {
            Err(error) => outcome matches Err(e) && e@ == error@,
            Ok(success) => if enabled && !success {
                outcome matches Err(e) && e@ == "Windows could not enable launch at login."@
            } else {
                outcome is Ok
            },
        },
        attempt_view(outcome) == registry_told(
            enabled,
            match result {
                Ok(success) => Ok(success),
                Err(error) => Err(error@),
            },
        ),
{
    match result {
        Err(error) => Err(error),
        Ok(success) => {
            if enabled && !success {
                Err("Windows could not enable launch at login.".to_string())
            } else {
                Ok(())
            }
        },
    }
}

/// How to find out whether the start at sign-in is switched on.
pub enum ProbeView {
    FileExists(PathView),
    Registry(Seq<Seq<char>>),
    Never,
}

/// How to find out whether the start at sign-in is switched on.
#[derive(Debug)]
pub enum AutostartProbe {
    /// It is where that file is there.
    FileExists(LocalPath),
    /// It is where `reg.exe` succeeds with those arguments.
    Registry(Vec<String>),
    /// It cannot be.
    Never,
}

impl View for AutostartProbe {
    type V = ProbeView;

    open spec fn view(&self) -> ProbeView {
        match *self {
            AutostartProbe::FileExists(path) => ProbeView::FileExists(path@),
            AutostartProbe::Registry(arguments) => ProbeView::Registry(string_texts(arguments@)),
            AutostartProbe::Never => ProbeView::Never,
        }
    }
}

/// How to find out whether the start at sign-in is switched on.
pub open spec fn probe_for(platform: Platform, home: Option<PathView>) -> ProbeView {
    match platform {
        Platform::MacOs => match home {
            Some(home) => ProbeView::FileExists(agent_path(home)),
            None => ProbeView::Never,
        },
        Platform::Windows => ProbeView::Registry(registry_query()),
        Platform::Other => ProbeView::Never,
    }
}

/// How to find out whether the start at sign-in is switched on.
pub fn os_autostart_enabled(platform: Platform, home: &Option<LocalPath>) -> (probe: AutostartProbe)
    ensures
        probe@ == probe_for(platform, optional_path(*home)),
{
    match platform {
        Platform::MacOs => match autostart_file(home) {
            Ok(path) => AutostartProbe::FileExists(path),
            Err(_) => AutostartProbe::Never,
        },
        Platform::Windows => {
            let arguments = vec![
                "query".to_string(),
                REGISTRY_KEY.to_string(),
                "/v".to_string(),
                REGISTRY_VALUE.to_string(),
            ];
            assert(string_texts(arguments@) =~= registry_query());
            AutostartProbe::Registry(arguments)
        },
        Platform::Other => AutostartProbe::Never,
    }
}

/// What is switched on is what is looked for: the launch agent that is written
/// or removed is the one whose file shows that it is switched on.
pub proof fn switching_changes_what_is_probed(home: PathView, executable: Seq<char>)
    ensures
        change(Platform::MacOs, true, Some(home), Ok(executable)) matches Ok(
            ChangeView::WriteFile { path, .. },
        ) && probe_for(Platform::MacOs, Some(home)) == ProbeView::FileExists(path),
        change(Platform::MacOs, false, Some(home), Ok(executable)) matches Ok(
            ChangeView::RemoveFile(path),
        ) && probe_for(Platform::MacOs, Some(home)) == ProbeView::FileExists(path),
{
}

/// Escaping goes character by character, of any text: five characters have names
/// of their own, and every other stands for itself.
pub proof fn escaping_goes_by_character(a: Seq<char>, b: Seq<char>, c: char)
    ensures
        escaped(a + b) == escaped(a) + escaped(b),
        escaped(Seq::empty()) == Seq::<char>::empty(),
        escaped(seq!['&']) == "&amp;"@,
        escaped(seq!['<']) == "&lt;"@,
        escaped(seq!['>']) == "&gt;"@,
        escaped(seq!['"']) == "&quot;"@,
        escaped(seq!['\'']) == "&apos;"@,
        c != '&' && c != '<' && c != '>' && c != '"' && c != '\'' ==> escaped(seq![c]) == seq![c],
{
    expanded_adds_up(a, b, |c: char| escaped_char(c));
    escaped_single('&');
    escaped_single('<');
    escaped_single('>');
    escaped_single('"');
    escaped_single('\'');
    escaped_single(c);
}

/// A single character is escaped as it stands.
proof fn escaped_single(c: char)
    ensures
        escaped(seq![c]) == escaped_char(c),
{
    let nothing = Seq::<char>::empty();
    assert(seq![c].drop_last() =~= nothing);
    assert(escaped(nothing) =~= nothing);
    assert(escaped(seq![c]) =~= escaped_char(c));
}

/// The launch agent starts the executable, whatever its path is: what stands in
/// the element of the first argument is read back as that path.
pub proof fn agent_starts_the_executable(executable: Seq<char>)
    ensures
        exists|inner: Seq<char>|
            agent_text(executable)
                == "<?xml version=\"1.0\" encoding=\"UTF-8\"?>\n<!DOCTYPE plist PUBLIC \"-//Apple//DTD PLIST 1.0//EN\" \"http://www.apple.com/DTDs/PropertyList-1.0.dtd\">\n<plist version=\"1.0\"><dict><key>Label</key><string>"@
                + "ai.marketstate.codex-connector"@
                + "</string><key>ProgramArguments</key><array><string>"@ + inner
                + "</string><string>--background</string></array><key>RunAtLoad</key><true/></dict></plist>\n"@
                && #[trigger] unescaped(inner) == executable,
{
    escaped_text_reads_back(executable);
    assert(unescaped(escaped(executable)) == executable);
}

/// On macOS the start at sign-in is a file below the home directory, whatever
/// that is: it is written to switch the start on and removed to switch it off.
pub proof fn switching_on_macos(
    home: PathView,
    executable: Result<Seq<char>, Seq<char>>,
    path: Seq<char>,
    error: Seq<char>,
)
    ensures
        ({
            let directory = home.join("Library/LaunchAgents"@);
            let file = directory.join("ai.marketstate.codex-connector"@ + ".plist"@);
            &&& change(Platform::MacOs, true, Some(home), Ok(path)) == Ok::<
                ChangeView,
                Seq<char>,
            >(ChangeView::WriteFile { directory, path: file, contents: agent_text(path) })
            &&& change(Platform::MacOs, true, Some(home), Err(error)) == Err::<
                ChangeView,
                Seq<char>,
            >(error)
            &&& change(Platform::MacOs, false, Some(home), executable) == Ok::<
                ChangeView,
                Seq<char>,
            >(ChangeView::RemoveFile(file))
            &&& change(Platform::MacOs, true, None, executable) == Err::<ChangeView, Seq<char>>(
                "Unable to locate the home directory."@,
            )
            &&& change(Platform::MacOs, false, None, executable) == Err::<ChangeView, Seq<char>>(
                "Unable to locate the home directory."@,
            )
            &&& probe_for(Platform::MacOs, Some(home)) == ProbeView::FileExists(file)
            &&& probe_for(Platform::MacOs, None) == ProbeView::Never
        }),
{
}

/// On Windows it is one entry of the registry, which is added, deleted and looked
/// for under the same key and name. The entry starts the executable, whatever its
/// path is.
pub proof fn switching_on_windows(
    home: Option<PathView>,
    executable: Result<Seq<char>, Seq<char>>,
    path: Seq<char>,
    error: Seq<char>,
)
    ensures
        ({
            let key = "HKCU\\Software\\Microsoft\\Windows\\CurrentVersion\\Run"@;
            let name = "MarketStateCodexConnector"@;
            &&& change(Platform::Windows, true, home, Ok(path)) matches Ok(
                ChangeView::Registry(words),
            )
            &&& words == seq![
                "add"@,
                key,
                "/v"@,
                name,
                "/t"@,
                "REG_SZ"@,
                "/d"@,
                "\""@ + path + "\" --background"@,
                "/f"@,
            ]
            &&& change(Platform::Windows, true, home, Err(error)) == Err::<ChangeView, Seq<char>>(
                error,
            )
            &&& change(Platform::Windows, false, home, executable) matches Ok(
                ChangeView::Registry(words),
            )
            &&& words == seq!["delete"@, key, "/v"@, name, "/f"@]
            &&& probe_for(Platform::Windows, home) matches ProbeView::Registry(words)
            &&& words == seq!["query"@, key, "/v"@, name]
        }),
{
}

/// On other machines it cannot be switched on or off, and is never on.
pub proof fn switching_elsewhere(
    enabled: bool,
    home: Option<PathView>,
    executable: Result<Seq<char>, Seq<char>>,
)
    ensures
        change(Platform::Other, enabled, home, executable) == Err::<ChangeView, Seq<char>>(
            "Launch at login is currently supported on macOS and Windows."@,
        ),
        probe_for(Platform::Other, home) == ProbeView::Never,
{
}

/// A call of `reg.exe` that succeeds is a success; one that fails is a failure
/// only where the entry was to be added; one that could not be made is told in
/// the words of the machine, whatever they are.
pub proof fn registry_calls_are_settled(enabled: bool, error: Seq<char>)
    ensures
        registry_told(enabled, Ok(true)) is Ok,
        registry_told(false, Ok(false)) is Ok,
        registry_told(true, Ok(false)) == Err::<(), Seq<char>>(
            "Windows could not enable launch at login."@,
        ),
        registry_told(enabled, Err(error)) == Err::<(), Seq<char>>(error),
{
}

} // verus!
