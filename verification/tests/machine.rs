use marketstate_codex_connector::account::OwnerBinding;
use marketstate_codex_connector::autostart::{
    autostart_file, launch_agent, os_autostart_enabled, registry_outcome, set_os_autostart,
    xml_escape, AutostartChange, AutostartProbe, Platform,
};
use marketstate_codex_connector::bridge::{
    listen_step, Arrival, BridgeService, ListenAttempt, ListenStep, StopActions,
    CONNECTOR_ENDPOINT, CONNECTOR_HOST, CONNECTOR_PORT,
};
use marketstate_codex_connector::codex::{
    codex_auth_status, codex_version, command_arguments, command_detail, command_output,
    login_message, CodexCommand, CommandResult, LoginProgress, LoginStart,
};
use marketstate_codex_connector::codec::parse_json;
use marketstate_codex_connector::owner::OwnerState;
use marketstate_codex_connector::paths::{
    codex_binary, codex_candidates, file_name_with, find_codex_binary, fresh_path, home_dir,
    owner_path, preferences_path, request_directory, workspace_path, FreshFile, LocalPath,
    PathBase, SearchEnvironment,
};
use marketstate_codex_connector::preferences::{
    launch_preference_in, load_launch_preference, save_launch_preference,
};
use marketstate_codex_connector::status::{
    connector_status, open_codex_install, open_command, starts_in_background, CodexTold,
};

fn path(base: PathBase, parts: &[&str]) -> LocalPath {
    LocalPath { base, parts: parts.iter().map(|part| part.to_string()).collect() }
}

fn home() -> Option<LocalPath> {
    Some(LocalPath::new(PathBase::Home))
}

#[test]
fn files_stand_in_the_configuration_directory() {
    let config = LocalPath::new(PathBase::ConfigDir);
    assert_eq!(preferences_path(&config), path(PathBase::ConfigDir, &["preferences.json"]));
    assert_eq!(owner_path(&config), path(PathBase::ConfigDir, &["owner.json"]));
    assert_eq!(workspace_path(&config), path(PathBase::ConfigDir, &["workspace"]));
}

#[test]
fn an_isolated_request_has_its_own_directory() {
    let workspace = path(PathBase::ConfigDir, &["workspace"]);
    assert_eq!(request_directory(false, &workspace), workspace);
    assert_eq!(
        request_directory(true, &workspace),
        path(PathBase::TempDir, &["marketstate-orama-assistant"])
    );
}

#[test]
fn fresh_files_have_fresh_names() {
    assert_eq!(file_name_with(FreshFile::OwnerDraft, "x"), ".owner.json.x.tmp");
    assert_eq!(file_name_with(FreshFile::LastMessage, "x"), "codex-last-message-x.txt");
    assert_eq!(file_name_with(FreshFile::OutputSchema, "x"), "codex-output-schema-x.json");
    let temp = LocalPath::new(PathBase::TempDir);
    let first = fresh_path(&temp, FreshFile::LastMessage);
    let second = fresh_path(&temp, FreshFile::LastMessage);
    assert_ne!(first, second);
    let name = &first.parts[0];
    let id = &name["codex-last-message-".len()..name.len() - ".txt".len()];
    assert_eq!(id.len(), 36);
    assert_eq!(uuid::Uuid::parse_str(id).unwrap().get_version_num(), 4);
    assert_eq!(uuid::Uuid::parse_str(id).unwrap().to_string(), id);
}

fn environment(codex_override: bool, executable_dir: bool, search_dirs: usize, home: bool) -> SearchEnvironment {
    SearchEnvironment { codex_override, executable_dir, search_dirs, home }
}

#[test]
fn codex_is_searched_in_order() {
    assert_eq!(
        codex_candidates(environment(true, true, 2, true)),
        vec![
            path(PathBase::CodexOverride, &[]),
            path(PathBase::ExecutableDir, &["codex"]),
            path(PathBase::ExecutableDir, &["codex.exe"]),
            path(PathBase::SearchDir(0), &["codex"]),
            path(PathBase::SearchDir(0), &["codex.exe"]),
            path(PathBase::SearchDir(1), &["codex"]),
            path(PathBase::SearchDir(1), &["codex.exe"]),
            path(PathBase::Plain, &["/opt/homebrew/bin/codex"]),
            path(PathBase::Plain, &["/usr/local/bin/codex"]),
            path(PathBase::Home, &[".local/bin/codex"]),
            path(PathBase::Home, &[".codex/bin/codex"]),
            path(PathBase::Home, &[".codex/bin/codex.exe"]),
            path(PathBase::Home, &[".codex/current/bin/codex"]),
            path(PathBase::Home, &[".codex/current/bin/codex.exe"]),
        ]
    );
    assert_eq!(codex_candidates(environment(false, false, 0, false)).len(), 2);
}

#[test]
fn the_first_codex_that_is_there_is_taken() {
    let found = find_codex_binary(environment(true, true, 0, false), &[false, false, true, true, true]);
    assert_eq!(found, Some(path(PathBase::ExecutableDir, &["codex.exe"])));
    assert_eq!(find_codex_binary(environment(false, false, 0, false), &[false, false]), None);
    assert_eq!(codex_binary(None), path(PathBase::Plain, &["codex"]));
    assert_eq!(codex_binary(home()), path(PathBase::Home, &[]));
}

#[test]
fn the_home_directory_has_two_names() {
    assert_eq!(home_dir(Some(1), Some(2)), Some(1));
    assert_eq!(home_dir(None, Some(2)), Some(2));
    assert_eq!(home_dir::<u8>(None, None), None);
}

fn result(success: bool, stdout: &[u8], stderr: &[u8]) -> Result<CommandResult, String> {
    Ok(CommandResult { success, stdout: stdout.to_vec(), stderr: stderr.to_vec() })
}

#[test]
fn codex_commands_have_their_arguments() {
    assert_eq!(command_arguments(CodexCommand::Version), vec!["--version"]);
    assert_eq!(command_arguments(CodexCommand::LoginStatus), vec!["login", "status"]);
    assert_eq!(command_arguments(CodexCommand::Login), vec!["login"]);
    assert_eq!(command_arguments(CodexCommand::Logout), vec!["logout"]);
}

#[test]
fn a_command_says_what_it_printed() {
    assert_eq!(command_output(result(true, b" out \n", b"err")), Ok((true, "out".to_string())));
    assert_eq!(command_output(result(false, b" \n", b" err ")), Ok((false, "err".to_string())));
    assert_eq!(command_output(result(true, b"a\xffb", b"")), Ok((true, "a\u{fffd}b".to_string())));
    assert_eq!(command_output(Err("no".to_string())), Err("no".to_string()));
    assert_eq!(command_detail("", " x"), "x");
}

#[test]
fn the_version_is_told() {
    assert_eq!(codex_version(Ok((true, "codex 1".to_string()))), "codex 1");
    assert_eq!(codex_version(Ok((false, "usage".to_string()))), "usage");
    assert_eq!(codex_version(Err("no".to_string())), "");
}

#[test]
fn the_sign_in_is_told() {
    let status = |success: bool, said: &str| codex_auth_status(Ok((success, said.to_string())));
    assert_eq!(status(true, "Logged in"), (true, "Logged in".to_string()));
    assert_eq!(status(true, ""), (true, "Connected to Codex".to_string()));
    assert_eq!(status(false, ""), (false, "Sign in to your Codex account".to_string()));
    assert_eq!(status(false, "Not logged in"), (false, "Not logged in".to_string()));
    assert_eq!(
        codex_auth_status(Err("no".to_string())),
        (false, "Unable to check Codex authentication: no".to_string())
    );
}

#[test]
fn one_sign_in_runs_at_a_time() {
    let mut login = LoginProgress::new();
    assert_eq!(
        login.begin_codex_login(false),
        LoginStart::Refused("Codex is not installed.".to_string())
    );
    assert_eq!(login.begin_codex_login(true), LoginStart::Run);
    assert_eq!(login.message, "Complete sign-in in the browser opened by OpenAI.");
    assert_eq!(login.begin_codex_login(true), LoginStart::UnderWay);
    login.finish(result(true, b"", b"ignored"));
    assert!(!login.in_progress);
    assert_eq!(login.message, "Codex account connected.");
    login.finish(result(false, b"ignored", b" why "));
    assert_eq!(login.message, "why");
    login.finish(result(false, b"ignored", b" "));
    assert_eq!(login.message, "Codex sign-in did not complete.");
    login.finish(Err("no".to_string()));
    assert_eq!(login.message, "Unable to start Codex sign-in: no");
    assert_eq!(login_message(false, " x "), "x");
}

#[test]
fn a_saved_preference_reads_back() {
    for enabled in [true, false] {
        let bytes = save_launch_preference(enabled).unwrap();
        let text = String::from_utf8(bytes).unwrap();
        assert_eq!(text, format!("{{\n  \"launchAtLogin\": {}\n}}", enabled));
        assert_eq!(load_launch_preference(Some(&text)), enabled);
    }
}

#[test]
fn the_connector_starts_at_sign_in_unless_told_otherwise() {
    assert!(load_launch_preference(None));
    assert!(load_launch_preference(Some("nonsense")));
    assert!(load_launch_preference(Some("{}")));
    assert!(load_launch_preference(Some("{\"launchAtLogin\":\"no\"}")));
    assert!(!load_launch_preference(Some("{\"launchAtLogin\":false}")));
    assert!(!launch_preference_in(&parse_json(b"{\"launchAtLogin\":false}")));
}

#[test]
fn xml_text_is_escaped() {
    assert_eq!(xml_escape("/a & <b>\"c\"'d'"), "/a &amp; &lt;b&gt;&quot;c&quot;&apos;d&apos;");
    assert_eq!(xml_escape("&lt;"), "&amp;lt;");
    assert_eq!(xml_escape(""), "");
}

#[test]
fn the_launch_agent_starts_the_executable() {
    assert_eq!(
        launch_agent("/Apps/A&B"),
        "<?xml version=\"1.0\" encoding=\"UTF-8\"?>\n<!DOCTYPE plist PUBLIC \"-//Apple//DTD PLIST 1.0//EN\" \"http://www.apple.com/DTDs/PropertyList-1.0.dtd\">\n<plist version=\"1.0\"><dict><key>Label</key><string>ai.marketstate.codex-connector</string><key>ProgramArguments</key><array><string>/Apps/A&amp;B</string><string>--background</string></array><key>RunAtLoad</key><true/></dict></plist>\n"
    );
}

fn agent() -> LocalPath {
    path(PathBase::Home, &["Library/LaunchAgents", "ai.marketstate.codex-connector.plist"])
}

#[test]
fn the_launch_agent_has_its_place() {
    assert_eq!(autostart_file(&home()), Ok(agent()));
    assert_eq!(
        autostart_file(&None),
        Err("Unable to locate the home directory.".to_string())
    );
}

#[test]
fn start_at_sign_in_is_switched_on_macos() {
    match set_os_autostart(Platform::MacOs, true, &home(), Ok("/c".to_string())) {
        Ok(AutostartChange::WriteFile { directory, path: file, contents }) => {
            assert_eq!(directory, path(PathBase::Home, &["Library/LaunchAgents"]));
            assert_eq!(file, agent());
            assert_eq!(contents, launch_agent("/c"));
        }
        _ => panic!("expected a file"),
    }
    match set_os_autostart(Platform::MacOs, false, &home(), Err("unused".to_string())) {
        Ok(AutostartChange::RemoveFile(file)) => assert_eq!(file, agent()),
        _ => panic!("expected a removal"),
    }
    let error = |enabled: bool, home: &Option<LocalPath>| {
        set_os_autostart(Platform::MacOs, enabled, home, Err("no exe".to_string())).err()
    };
    assert_eq!(error(true, &home()), Some("no exe".to_string()));
    assert_eq!(error(true, &None), Some("Unable to locate the home directory.".to_string()));
    assert_eq!(error(false, &None), Some("Unable to locate the home directory.".to_string()));
}

#[test]
fn start_at_sign_in_is_switched_on_windows() {
    let key = r"HKCU\Software\Microsoft\Windows\CurrentVersion\Run";
    match set_os_autostart(Platform::Windows, true, &None, Ok(r"C:\a b\c.exe".to_string())) {
        Ok(AutostartChange::Registry(arguments)) => assert_eq!(
            arguments,
            vec![
                "add",
                key,
                "/v",
                "MarketStateCodexConnector",
                "/t",
                "REG_SZ",
                "/d",
                "\"C:\\a b\\c.exe\" --background",
                "/f",
            ]
        ),
        _ => panic!("expected the registry"),
    }
    match set_os_autostart(Platform::Windows, false, &None, Err("unused".to_string())) {
        Ok(AutostartChange::Registry(arguments)) => {
            assert_eq!(arguments, vec!["delete", key, "/v", "MarketStateCodexConnector", "/f"])
        }
        _ => panic!("expected the registry"),
    }
    let refused = set_os_autostart(Platform::Windows, true, &None, Err("no exe".to_string()));
    assert_eq!(refused.err(), Some("no exe".to_string()));
    assert_eq!(registry_outcome(true, Ok(true)), Ok(()));
    assert_eq!(registry_outcome(false, Ok(false)), Ok(()));
    assert_eq!(
        registry_outcome(true, Ok(false)),
        Err("Windows could not enable launch at login.".to_string())
    );
    assert_eq!(registry_outcome(false, Err("no".to_string())), Err("no".to_string()));
}

#[test]
fn other_machines_have_no_start_at_sign_in() {
    let refused = set_os_autostart(Platform::Other, true, &home(), Ok("/c".to_string()));
    assert_eq!(
        refused.err(),
        Some("Launch at login is currently supported on macOS and Windows.".to_string())
    );
    assert!(matches!(os_autostart_enabled(Platform::Other, &home()), AutostartProbe::Never));
}

#[test]
fn start_at_sign_in_is_looked_for() {
    match os_autostart_enabled(Platform::MacOs, &home()) {
        AutostartProbe::FileExists(file) => assert_eq!(file, agent()),
        _ => panic!("expected a file"),
    }
    assert!(matches!(os_autostart_enabled(Platform::MacOs, &None), AutostartProbe::Never));
    match os_autostart_enabled(Platform::Windows, &None) {
        AutostartProbe::Registry(arguments) => assert_eq!(
            arguments,
            vec![
                "query",
                r"HKCU\Software\Microsoft\Windows\CurrentVersion\Run",
                "/v",
                "MarketStateCodexConnector",
            ]
        ),
        _ => panic!("expected the registry"),
    }
}

#[test]
fn the_service_listens_on_the_loopback_address() {
    assert_eq!(CONNECTOR_ENDPOINT, format!("http://{}:{}", CONNECTOR_HOST, CONNECTOR_PORT));
}

#[test]
fn the_service_is_started_and_stopped() {
    let mut bridge = BridgeService::new();
    bridge.last_error = "old".to_string();
    let actions = bridge.prepare_start();
    assert_eq!(actions, StopActions { end_listener: false, cancel_requests: true });
    assert_eq!(bridge.last_error, "");
    assert_eq!(bridge.start(ListenAttempt::Listening), Ok(()));
    assert!(bridge.listening && !bridge.externally_managed);
    assert_eq!(bridge.restart_connector(), Ok(()));
    assert_eq!(bridge.stop(), StopActions { end_listener: true, cancel_requests: true });
    assert!(!bridge.listening);
}

#[test]
fn another_listener_is_left_alone() {
    let mut bridge = BridgeService::new();
    assert_eq!(bridge.start(ListenAttempt::EndpointOpen), Ok(()));
    assert!(bridge.externally_managed && !bridge.listening);
    assert_eq!(
        bridge.restart_connector(),
        Err("Another local bridge owns port 8765. Close it before restarting this connector."
            .to_string())
    );
    assert_eq!(bridge.stop(), StopActions { end_listener: false, cancel_requests: false });
    assert!(!bridge.externally_managed);
}

#[test]
fn a_service_that_does_not_start_tells_why() {
    let mut bridge = BridgeService::new();
    assert_eq!(
        bridge.start(ListenAttempt::BindFailed("in use".to_string())),
        Err("Unable to start the connector: in use".to_string())
    );
    let failed = bridge.start(ListenAttempt::SetupFailed("odd".to_string()));
    assert_eq!(failed, Err("Unable to configure the connector: odd".to_string()));
    assert!(!bridge.listening && !bridge.externally_managed);
    bridge.note_startup(Some(failed));
    assert_eq!(bridge.last_error, "Unable to configure the connector: odd");
    bridge.note_startup(Some(Ok(())));
    assert_eq!(bridge.last_error, "Unable to configure the connector: odd");
    bridge.note_startup(None);
    assert_eq!(bridge.last_error, "Codex is not installed.");
}

#[test]
fn the_listener_serves_this_machine_only() {
    let loopback = Arrival::Connection { loopback: true };
    assert_eq!(listen_step(false, loopback), ListenStep::Serve);
    assert_eq!(listen_step(false, Arrival::Connection { loopback: false }), ListenStep::Drop);
    assert_eq!(listen_step(false, Arrival::Nobody), ListenStep::Sleep(40));
    assert_eq!(listen_step(false, Arrival::Failed), ListenStep::Sleep(100));
    assert_eq!(listen_step(true, loopback), ListenStep::End);
}

#[test]
fn the_window_shows_the_state() {
    let mut bridge = BridgeService::new();
    bridge.externally_managed = true;
    bridge.last_error = "e".to_string();
    let mut login = LoginProgress::new();
    let owner = OwnerState::new(Some(OwnerBinding {
        user_id: "u".to_string(),
        email: "a@b.c".to_string(),
    }));
    let told = || {
        Some(CodexTold {
            version: "1".to_string(),
            authenticated: true,
            auth_status: "in".to_string(),
        })
    };
    let status = connector_status(true, &bridge, &login, &owner, told(), true);
    assert!(status.service_running && status.externally_managed && status.codex_found);
    assert!(status.authenticated && status.launch_at_login && status.owner_bound);
    assert!(!status.login_in_progress);
    assert_eq!(status.endpoint, "http://127.0.0.1:8765");
    assert_eq!(
        (status.codex_version.as_str(), status.auth_status.as_str()),
        ("1", "in")
    );
    assert_eq!((status.last_error.as_str(), status.owner_email.as_str()), ("e", "a@b.c"));

    login.begin_codex_login(true);
    let status = connector_status(false, &bridge, &login, &owner, told(), false);
    assert_eq!(status.auth_status, "Complete sign-in in the browser opened by OpenAI.");
    assert!(status.login_in_progress);

    login.finish(Err("no".to_string()));
    let status = connector_status(false, &bridge, &login, &OwnerState::new(None), None, false);
    assert!(!status.codex_found && !status.authenticated && !status.owner_bound);
    assert_eq!(status.auth_status, "Codex is not installed.");
    assert_eq!((status.codex_version.as_str(), status.owner_email.as_str()), ("", ""));
}

#[test]
fn the_installation_page_is_opened() {
    let url = "https://github.com/openai/codex#quickstart";
    let open = |platform: Platform| open_command(platform);
    assert_eq!(open(Platform::MacOs), ("open".to_string(), vec![url.to_string()]));
    assert_eq!(open(Platform::Other), ("xdg-open".to_string(), vec![url.to_string()]));
    let (program, arguments) = open(Platform::Windows);
    assert_eq!(program, "cmd.exe");
    assert_eq!(arguments, vec!["/C", "start", "", url]);
    assert_eq!(open_codex_install(Ok(true)), Ok(()));
    assert_eq!(
        open_codex_install(Ok(false)),
        Err("Unable to open the Codex installation page.".to_string())
    );
    assert_eq!(open_codex_install(Err("no".to_string())), Err("no".to_string()));
}

#[test]
fn the_window_stays_away_in_the_background() {
    assert!(starts_in_background(&vec!["app".to_string(), "--background".to_string()]));
    assert!(!starts_in_background(&vec!["app".to_string(), "--Background".to_string()]));
    assert!(!starts_in_background(&Vec::new()));
}
