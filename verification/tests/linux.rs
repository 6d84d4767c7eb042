use hbb_common::platform::command_line::CommandLine;
use hbb_common::platform::linux::command::trim_newline;
use hbb_common::platform::linux::display::{OutputInfo, OutputMode};
use hbb_common::platform::linux::display_server::{DisplayServerAction, DisplayServerEvent};
use hbb_common::platform::linux::seat::{SeatAction, SeatAnswer, SeatSearch};
use hbb_common::platform::linux::session::{
    ignore_loginctl_line, line_values, says_active, says_active_and_seat0, says_locked,
    server_from_report,
};
use hbb_common::platform::linux::{
    detect_desktop_environment, detect_kwallet_service, find_cmd_path, get_display_server,
    get_display_server_of_session, get_home_dir_trusted, get_values_of_seat0,
    get_values_of_seat0_with_gdm_wayland, get_wayland_displays, is_active, is_active_and_seat0,
    is_desktop_wayland, is_flatpak, is_gdm_user, is_kde, is_kde_session, is_session_locked,
    is_x11_or_headless, linux_secret_backend, load_secret, loginctl_args, run_cmds,
    run_cmds_trim_newline,
    run_loginctl, shell_command, shell_quote, store_secret, system_message, DesktopEnv,
    DesktopEnvironment, Distro, KWalletService, LinuxSecretBackend, LinuxSecretStore,
    SessionQuery, SESSION_ID_CMD,
};

#[test]
fn test_run_cmds_trim_newline() {
    assert_eq!(run_cmds_trim_newline(b"123"), "123");
    assert_eq!(run_cmds_trim_newline(b"123\n"), "123");
    assert_eq!(run_cmds_trim_newline(b"root\n") + "\n", run_cmds(b"root\n"));
    assert_eq!(run_cmds_trim_newline(b"123\n\n"), "123\n");
    assert_eq!(run_cmds_trim_newline(b""), "");
    assert_eq!(run_cmds(b"a\xff"), "a\u{fffd}");
    assert_eq!(trim_newline("ä\n"), "ä");
}

#[test]
fn test_get_home_dir_trusted() {
    assert_eq!(get_home_dir_trusted(Some("/home/user"), true), Some("/home/user"));
    assert_eq!(get_home_dir_trusted(Some("/home/user"), false), None);
    assert_eq!(get_home_dir_trusted::<&str>(None, true), None);
}

/// Test shell_quote with normal strings
#[test]
fn test_shell_quote_normal() {
    assert_eq!(shell_quote("hello"), "'hello'");
    assert_eq!(shell_quote("/home/user"), "'/home/user'");
}

/// Test shell_quote with spaces
#[test]
fn test_shell_quote_spaces() {
    assert_eq!(shell_quote("/home/my user/file"), "'/home/my user/file'");
    assert_eq!(shell_quote("path with spaces"), "'path with spaces'");
}

/// Test shell_quote with single quotes (the tricky case)
#[test]
fn test_shell_quote_single_quotes() {
    assert_eq!(shell_quote("it's"), "'it'\\''s'");
    assert_eq!(shell_quote("don't stop"), "'don'\\''t stop'");
}

/// Test shell_quote with shell metacharacters
#[test]
fn test_shell_quote_metacharacters() {
    // These should all be safely quoted
    assert_eq!(shell_quote("test;rm -rf /"), "'test;rm -rf /'");
    assert_eq!(shell_quote("$(whoami)"), "'$(whoami)'");
    assert_eq!(shell_quote("`id`"), "'`id`'");
    assert_eq!(shell_quote("a && b"), "'a && b'");
    assert_eq!(shell_quote("a | b"), "'a | b'");
}

#[test]
fn shell_quote_of_quotes_alone() {
    assert_eq!(shell_quote(""), "''");
    assert_eq!(shell_quote("''"), "''\\'''\\'''");
}

fn env(
    xdg_current_desktop: Option<&str>,
    desktop_session: Option<&str>,
    kde_session_version: Option<&str>,
) -> DesktopEnv {
    DesktopEnv {
        xdg_current_desktop: xdg_current_desktop.map(str::to_string),
        desktop_session: desktop_session.map(str::to_string),
        has_gnome_desktop_session_id: false,
        has_kde_full_session: false,
        has_kde_session_version: kde_session_version.is_some(),
        kde_session_version: kde_session_version.map(str::to_string),
    }
}

#[test]
fn test_detect_kwallet_service_from_xdg_current_desktop() {
    let desktop = env(Some("KDE"), None, Some("6"));
    assert_eq!(detect_kwallet_service(&desktop), KWalletService::KWallet6);
    assert_eq!(detect_desktop_environment(&desktop), DesktopEnvironment::Kde6);

    let desktop = env(Some("KDE"), None, Some("5"));
    assert_eq!(detect_kwallet_service(&desktop), KWalletService::KWallet5);
    assert_eq!(detect_desktop_environment(&desktop), DesktopEnvironment::Kde5);

    let desktop = env(Some("KDE"), None, Some("4"));
    assert_eq!(detect_kwallet_service(&desktop), KWalletService::Legacy);
    assert_eq!(detect_desktop_environment(&desktop), DesktopEnvironment::Kde4);
}

#[test]
fn test_detect_desktop_environment_from_desktop_session() {
    let desktop = env(None, Some("kde"), None);
    assert_eq!(detect_desktop_environment(&desktop), DesktopEnvironment::Kde3);
    assert_eq!(linux_secret_backend(&desktop), LinuxSecretBackend::SecretService);

    let desktop = env(None, Some("kde"), Some("6"));
    assert_eq!(detect_desktop_environment(&desktop), DesktopEnvironment::Kde4);
    assert_eq!(detect_kwallet_service(&desktop), KWalletService::Legacy);
    assert!(matches!(
        linux_secret_backend(&desktop),
        LinuxSecretBackend::KWallet(KWalletService::Legacy)
    ));

    let desktop = env(None, Some("gnome"), Some("6"));
    assert_eq!(detect_desktop_environment(&desktop), DesktopEnvironment::Other);
    assert_eq!(linux_secret_backend(&desktop), LinuxSecretBackend::SecretService);
}

#[test]
fn first_known_desktop_counts() {
    for (names, expected) in [
        (" ubuntu : KDE :GNOME", DesktopEnvironment::Kde5),
        ("GNOME:KDE", DesktopEnvironment::Other),
        ("::X-Cinnamon", DesktopEnvironment::Other),
        ("kde", DesktopEnvironment::Kde4),
        ("", DesktopEnvironment::Kde4),
    ] {
        let desktop = env(Some(names), Some(" kde4 "), Some(" 5 "));
        assert_eq!(detect_desktop_environment(&desktop), expected, "{names}");
    }
    for (session, expected) in [
        ("kde-plasma", DesktopEnvironment::Kde4),
        ("xubuntu", DesktopEnvironment::Other),
        ("my-xfce-session", DesktopEnvironment::Other),
    ] {
        let mut desktop = env(None, Some(session), None);
        desktop.has_kde_full_session = true;
        assert_eq!(detect_desktop_environment(&desktop), expected, "{session}");
    }
    let mut desktop = env(None, Some("unknown"), None);
    assert_eq!(detect_desktop_environment(&desktop), DesktopEnvironment::Other);
    desktop.has_kde_full_session = true;
    assert_eq!(detect_desktop_environment(&desktop), DesktopEnvironment::Kde3);
    desktop.has_kde_session_version = true;
    assert_eq!(detect_desktop_environment(&desktop), DesktopEnvironment::Kde4);
    desktop.has_gnome_desktop_session_id = true;
    assert_eq!(detect_desktop_environment(&desktop), DesktopEnvironment::Other);
}

#[test]
fn secrets_are_stored_where_they_are_loaded_from() {
    let kde = env(Some("KDE"), None, Some("5"));
    assert_eq!(load_secret(true, &kde), LinuxSecretStore::FlatpakPortal);
    assert_eq!(load_secret(false, &kde), LinuxSecretStore::KWallet(KWalletService::KWallet5));
    assert_eq!(store_secret(false, &kde), load_secret(false, &kde));
    assert_eq!(store_secret(false, &env(None, None, None)), LinuxSecretStore::SecretService);
    assert!(is_flatpak(true) && !is_flatpak(false));
}

#[test]
fn wallet_services_have_names() {
    for (service, n) in [
        (KWalletService::Legacy, ""),
        (KWalletService::KWallet5, "5"),
        (KWalletService::KWallet6, "6"),
    ] {
        assert_eq!(service.service_name(), format!("org.kde.kwalletd{n}"));
        assert_eq!(service.path(), format!("/modules/kwalletd{n}"));
        assert_eq!(service.daemon_name(), format!("kwalletd{n}"));
    }
}

#[test]
fn words_of_a_line() {
    let line = "  2  1000 user  seat0 tty2 ";
    assert_eq!(line_values(&[0, 2, 9], line), ["2", "user", ""]);
    assert!(line_values(&[], line).is_empty());
    assert_eq!(line_values(&[0], ""), [""]);
}

#[test]
fn lines_that_are_no_sessions() {
    assert!(ignore_loginctl_line("3 sessions listed."));
    assert!(ignore_loginctl_line("a b sessions c d"));
    assert!(ignore_loginctl_line("1 2 3"));
    assert!(!ignore_loginctl_line("1 2 3 4"));
    assert!(!ignore_loginctl_line("   x"));
}

#[test]
fn session_reports() {
    assert!(is_active(Some(b"State=active\n")));
    assert!(!is_active(Some(b"State=online\n")));
    assert!(!is_active(None));
    assert!(says_active("inactive"));
    assert!(is_active_and_seat0(Some(b"Seat=seat0\nState=active\n")));
    assert!(!is_active_and_seat0(Some(b"Seat=seat1\nState=active\n")));
    assert!(!is_active_and_seat0(None));
    assert!(says_active_and_seat0("State=active Seat=seat0"));
    assert!(is_session_locked(Some(b"LockedHint=yes\n")));
    assert!(!is_session_locked(Some(b"LockedHint=no\n")));
    assert!(!is_session_locked(None));
    assert!(says_locked("LockedHint=yes"));
    assert!(is_gdm_user("gdm") && is_gdm_user("sddm") && !is_gdm_user("lightgdm"));
}

#[test]
fn display_server_of_a_session() {
    assert_eq!(get_display_server_of_session(Some(b"Type=Wayland\n"), None), "wayland");
    assert_eq!(get_display_server_of_session(Some(b"Type=x11\n"), Some("wayland")), "x11");
    assert_eq!(get_display_server_of_session(Some(b"Type=tty\n"), Some("Wayland")), "wayland");
    assert_eq!(get_display_server_of_session(Some(b"Type=unspecified\n"), Some("")), "x11");
    assert_eq!(get_display_server_of_session(Some(b"\n"), None), "x11");
    assert_eq!(get_display_server_of_session(None, None), "x11");
    assert_eq!(get_display_server_of_session(None, Some("ÄX")), "äx");
    assert_eq!(server_from_report(Some("Type=Type=mir"), None), "mir");
    assert!(is_desktop_wayland("wayland") && !is_desktop_wayland("x11"));
    assert!(is_x11_or_headless("") && !is_x11_or_headless("wayland"));
}

const LIST: &[u8] = b"SESSION  UID USER SEAT  TTY
     c1   42 gdm  seat0 tty1
      2 1000 user seat0 tty2
      3 1001 root -     pts/0

3 sessions listed.
";

struct Machine {
    active: &'static [&'static str],
    wayland: &'static [&'static str],
    tty: &'static [&'static str],
}

impl Machine {
    fn run(&self, begun: (SeatSearch, SeatAction)) -> Vec<String> {
        let (mut search, mut action) = begun;
        loop {
            action = match action {
                SeatAction::AskActive(sid) => {
                    let active = self.active.contains(&sid.as_str());
                    search.step(SeatAnswer::Active(active))
                }
                SeatAction::AskServer(sid) => {
                    let server = if self.wayland.contains(&sid.as_str()) {
                        "wayland"
                    } else if self.tty.contains(&sid.as_str()) {
                        "tty"
                    } else {
                        "x11"
                    };
                    search.step(SeatAnswer::Server(server.to_string()))
                }
                SeatAction::Finish(values) => return values,
            };
        }
    }
}

#[test]
fn session_at_the_first_seat() {
    let both = Machine { active: &["c1", "2", "3"], wayland: &["c1"], tty: &[] };
    assert_eq!(both.run(get_values_of_seat0(&[0, 2], Some(LIST))), ["2", "user"]);
    assert_eq!(
        both.run(get_values_of_seat0_with_gdm_wayland(&[0, 2], Some(LIST))),
        ["c1", "gdm"]
    );
    let greeter_on_x11 = Machine { active: &["c1", "2"], wayland: &[], tty: &[] };
    assert_eq!(greeter_on_x11.run(get_values_of_seat0(&[0], Some(LIST))), ["c1"]);
    let tty_at_the_seat = Machine { active: &["2"], wayland: &[], tty: &["2"] };
    assert_eq!(tty_at_the_seat.run(get_values_of_seat0(&[0], Some(LIST))), ["2"]);
}

#[test]
fn values_of_a_session_go_by_index() {
    let machine = Machine { active: &["2"], wayland: &[], tty: &[] };
    let values = |indices: &[usize]| machine.run(get_values_of_seat0(indices, Some(LIST)));
    let mut joined = values(&[2, 0]);
    joined.extend(values(&[7, 1]));
    assert_eq!(values(&[2, 0, 7, 1]), joined);
    assert_eq!(joined, ["user", "2", "", "1000"]);
}

#[test]
fn searches_agree_where_no_greeter_is_on_wayland() {
    let agree = |machine: Machine| {
        assert_eq!(
            machine.run(get_values_of_seat0(&[0, 2], Some(LIST))),
            machine.run(get_values_of_seat0_with_gdm_wayland(&[0, 2], Some(LIST)))
        );
    };
    for active in [&["c1", "2", "3"][..], &["2"], &["3"], &[]] {
        agree(Machine { active, wayland: &["2", "3"], tty: &[] });
    }
    // A greeter on Wayland that is not active does not count.
    agree(Machine { active: &["2"], wayland: &["c1"], tty: &[] });
}

#[test]
fn session_at_no_seat() {
    let remote = Machine { active: &["3"], wayland: &[], tty: &[] };
    assert_eq!(remote.run(get_values_of_seat0(&[0, 1], Some(LIST))), ["3", "1001"]);
    let remote_tty = Machine { active: &["3"], wayland: &[], tty: &["3"] };
    assert_eq!(remote_tty.run(get_values_of_seat0(&[0, 1], Some(LIST))), ["", ""]);
    let none = Machine { active: &[], wayland: &[], tty: &[] };
    assert_eq!(none.run(get_values_of_seat0(&[0], Some(LIST))), [""]);
    assert_eq!(none.run(get_values_of_seat0(&[0, 1], None)), ["", ""]);
    let greeter_only = Machine { active: &["c1"], wayland: &["c1"], tty: &[] };
    assert_eq!(greeter_only.run(get_values_of_seat0(&[0], Some(LIST))), [""]);
}

#[test]
fn display_server_is_found_step_by_step() {
    let finish = |event| match get_display_server(event) {
        DisplayServerAction::Finish(server) => server,
        _ => panic!("more is asked"),
    };
    let ask = |event| match get_display_server(event) {
        DisplayServerAction::AskType(sid) => sid,
        _ => panic!("something else is asked"),
    };
    assert_eq!(finish(DisplayServerEvent::Asked { forced: Some("mir") }), "mir");
    assert!(matches!(
        get_display_server(DisplayServerEvent::Asked { forced: None }),
        DisplayServerAction::RunLoginctl
    ));
    assert_eq!(finish(DisplayServerEvent::LoginctlRan(false)), "x11");
    assert!(matches!(
        get_display_server(DisplayServerEvent::LoginctlRan(true)),
        DisplayServerAction::SearchSeat0
    ));
    assert_eq!(
        ask(DisplayServerEvent::Seat0 { session: "2", xdg_session_id: Some("3") }),
        "2"
    );
    assert_eq!(
        ask(DisplayServerEvent::Seat0 { session: "", xdg_session_id: Some("3") }),
        "3"
    );
    assert!(matches!(
        get_display_server(DisplayServerEvent::Seat0 { session: "", xdg_session_id: Some("") }),
        DisplayServerAction::ReadProcSession
    ));
    let proc_session = |session, xdg_session_type| DisplayServerEvent::ProcSession {
        proc_session: session,
        xdg_session_type,
    };
    assert_eq!(ask(proc_session(Some("7"), None)), "7");
    assert_eq!(finish(proc_session(Some("4294967295"), Some("Wayland"))), "Wayland");
    assert_eq!(finish(proc_session(None, None)), "x11");
    assert_eq!(
        finish(DisplayServerEvent::Reported {
            report: Some("Type=wayland\n"),
            xdg_session_type: None
        }),
        "wayland"
    );
}

fn line(program: &str, args: &[&str]) -> CommandLine {
    CommandLine {
        program: program.to_string(),
        args: args.iter().map(|a| a.to_string()).collect(),
    }
}

#[test]
fn sessions_are_asked_about() {
    assert_eq!(loginctl_args(SessionQuery::State, "4"), ["show-session", "-p", "State", "4"]);
    assert_eq!(loginctl_args(SessionQuery::Type, "4"), ["show-session", "-p", "Type", "4"]);
    assert_eq!(loginctl_args(SessionQuery::Properties, "4"), ["show-session", "4"]);
    assert_eq!(
        loginctl_args(SessionQuery::LockedHint, "4"),
        ["show-session", "4", "--property=LockedHint"]
    );
    assert_eq!(
        shell_command("/bin/sh", SESSION_ID_CMD),
        line("/bin/sh", &["-c", "cat /proc/self/sessionid"])
    );
}

#[test]
fn loginctl_is_tried_on_the_host_first() {
    let args = ["show-session", "-p", "Type", "2"];
    assert_eq!(run_loginctl(false, "/bin/loginctl", Some(&args)), [line("/bin/loginctl", &args)]);
    assert_eq!(
        run_loginctl(true, "loginctl", Some(&args)),
        [
            line("flatpak-spawn", &["--host", "loginctl show-session -p Type 2"]),
            line("loginctl", &args),
        ]
    );
    assert_eq!(
        run_loginctl(true, "loginctl", None),
        [line("flatpak-spawn", &["--host", "loginctl"]), line("loginctl", &[])]
    );
}

#[test]
fn commands_that_show_a_message() {
    assert_eq!(
        system_message("T", "M", false),
        [
            line("notify-send", &["T", "M"]),
            line("zenity", &["--info", "--timeout", "3", "--title", "T", "--text", "M"]),
            line("kdialog", &["--title", "T", "--msgbox", "M"]),
            line("xmessage", &["-center", "-timeout", "3", "T", "M"]),
        ]
    );
    assert_eq!(system_message("T", "M", true)[3].args[2], "0");
}

#[test]
fn path_of_a_command() {
    assert_eq!(find_cmd_path("ps", true, true, None), "/bin/ps");
    assert_eq!(find_cmd_path("ps", false, true, None), "/usr/bin/ps");
    assert_eq!(find_cmd_path("ps", false, false, Some(b" /opt/ps\n")), "/opt/ps");
    assert_eq!(find_cmd_path("ps", false, false, None), "ps");
}

#[test]
fn distribution() {
    let distro = Distro::new(Some("\"Ubuntu\"\n"), Some(" 22.04\n"));
    assert_eq!(distro.name, "Ubuntu");
    assert_eq!(distro.version_id, "22.04");
    assert_eq!(Distro::new(None, Some("\"\"")).name, "");
}

#[test]
fn kde() {
    assert!(is_kde(Some("KDE")) && !is_kde(Some("kde")) && !is_kde(None));
    assert!(is_kde_session(Some(b"123\n")) && !is_kde_session(Some(b"")) && !is_kde_session(None));
}

#[test]
fn displays_are_outputs_with_a_current_mode() {
    let mode = |w, h, current| OutputMode { dimensions: (w, h), refresh_rate: 60_000, current };
    let outputs = [
        OutputInfo {
            name: Some("eDP-1".to_string()),
            location: (1, 2),
            logical_size: Some((960, 540)),
            modes: vec![mode(800, 600, false), mode(1920, 1080, true), mode(1, 1, true)],
        },
        OutputInfo { name: None, location: (0, 0), logical_size: None, modes: vec![] },
        OutputInfo {
            name: None,
            location: (-5, 0),
            logical_size: None,
            modes: vec![mode(640, 480, true)],
        },
    ];
    let displays = get_wayland_displays(&outputs);
    assert_eq!(displays.len(), 2);
    assert_eq!(displays[0].name, "eDP-1");
    assert_eq!((displays[0].x, displays[0].y), (1, 2));
    assert_eq!((displays[0].width, displays[0].height), (1920, 1080));
    assert_eq!(displays[0].logical_size, Some((960, 540)));
    assert_eq!(displays[0].refresh_rate, 60_000);
    assert_eq!(displays[1].name, "");
    assert_eq!((displays[1].x, displays[1].width), (-5, 640));
}
