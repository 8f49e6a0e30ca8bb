use ksx_backend::studio_launch::{after_read, read_budget, ReadNext, MAX_HEALTH_RESPONSE_BYTES};
use std::path::PathBuf;

use ksx_backend::studio_launch::{
    app_argv, chromium, choose_window, health_is_live, profile_dir, show_outcome, url, wait_step,
    ExeLookup, LauncherEnvironment, LauncherHealth, LauncherSetup, LauncherStaged, Piece, Waiting, Window, PORT,
};

/// A machine with these executables installed, recording every lookup.
struct Installed {
    found: Vec<(&'static str, PathBuf)>,
    asked: Vec<String>,
}

impl Installed {
    fn with(found: Vec<(&'static str, PathBuf)>) -> Self {
        Installed { found, asked: Vec::new() }
    }
}

impl ExeLookup for Installed {
    fn find(&mut self, exe: &str) -> Option<PathBuf> {
        self.asked.push(exe.to_owned());
        self.found.iter().find(|(name, _)| *name == exe).map(|(_, path)| path.clone())
    }
}

fn profile() -> PathBuf {
    profile_dir(&PathBuf::from(r"C:\Users\TestUser\AppData\Local"))
}

#[test]
fn the_browser_profile_lives_under_local_appdata_and_belongs_to_ksx() {
    let local = PathBuf::from(r"C:\Users\TestUser\AppData\Local");
    let dir = profile_dir(&local);
    assert!(dir.starts_with(&local), "{}", dir.display());
    assert!(dir.starts_with(local.join("ksx")), "{}", dir.display());
    assert_ne!(dir, local.join("ksx"), "the profile is not the ksx root");
    let text = dir.display().to_string();
    assert!(!text.contains("Roaming"), "{text}");
    assert!(!text.contains("Google"), "{text}");
}

#[test]
fn the_window_opens_the_address_the_module_publishes() {
    let argv = app_argv(&url(), &PathBuf::from(r"C:\p"));
    assert_eq!(argv[0], format!("--app={}", url()));
    assert!(argv[0].contains(&PORT.to_string()));
}

#[test]
fn the_published_address_is_the_workbench_on_the_studio_port() {
    assert_eq!(url(), "http://127.0.0.1:4460/redesign");
}

#[test]
fn the_window_is_an_app_window_in_a_profile_ksx_owns() {
    let mut resolve = Installed::with(vec![("msedge.exe", PathBuf::from(r"C:\Program Files\msedge.exe"))]);
    let window = choose_window(&url(), Ok(profile()), &mut resolve);
    let Window::App { browser, exe, argv } = window else {
        panic!("Edge is installed in this fixture; expected an app window");
    };
    assert_eq!(browser, "Microsoft Edge");
    assert_eq!(exe, PathBuf::from(r"C:\Program Files\msedge.exe"));
    assert_eq!(
        argv,
        vec![
            "--app=http://127.0.0.1:4460/redesign".to_owned(),
            format!("--user-data-dir={}", profile().display()),
            "--no-first-run".to_owned(),
            "--no-default-browser-check".to_owned(),
        ]
    );
}

#[test]
fn edge_is_preferred_and_chrome_is_the_fallback() {
    let mut both = Installed::with(vec![
        ("msedge.exe", PathBuf::from("msedge.exe")),
        ("chrome.exe", PathBuf::from("chrome.exe")),
    ]);
    match choose_window(&url(), Ok(profile()), &mut both) {
        Window::App { browser, .. } => assert_eq!(browser, "Microsoft Edge"),
        other => panic!("expected an app window, got {other:?}"),
    }
    assert_eq!(both.asked.as_slice(), ["msedge.exe"]);

    let mut chrome_only = Installed::with(vec![("chrome.exe", PathBuf::from(r"C:\Program Files\chrome.exe"))]);
    match choose_window(&url(), Ok(profile()), &mut chrome_only) {
        Window::App { browser, exe, .. } => {
            assert_eq!(browser, "Google Chrome");
            assert_eq!(exe, PathBuf::from(r"C:\Program Files\chrome.exe"));
        }
        other => panic!("expected an app window, got {other:?}"),
    }
    assert_eq!(chrome_only.asked.as_slice(), ["msedge.exe", "chrome.exe"]);
}

#[test]
fn with_no_chromium_the_default_browser_is_used_and_the_user_is_told() {
    let mut none = Installed::with(Vec::new());
    let Window::DefaultBrowser { url: target, why } = choose_window(&url(), Ok(profile()), &mut none)
    else {
        panic!("nothing is installed in this fixture; expected the fallback");
    };
    assert_eq!(target, url());
    assert_eq!(
        why,
        "no Chromium browser is registered on this machine (looked for msedge.exe and chrome.exe)"
    );
    assert_eq!(none.asked.as_slice(), ["msedge.exe", "chrome.exe"]);
}

#[test]
fn without_a_ksx_owned_profile_there_is_no_app_window() {
    let mut all = Installed::with(vec![
        ("msedge.exe", PathBuf::from("msedge.exe")),
        ("chrome.exe", PathBuf::from("chrome.exe")),
    ]);
    let window = choose_window(&url(), Err("%LOCALAPPDATA% is not set".to_owned()), &mut all);
    let Window::DefaultBrowser { why, .. } = window else {
        panic!("a browser without a ksx profile must not get an app window");
    };
    assert_eq!(
        why,
        "ksx has no browser profile directory of its own (%LOCALAPPDATA% is not set)"
    );
    assert!(all.asked.is_empty());
}

#[test]
fn the_browser_list_is_edge_then_chrome() {
    let list = chromium();
    assert_eq!(list[0].exe, "msedge.exe");
    assert_eq!(list[0].name, "Microsoft Edge");
    assert_eq!(list[1].exe, "chrome.exe");
    assert_eq!(list[1].name, "Google Chrome");
}

fn live() -> LauncherHealth {
    LauncherHealth {
        environment: LauncherEnvironment {
            id: "live-machine".into(),
            label: "LIVE MACHINE · REAL HARDWARE".into(),
            detail: "Live providers read this computer's devices.".into(),
            fixture: false,
            generation: String::new(),
        },
        staged: LauncherStaged {
            reachable: false,
            error: Some("No daemon answered.".into()),
        },
        setup: None,
        setup_error: "Configuration could not be read. Reopen ksx and try again.".into(),
    }
}

#[test]
fn studio_readiness_accepts_the_live_health_contract_even_without_a_daemon() {
    assert!(health_is_live(&live()));
    let mut with_setup = live();
    with_setup.setup = Some(LauncherSetup {
        config_root: r"C:\Users\me\AppData\Roaming\ksx".into(),
    });
    with_setup.setup_error = String::new();
    with_setup.staged = LauncherStaged {
        reachable: true,
        error: None,
    };
    assert!(health_is_live(&with_setup));
}

#[test]
fn studio_readiness_rejects_a_fixture_and_incoherent_answers() {
    let mut fixture = live();
    fixture.environment.fixture = true;
    assert!(!health_is_live(&fixture));

    let mut other = live();
    other.environment.id = "demo".into();
    assert!(!health_is_live(&other));

    let mut blank_label = live();
    blank_label.environment.label = " \t ".into();
    assert!(!health_is_live(&blank_label));

    let mut generation = live();
    generation.environment.generation = "2".into();
    assert!(!health_is_live(&generation));

    let mut silent = live();
    silent.staged.error = Some("   ".into());
    assert!(!health_is_live(&silent));

    let mut both = live();
    both.setup = Some(LauncherSetup {
        config_root: "C:\\ksx".into(),
    });
    assert!(!health_is_live(&both), "a setup with an error is incoherent");
}

#[test]
fn the_outcome_of_opening_a_window_is_one_sentence() {
    let app = Window::App {
        browser: "Microsoft Edge",
        exe: PathBuf::from("msedge.exe"),
        argv: Vec::new(),
    };
    assert_eq!(show_outcome(&app, Ok(())), Ok("opened ksx in Microsoft Edge (msedge.exe)".to_owned()));
    assert_eq!(
        show_outcome(&app, Err("denied".into())),
        Err("could not start Microsoft Edge at msedge.exe: denied".to_owned())
    );
    let fallback = Window::DefaultBrowser { url: "http://127.0.0.1:4460/redesign".into(), why: "no Chromium".into() };
    assert_eq!(
        show_outcome(&fallback, Ok(())),
        Ok("no Chromium — opened http://127.0.0.1:4460/redesign in your default browser instead".to_owned())
    );
    assert_eq!(
        show_outcome(&fallback, Err("no handler".into())),
        Err("no Chromium, and the default browser could not be opened either: no handler (http://127.0.0.1:4460/redesign)".to_owned())
    );
}

#[test]
fn waiting_for_a_started_piece_is_bounded_and_says_where_to_look() {
    assert_eq!(wait_step(Piece::Daemon, true, true, 8), Waiting::Ready);
    assert_eq!(wait_step(Piece::Studio, false, false, 8), Waiting::Again);
    match wait_step(Piece::Studio, false, true, 8) {
        Waiting::GaveUp(text) => {
            assert!(text.contains("http://127.0.0.1:4460/api/health within 8s"), "{text}");
            assert!(text.contains("another process may own the port"), "{text}");
        }
        other => panic!("{other:?}"),
    }
    match wait_step(Piece::Daemon, false, true, 8) {
        Waiting::GaveUp(text) => assert!(text.starts_with("started `ksx daemon` but its control pipe did not answer within 8s")),
        other => panic!("{other:?}"),
    }
}

#[test]
fn the_health_probe_reads_at_most_one_byte_past_its_cap() {
    assert_eq!(read_budget(0, 4096), 4096);
    assert_eq!(read_budget(MAX_HEALTH_RESPONSE_BYTES - 10, 4096), 11);
    assert_eq!(read_budget(MAX_HEALTH_RESPONSE_BYTES, 4096), 1);
    assert_eq!(after_read(0, 100), ReadNext::Done);
    assert_eq!(after_read(100, 100), ReadNext::More);
    assert_eq!(after_read(1, MAX_HEALTH_RESPONSE_BYTES + 1), ReadNext::TooLong);
}
