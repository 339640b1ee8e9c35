use vulkan_sdk::installer::{Action, Error, Event, Install, Installer, Message, Outcome, Stage};

fn silent() -> Installer {
    Installer::new(&Install::Silent, "/Users/me")
}

fn inspected(sdk_var: Option<&str>, root_exists: bool, root_nonempty: bool) -> Event {
    Event::Inspected { sdk_var: sdk_var.map(|s| s.to_string()), root_exists, root_nonempty }
}

fn io_error() -> Error {
    Error::IO(std::io::Error::new(std::io::ErrorKind::PermissionDenied, "not writable"))
}

#[test]
fn silent_install_runs_every_step() {
    let mut m = silent();
    assert!(matches!(m.step(inspected(None, false, false)), Action::Download));
    assert!(matches!(m.step(Event::Downloaded(Ok(()))), Action::Unpack));
    assert!(matches!(m.step(Event::Unpacked(Ok(()))), Action::PersistAll));
    assert!(matches!(m.step(Event::Persisted(Ok(()))), Action::ApplyAll));
    match m.step(Event::Applied(Ok(()))) {
        Action::Finish(o) => {
            assert!(matches!(o, Outcome::Installed));
            assert_eq!(m.result(o).unwrap(), "/Users/me/.vulkan_sdk/macOS");
        }
        other => panic!("unexpected {:?}", other),
    }
    assert_eq!(m.stage, Stage::Done);
}

#[test]
fn declined_install_does_nothing() {
    let message = Message {
        question: Box::new(|| false),
        progress: Box::new(|_: u64, _: u64| true),
        unpacking: Box::new(|| {}),
        complete: Box::new(|| {}),
    };
    let mut m = Installer::new(&Install::Message(message), "/Users/me");
    assert!(!m.silent);
    assert!(matches!(m.step(inspected(None, false, false)), Action::AskConsent));
    match m.step(Event::Consent(false)) {
        Action::Finish(o) => {
            assert!(matches!(o, Outcome::DeclinedByUser));
            assert!(matches!(m.result(o), Err(Error::ChoseNotToInstall)));
        }
        other => panic!("unexpected {:?}", other),
    }
    assert!(matches!(m.step(Event::Downloaded(Ok(()))), Action::Idle));
}

#[test]
fn consent_given_starts_download() {
    let message = Message {
        question: Box::new(|| true),
        progress: Box::new(|_: u64, _: u64| true),
        unpacking: Box::new(|| {}),
        complete: Box::new(|| {}),
    };
    let mut m = Installer::new(&Install::Message(message), "/Users/me");
    assert!(matches!(m.step(inspected(None, false, false)), Action::AskConsent));
    assert!(matches!(m.step(Event::Consent(true)), Action::Download));
}

#[test]
fn failed_move_ends_with_io_error() {
    let mut m = silent();
    assert!(matches!(m.step(inspected(None, false, false)), Action::Download));
    assert!(matches!(m.step(Event::Downloaded(Ok(()))), Action::Unpack));
    match m.step(Event::Unpacked(Err(io_error()))) {
        Action::Finish(o) => {
            assert!(matches!(o, Outcome::Failed(Error::IO(_))));
            match m.result(o) {
                Err(Error::IO(e)) => assert_eq!(e.kind(), std::io::ErrorKind::PermissionDenied),
                other => panic!("unexpected {:?}", other),
            }
        }
        other => panic!("unexpected {:?}", other),
    }
    assert!(matches!(m.step(Event::Persisted(Ok(()))), Action::Idle));
}

#[test]
fn failed_download_ends_the_run() {
    let mut m = silent();
    m.step(inspected(None, false, false));
    match m.step(Event::Downloaded(Err(Error::FailedSdkDownload))) {
        Action::Finish(o) => assert!(matches!(m.result(o), Err(Error::FailedSdkDownload))),
        other => panic!("unexpected {:?}", other),
    }
}

#[test]
fn non_default_location_is_left_alone() {
    let mut m = silent();
    match m.step(inspected(Some("/opt/vulkan"), true, true)) {
        Action::Finish(o) => {
            assert!(matches!(o, Outcome::NonDefaultLocation));
            assert!(matches!(m.result(o), Err(Error::NonDefaultDir)));
        }
        other => panic!("unexpected {:?}", other),
    }
    assert!(matches!(m.step(Event::Downloaded(Ok(()))), Action::Idle));
}

#[test]
fn installed_default_is_already_installed() {
    let mut m = silent();
    match m.step(inspected(Some("/Users/me/.vulkan_sdk/macOS"), true, true)) {
        Action::Finish(o) => {
            assert!(matches!(o, Outcome::AlreadyInstalled));
            assert_eq!(m.result(o).unwrap(), "/Users/me/.vulkan_sdk/macOS");
        }
        other => panic!("unexpected {:?}", other),
    }
}

#[test]
fn fixup_only_applies_to_process() {
    let mut m = silent();
    assert!(matches!(m.step(inspected(None, true, true)), Action::ApplyAll));
    assert_eq!(m.stage, Stage::FixingUp);
    assert!(matches!(m.step(Event::Persisted(Ok(()))), Action::Idle));
    match m.step(Event::Applied(Ok(()))) {
        Action::Finish(o) => {
            assert!(matches!(o, Outcome::TemporarilyFixedUp));
            match m.result(o) {
                Err(Error::ResetEnvVars(p)) => assert_eq!(p, "/Users/me/.vulkan_sdk/macOS"),
                other => panic!("unexpected {:?}", other),
            }
        }
        other => panic!("unexpected {:?}", other),
    }
}

#[test]
fn failed_env_write_is_reported() {
    let mut m = silent();
    m.step(inspected(None, false, false));
    m.step(Event::Downloaded(Ok(())));
    m.step(Event::Unpacked(Ok(())));
    match m.step(Event::Persisted(Err(Error::FailedSetEnvVar))) {
        Action::Finish(o) => assert!(matches!(o, Outcome::Failed(Error::FailedSetEnvVar))),
        other => panic!("unexpected {:?}", other),
    }
}
