use app_locker::cli::{LaunchAction, LaunchEvent, LaunchFlow, PromptReply};
use app_locker::error::LockerError;

#[test]
fn launch_with_passphrase_runs_the_app() {
    let mut f = LaunchFlow::new("brave".to_string());
    match f.step(LaunchEvent::Begin) {
        LaunchAction::AskPassphrase(t) => assert_eq!(t, "Unlock brave Vault"),
        _ => panic!(),
    }
    match f.step(LaunchEvent::Prompted(PromptReply::Entered("pw".to_string()))) {
        LaunchAction::Mount(p) => assert_eq!(p, "pw"),
        _ => panic!(),
    }
    assert!(matches!(f.step(LaunchEvent::Mounted(Ok(()))), LaunchAction::RunSandbox));
    assert!(matches!(f.step(LaunchEvent::SessionEnded), LaunchAction::Finish(Ok(()))));
}

#[test]
fn cancelled_and_unavailable_dialogs() {
    let mut f = LaunchFlow::new("x".to_string());
    f.step(LaunchEvent::Begin);
    assert!(matches!(f.step(LaunchEvent::Prompted(PromptReply::Cancelled)), LaunchAction::Finish(Ok(()))));
    let mut f = LaunchFlow::new("x".to_string());
    f.step(LaunchEvent::Begin);
    assert!(matches!(f.step(LaunchEvent::Prompted(PromptReply::Unavailable)), LaunchAction::RunInTerminal));
}

#[test]
fn failed_mount_is_shown_then_reported() {
    let mut f = LaunchFlow::new("brave".to_string());
    f.step(LaunchEvent::Begin);
    f.step(LaunchEvent::Prompted(PromptReply::Entered("bad".to_string())));
    match f.step(LaunchEvent::Mounted(Err(LockerError::MountFailed("Password incorrect.".to_string())))) {
        LaunchAction::ShowError { title, text } => {
            assert_eq!(title, "App Locker Error");
            assert_eq!(text, "Failed to mount vault for 'brave':\ngocryptfs mount failed: Password incorrect.");
        }
        _ => panic!(),
    }
    match f.step(LaunchEvent::ErrorShown) {
        LaunchAction::Finish(Err(e)) => assert_eq!(e, LockerError::MountFailed("Password incorrect.".to_string())),
        _ => panic!(),
    }
    assert!(matches!(f.step(LaunchEvent::SessionEnded), LaunchAction::Finish(Err(LockerError::StepOutOfOrder))));
}
