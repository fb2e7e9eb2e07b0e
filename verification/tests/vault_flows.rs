use app_locker::config::AppConfig;
use app_locker::error::LockerError;
use app_locker::vault::{
    confirm_passphrase, gocryptfs_conf_path, EnsureAction, EnsureEvent, EnsureFlow, mount_failure_text, mount_prompt, password_from_zenity,
    unlock_title, zenity_error_args, zenity_password_args, InitFlow, MountFlow, RemovalAction,
    RemovalEvent, RemovalFlow, TaskAction, TaskEvent, UnmountAction, UnmountEvent, UnmountFlow,
    VaultGuard,
};

#[test]
fn guard_starts_mounted() {
    let g = VaultGuard::new("/m/x".to_string());
    assert_eq!(g.mount_path, "/m/x");
    assert!(g.is_mounted);
}

#[test]
fn unmount_of_unmounted_guard_does_nothing() {
    let mut g = VaultGuard::new("/m/x".to_string());
    g.is_mounted = false;
    let mut f = UnmountFlow::new();
    assert!(matches!(f.step(&mut g, UnmountEvent::Begin), UnmountAction::Finish(Ok(()))));
    assert!(!g.is_mounted);
}

#[test]
fn unmount_falls_back_and_retries_lazily() {
    let mut g = VaultGuard::new("/m/x".to_string());
    let mut f = UnmountFlow::new();
    match f.step(&mut g, UnmountEvent::Begin) {
        UnmountAction::Find(n) => assert_eq!(n, "fusermount3"),
        _ => panic!("expected a lookup"),
    }
    match f.step(&mut g, UnmountEvent::Found(None)) {
        UnmountAction::Find(n) => assert_eq!(n, "fusermount"),
        _ => panic!("expected the fallback lookup"),
    }
    match f.step(&mut g, UnmountEvent::Found(Some("/bin/fusermount".to_string()))) {
        UnmountAction::Run { program, args } => {
            assert_eq!(program, "/bin/fusermount");
            assert_eq!(args, vec!["-u", "/m/x"]);
        }
        _ => panic!("expected a run"),
    }
    assert!(g.is_mounted);
    match f.step(&mut g, UnmountEvent::Exited(false)) {
        UnmountAction::Run { program, args } => {
            assert_eq!(program, "/bin/fusermount");
            assert_eq!(args, vec!["-u", "-z", "/m/x"]);
        }
        _ => panic!("expected a lazy run"),
    }
    match f.step(&mut g, UnmountEvent::Exited(false)) {
        UnmountAction::RemoveEmptyDir(p) => assert_eq!(p, "/m/x"),
        _ => panic!("expected cleanup"),
    }
    assert!(!g.is_mounted);
    assert!(matches!(f.step(&mut g, UnmountEvent::Cleaned), UnmountAction::Finish(Ok(()))));
    assert!(matches!(f.step(&mut g, UnmountEvent::Cleaned), UnmountAction::Finish(Err(LockerError::StepOutOfOrder))));
}

#[test]
fn unmount_without_fusermount_fails_and_stays_mounted() {
    let mut g = VaultGuard::new("/m/x".to_string());
    let mut f = UnmountFlow::new();
    f.step(&mut g, UnmountEvent::Begin);
    f.step(&mut g, UnmountEvent::Found(None));
    match f.step(&mut g, UnmountEvent::Found(None)) {
        UnmountAction::Finish(Err(e)) => {
            assert_eq!(e, LockerError::FusermountNotFound);
            assert_eq!(e.message(), "Failed to find fusermount binary");
        }
        _ => panic!("expected failure"),
    }
    assert!(g.is_mounted);
}

#[test]
fn init_refuses_empty_passphrase() {
    let mut f = InitFlow::new("/v/x".to_string(), String::new());
    match f.step(TaskEvent::Begin) {
        TaskAction::Finish(Err(e)) => assert_eq!(e.message(), "Passphrase cannot be empty."),
        _ => panic!("expected refusal"),
    }
}

#[test]
fn init_runs_gocryptfs_init() {
    let mut f = InitFlow::new("/v/x".to_string(), "pw".to_string());
    match f.step(TaskEvent::Begin) {
        TaskAction::CreateDir(p) => assert_eq!(p, "/v/x"),
        _ => panic!(),
    }
    match f.step(TaskEvent::DirCreated(true)) {
        TaskAction::Find(n) => assert_eq!(n, "gocryptfs"),
        _ => panic!(),
    }
    match f.step(TaskEvent::Found(Some("/usr/bin/gocryptfs".to_string()))) {
        TaskAction::Spawn { program, args, input } => {
            assert_eq!(program, "/usr/bin/gocryptfs");
            assert_eq!(args, vec!["-init", "/v/x"]);
            assert_eq!(input, "pw\n");
        }
        _ => panic!(),
    }
    match f.step(TaskEvent::Exited { success: false, stderr: b"  bad things \n".to_vec() }) {
        TaskAction::Finish(Err(e)) => {
            assert_eq!(e, LockerError::InitFailed("bad things".to_string()));
            assert_eq!(e.message(), "gocryptfs -init failed: bad things");
        }
        _ => panic!(),
    }
}

#[test]
fn init_reports_missing_tools_and_dirs() {
    let mut f = InitFlow::new("/v/x".to_string(), "pw".to_string());
    f.step(TaskEvent::Begin);
    match f.step(TaskEvent::DirCreated(false)) {
        TaskAction::Finish(Err(e)) => assert_eq!(e.message(), "Failed to create vault directory at /v/x"),
        _ => panic!(),
    }
    let mut f = InitFlow::new("/v/x".to_string(), "pw".to_string());
    f.step(TaskEvent::Begin);
    f.step(TaskEvent::DirCreated(true));
    match f.step(TaskEvent::Found(None)) {
        TaskAction::Finish(Err(e)) => assert_eq!(e, LockerError::BinaryNotFound("gocryptfs".to_string())),
        _ => panic!(),
    }
    let mut f = InitFlow::new("/v/x".to_string(), "pw".to_string());
    f.step(TaskEvent::Begin);
    f.step(TaskEvent::DirCreated(true));
    f.step(TaskEvent::Found(Some("/g".to_string())));
    match f.step(TaskEvent::SpawnFailed) {
        TaskAction::Finish(Err(e)) => assert_eq!(e.message(), "Failed to execute /g"),
        _ => panic!(),
    }
}

#[test]
fn init_success() {
    let mut f = InitFlow::new("/v/x".to_string(), "pw".to_string());
    f.step(TaskEvent::Begin);
    f.step(TaskEvent::DirCreated(true));
    f.step(TaskEvent::Found(Some("/g".to_string())));
    assert!(matches!(f.step(TaskEvent::Exited { success: true, stderr: vec![] }), TaskAction::Finish(Ok(()))));
}

#[test]
fn mount_success_gives_guard() {
    let mut f = MountFlow::new("/v/x".to_string(), "/m/x".to_string(), "pw".to_string());
    match f.step(TaskEvent::Begin) {
        TaskAction::CreateDir(p) => assert_eq!(p, "/m/x"),
        _ => panic!(),
    }
    f.step(TaskEvent::DirCreated(true));
    match f.step(TaskEvent::Found(Some("/g".to_string()))) {
        TaskAction::Spawn { program, args, input } => {
            assert_eq!(program, "/g");
            assert_eq!(args, vec!["/v/x", "/m/x"]);
            assert_eq!(input, "pw\n");
        }
        _ => panic!(),
    }
    match f.step(TaskEvent::Exited { success: true, stderr: vec![] }) {
        TaskAction::Mounted(g) => {
            assert_eq!(g.mount_path, "/m/x");
            assert!(g.is_mounted);
        }
        _ => panic!(),
    }
}

#[test]
fn failed_mount_removes_mount_point_first() {
    let mut f = MountFlow::new("/v/x".to_string(), "/m/x".to_string(), "bad".to_string());
    f.step(TaskEvent::Begin);
    f.step(TaskEvent::DirCreated(true));
    f.step(TaskEvent::Found(Some("/g".to_string())));
    match f.step(TaskEvent::Exited { success: false, stderr: b"Password incorrect.\n".to_vec() }) {
        TaskAction::RemoveDir(p) => assert_eq!(p, "/m/x"),
        _ => panic!(),
    }
    match f.step(TaskEvent::Removed) {
        TaskAction::Finish(Err(e)) => assert_eq!(e.message(), "gocryptfs mount failed: Password incorrect."),
        _ => panic!(),
    }
    let mut f = MountFlow::new("/v/x".to_string(), "/m/x".to_string(), "pw".to_string());
    f.step(TaskEvent::Begin);
    match f.step(TaskEvent::DirCreated(false)) {
        TaskAction::Finish(Err(e)) => assert_eq!(e.message(), "Failed to create mount directory at /m/x"),
        _ => panic!(),
    }
}

#[test]
fn removal_order() {
    let c = AppConfig::from_data_dir("/d");
    let mut f = RemovalFlow::for_app(&c, "gedit");
    match f.step(RemovalEvent::Begin) {
        RemovalAction::CheckExists(p) => assert_eq!(p, "/d/app-locker/mounts/gedit"),
        _ => panic!(),
    }
    match f.step(RemovalEvent::Checked(true)) {
        RemovalAction::Unmount(p) => assert_eq!(p, "/d/app-locker/mounts/gedit"),
        _ => panic!(),
    }
    match f.step(RemovalEvent::Done(false)) {
        RemovalAction::CheckExists(p) => assert_eq!(p, "/d/app-locker/vaults/gedit"),
        _ => panic!(),
    }
    match f.step(RemovalEvent::Checked(true)) {
        RemovalAction::DeleteTree(p) => assert_eq!(p, "/d/app-locker/vaults/gedit"),
        _ => panic!(),
    }
    match f.step(RemovalEvent::Done(true)) {
        RemovalAction::CheckExists(p) => assert_eq!(p, "/d/app-locker/mounts/gedit"),
        _ => panic!(),
    }
    match f.step(RemovalEvent::Checked(false)) {
        RemovalAction::RemoveShortcuts(a) => assert_eq!(a, "gedit"),
        _ => panic!(),
    }
    assert!(matches!(f.step(RemovalEvent::Done(true)), RemovalAction::Finish(Ok(()))));
}

#[test]
fn removal_stops_when_storage_cannot_be_deleted() {
    let mut f = RemovalFlow::new("x".to_string(), "/v/x".to_string(), "/m/x".to_string());
    f.step(RemovalEvent::Begin);
    f.step(RemovalEvent::Checked(false));
    f.step(RemovalEvent::Checked(true));
    match f.step(RemovalEvent::Done(false)) {
        RemovalAction::Finish(Err(e)) => assert_eq!(e.message(), "Failed to delete vault storage at /v/x"),
        _ => panic!(),
    }
}

#[test]
fn passphrases_and_dialogs() {
    assert_eq!(gocryptfs_conf_path("/v/x"), "/v/x/gocryptfs.conf");
    assert_eq!(confirm_passphrase(&"a".to_string(), &"a".to_string()), Ok(()));
    let e = confirm_passphrase(&"a".to_string(), &"b".to_string()).unwrap_err();
    assert_eq!(e.message(), "Passphrases do not match. Aborting initialization.");
    assert_eq!(zenity_password_args("T"), vec!["--password", "--title", "T"]);
    assert_eq!(zenity_error_args("T", "M"), vec!["--error", "--title", "T", "--text", "M"]);
    assert_eq!(password_from_zenity(true, &b"hunter2\n".to_vec()), Some("hunter2".to_string()));
    assert_eq!(password_from_zenity(false, &b"hunter2\n".to_vec()), None);
    assert_eq!(unlock_title("brave"), "Unlock brave Vault");
    assert_eq!(mount_prompt("brave"), "Enter passphrase for vault 'brave': ");
    assert_eq!(
        mount_failure_text("brave", &LockerError::MountFailed("bad".to_string())),
        "Failed to mount vault for 'brave':\ngocryptfs mount failed: bad"
    );
}

#[test]
fn existing_vault_is_left_alone() {
    let mut f = EnsureFlow::new("/v/x".to_string());
    match f.step(EnsureEvent::Begin) {
        EnsureAction::CheckExists(p) => assert_eq!(p, "/v/x/gocryptfs.conf"),
        _ => panic!(),
    }
    assert!(matches!(f.step(EnsureEvent::Checked(true)), EnsureAction::Finish(Ok(()))));
}

#[test]
fn new_vault_needs_matching_passphrases() {
    let mut f = EnsureFlow::new("/v/x".to_string());
    f.step(EnsureEvent::Begin);
    assert!(matches!(f.step(EnsureEvent::Checked(false)), EnsureAction::ReadPassphrases));
    match f.step(EnsureEvent::Passphrases { passphrase: "a".to_string(), confirmation: "b".to_string() }) {
        EnsureAction::Finish(Err(e)) => assert_eq!(e, LockerError::PassphraseMismatch),
        _ => panic!(),
    }
    let mut f = EnsureFlow::new("/v/x".to_string());
    f.step(EnsureEvent::Begin);
    f.step(EnsureEvent::Checked(false));
    match f.step(EnsureEvent::Passphrases { passphrase: "pw".to_string(), confirmation: "pw".to_string() }) {
        EnsureAction::Initialize { vault_path, passphrase } => {
            assert_eq!(vault_path, "/v/x");
            assert_eq!(passphrase, "pw");
        }
        _ => panic!(),
    }
    let r = f.step(EnsureEvent::Initialized(Err(LockerError::EmptyPassphrase)));
    assert!(matches!(r, EnsureAction::Finish(Err(LockerError::EmptyPassphrase))));
    let mut f = EnsureFlow::new("/v/x".to_string());
    f.step(EnsureEvent::Begin);
    f.step(EnsureEvent::Checked(false));
    match f.step(EnsureEvent::ReadFailed("closed".to_string())) {
        EnsureAction::Finish(Err(e)) => assert_eq!(e.message(), "closed"),
        _ => panic!(),
    }
}

#[test]
fn zenity_output_is_decoded() {
    assert_eq!(password_from_zenity(true, &"pässwörd\r\n".as_bytes().to_vec()), Some("pässwörd".to_string()));
    assert_eq!(password_from_zenity(true, &vec![0x66, 0xff, 0x0a]), Some("f\u{fffd}".to_string()));
}
