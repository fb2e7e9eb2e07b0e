use app_locker::config::{binary_candidates, first_existing, AppConfig};
use app_locker::error::LockerError;

#[test]
fn layout_below_data_dir() {
    let c = AppConfig::from_data_dir("/home/alice/.local/share");
    assert_eq!(c.base_dir, "/home/alice/.local/share/app-locker");
    assert_eq!(c.vaults_dir, "/home/alice/.local/share/app-locker/vaults");
    assert_eq!(c.mounts_dir, "/home/alice/.local/share/app-locker/mounts");
    assert_eq!(c.get_vault_path("brave"), "/home/alice/.local/share/app-locker/vaults/brave");
    assert_eq!(c.get_mount_path("brave"), "/home/alice/.local/share/app-locker/mounts/brave");
}

#[test]
fn candidates_follow_path_then_fallbacks() {
    let c = binary_candidates("bwrap", Some("/opt/bin::/usr/sbin/".to_string()), Some("/home/bob".to_string()));
    assert_eq!(
        c,
        vec![
            "/opt/bin/bwrap",
            "bwrap",
            "/usr/sbin/bwrap",
            "/home/bob/.local/bin/bwrap",
            "/usr/bin/bwrap",
            "/usr/local/bin/bwrap",
            "/bin/bwrap",
            "/tmp/bwrap",
        ]
    );
    let found = vec![false, false, true, true, false, false, false, false];
    let probes: Vec<(String, bool)> = c.iter().cloned().zip(found).collect();
    assert_eq!(first_existing(&probes, "bwrap"), Ok("/usr/sbin/bwrap".to_string()));
    let none: Vec<(String, bool)> = c.iter().map(|p| (p.clone(), false)).collect();
    let e = first_existing(&none, "bwrap").unwrap_err();
    assert_eq!(e, LockerError::BinaryNotFound("bwrap".to_string()));
    assert_eq!(e.message(), "Required system binary 'bwrap' not found in PATH or standard locations.");
}

#[test]
fn missing_path_and_home() {
    let c = binary_candidates("zenity", None, None);
    assert_eq!(c, vec!["/usr/bin/zenity", "/usr/local/bin/zenity", "/bin/zenity", "/tmp/zenity"]);
    let c = binary_candidates("x", Some(String::new()), None);
    assert_eq!(c[0], "x");
    assert_eq!(c.len(), 5);
    assert_eq!(first_existing(&vec![], "x"), Err(LockerError::BinaryNotFound("x".to_string())));
}

#[test]
fn absolute_app_name_escapes_the_vaults_dir() {
    let c = AppConfig::from_data_dir("/d");
    assert_eq!(c.get_vault_path("/tmp/x"), "/tmp/x");
    assert_eq!(c.get_mount_path("/tmp/x"), "/tmp/x");
}

#[test]
fn every_app_has_its_own_vault_and_mount_point() {
    let c = AppConfig::from_data_dir("/home/alice/.local/share/");
    let names = ["gedit", "brave", "a/b", "gedit2", ""];
    for a in names {
        assert_ne!(c.get_vault_path(a), c.get_mount_path(a));
        for b in names {
            if a != b {
                assert_ne!(c.get_vault_path(a), c.get_vault_path(b));
                assert_ne!(c.get_mount_path(a), c.get_mount_path(b));
            }
        }
    }
}
