use app_locker::cli::{is_yes, mount_status_label, removal_confirmed, vault_list_line};
use app_locker::config::AppConfig;
use app_locker::error::LockerError;
use app_locker::gui::{sort_vaults, GuiState, VaultEntry};

#[test]
fn removal_confirmation_answers() {
    assert!(removal_confirmed("y\n"));
    assert!(removal_confirmed("  YES "));
    assert!(removal_confirmed("Yes"));
    assert!(!removal_confirmed("n"));
    assert!(!removal_confirmed(""));
    assert!(!removal_confirmed("yes please"));
}

#[test]
fn listing_lines() {
    assert_eq!(mount_status_label(true), "MOUNTED (UNLOCKED)");
    assert_eq!(mount_status_label(false), "LOCKED");
    assert_eq!(
        vault_list_line("gedit", false, "/v/gedit"),
        format!("- App: {:<15} Status: {:<20} Vault Path: {}", "gedit", "LOCKED", "/v/gedit")
    );
    assert_eq!(
        vault_list_line("a-rather-long-app-name", true, "/v/a"),
        format!("- App: {:<15} Status: {:<20} Vault Path: {}", "a-rather-long-app-name", "MOUNTED (UNLOCKED)", "/v/a")
    );
}

#[test]
fn new_vault_form_validation() {
    let mut s = GuiState::new();
    assert_eq!(s.status_msg, "");
    s.open_new_vault_form();
    assert!(s.show_new_modal);
    s.new_app_name = "   ".to_string();
    assert_eq!(s.submit_new_vault(), None);
    assert_eq!(s.status_msg, "App name cannot be empty.");
    s.new_app_name = " gedit ".to_string();
    assert_eq!(s.submit_new_vault(), None);
    assert_eq!(s.status_msg, "Passphrase cannot be empty.");
    s.new_passphrase = "a".to_string();
    s.new_confirm_passphrase = "b".to_string();
    assert_eq!(s.submit_new_vault(), None);
    assert_eq!(s.status_msg, "Passphrases do not match.");
    s.new_confirm_passphrase = "a".to_string();
    assert_eq!(s.submit_new_vault(), Some("gedit".to_string()));
    s.vault_creation_finished("gedit", Err(LockerError::InitFailed("x".to_string())));
    assert_eq!(s.status_msg, "Error creating vault: gocryptfs -init failed: x");
    assert!(s.show_new_modal);
    s.vault_creation_finished("gedit", Ok(()));
    assert_eq!(s.status_msg, "Vault 'gedit' & Desktop Shortcut created successfully!");
    assert!(!s.show_new_modal);
    assert_eq!(s.new_app_name, "");
    assert_eq!(s.new_passphrase, "");
    assert_eq!(s.new_confirm_passphrase, "");
}

#[test]
fn unlock_and_launch() {
    let mut s = GuiState::new();
    s.passphrase_input = "old".to_string();
    s.select_for_unlock("brave".to_string());
    assert_eq!(s.selected_app, Some("brave".to_string()));
    assert_eq!(s.passphrase_input, "");
    s.passphrase_input = "pw".to_string();
    s.launch_finished("brave", Err(LockerError::MountFailed("no".to_string())));
    assert_eq!(s.status_msg, "Mount failed: gocryptfs mount failed: no");
    assert_eq!(s.selected_app, Some("brave".to_string()));
    assert_eq!(s.passphrase_input, "pw");
    s.launch_finished("brave", Ok(()));
    assert_eq!(s.status_msg, "Vault 'brave' mounted. Spawning sandboxed app...");
    assert_eq!(s.selected_app, None);
    assert_eq!(s.passphrase_input, "");
    s.select_for_unlock("x".to_string());
    s.cancel_unlock();
    assert_eq!(s.selected_app, None);
}

#[test]
fn lock_remove_and_shortcut_messages() {
    let mut s = GuiState::new();
    s.lock_finished("gedit", Ok(()));
    assert_eq!(s.status_msg, "Locked 'gedit'");
    s.lock_finished("gedit", Err(LockerError::FusermountNotFound));
    assert_eq!(s.status_msg, "Error locking 'gedit': Failed to find fusermount binary");
    s.request_removal("gedit".to_string());
    assert_eq!(s.confirm_remove_app, Some("gedit".to_string()));
    s.cancel_removal();
    assert_eq!(s.confirm_remove_app, None);
    s.request_removal("gedit".to_string());
    s.removal_finished("gedit", Ok(()));
    assert_eq!(s.status_msg, "Vault 'gedit' permanently deleted.");
    assert_eq!(s.confirm_remove_app, None);
    s.removal_finished("gedit", Err(LockerError::DeleteVaultFailed("/v/gedit".to_string())));
    assert_eq!(s.status_msg, "Error deleting vault: Failed to delete vault storage at /v/gedit");
    s.shortcut_finished(Ok("/a/b.desktop".to_string()));
    assert_eq!(s.status_msg, "Desktop launcher created: /a/b.desktop");
    s.shortcut_finished(Err("boom".to_string()));
    assert_eq!(s.status_msg, "Error creating shortcut: boom");
    s.open_new_vault_form();
    s.cancel_new_vault();
    assert!(!s.show_new_modal);
}

#[test]
fn vault_list_is_sorted_by_name() {
    let entries = vec![
        VaultEntry { name: "zed".to_string(), is_mounted: false },
        VaultEntry { name: "Brave".to_string(), is_mounted: true },
        VaultEntry { name: "brave".to_string(), is_mounted: false },
        VaultEntry { name: "b".to_string(), is_mounted: false },
    ];
    let sorted = sort_vaults(&entries);
    let names: Vec<&str> = sorted.iter().map(|e| e.name.as_str()).collect();
    assert_eq!(names, vec!["Brave", "b", "brave", "zed"]);
    assert!(sorted[0].is_mounted);
    let mut expected: Vec<String> = entries.iter().map(|e| e.name.clone()).collect();
    expected.sort();
    assert_eq!(names, expected);
}

#[test]
fn config_from_platform() {
    match AppConfig::new() {
        Ok(c) => {
            assert!(c.base_dir.ends_with("app-locker"));
            assert_eq!(c.vaults_dir, format!("{}/vaults", c.base_dir));
            assert_eq!(c.mounts_dir, format!("{}/mounts", c.base_dir));
        }
        Err(e) => assert_eq!(e, LockerError::NoDataDir),
    }
}

#[test]
fn lowered_answers() {
    assert!(is_yes(&"y".to_string()));
    assert!(is_yes(&"yes".to_string()));
    assert!(!is_yes(&"YES".to_string()));
    assert!(!is_yes(&" y".to_string()));
}

#[test]
fn equal_names_keep_their_order() {
    let entries = vec![
        VaultEntry { name: "b".to_string(), is_mounted: true },
        VaultEntry { name: "a".to_string(), is_mounted: false },
        VaultEntry { name: "b".to_string(), is_mounted: false },
        VaultEntry { name: "a".to_string(), is_mounted: true },
    ];
    let sorted = sort_vaults(&entries);
    let got: Vec<(&str, bool)> = sorted.iter().map(|e| (e.name.as_str(), e.is_mounted)).collect();
    assert_eq!(got, vec![("a", false), ("a", true), ("b", true), ("b", false)]);
}

#[test]
fn blank_names_are_refused() {
    let mut s = GuiState::new();
    s.new_app_name = "\u{3000}\t ".to_string();
    s.new_passphrase = "p".to_string();
    s.new_confirm_passphrase = "p".to_string();
    assert_eq!(s.submit_new_vault(), None);
    assert_eq!(s.status_msg, "App name cannot be empty.");
}

#[test]
fn config_from_reported_dir() {
    let c = AppConfig::from_platform_dir(Some("/data".to_string())).unwrap();
    assert_eq!(c.vaults_dir, "/data/app-locker/vaults");
    assert_eq!(AppConfig::from_platform_dir(None).err(), Some(LockerError::NoDataDir));
}

#[test]
fn removal_is_handed_out_only_when_confirmation_is_pending() {
    let mut s = GuiState::new();
    assert_eq!(s.confirm_removal(), None);
    s.request_removal("gedit".to_string());
    assert_eq!(s.confirm_removal(), Some("gedit".to_string()));
    s.cancel_removal();
    assert_eq!(s.confirm_removal(), None);
    s.request_removal("brave".to_string());
    let app = s.confirm_removal().unwrap();
    s.removal_finished(&app, Ok(()));
    assert_eq!(s.confirm_removal(), None);
}

#[test]
fn latest_remove_press_survives_other_actions() {
    let mut s = GuiState::new();
    s.request_removal("gedit".to_string());
    s.request_removal("brave".to_string());
    s.open_new_vault_form();
    s.select_for_unlock("code".to_string());
    s.cancel_new_vault();
    assert_eq!(s.confirm_removal(), Some("brave".to_string()));
    s.removal_finished("brave", Err(LockerError::DeleteVaultFailed("/v/brave".to_string())));
    assert_eq!(s.confirm_removal(), None);
    assert_eq!(s.status_msg, "Error deleting vault: Failed to delete vault storage at /v/brave");
}
