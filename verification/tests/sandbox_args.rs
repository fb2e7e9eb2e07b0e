use app_locker::error::LockerError;
use app_locker::sandbox::{
    bwrap_args, choose_target_binary, has_arg, is_chromium, known_dir_for_lowered, plan_sandbox,
    resolve_known_app_dir,
    target_exec_name, target_subpath, SessionEnv,
};

fn no_env() -> SessionEnv {
    SessionEnv {
        display: None,
        wayland_display: None,
        xauthority: None,
        xdg_runtime_dir: None,
        dbus_session_bus_address: None,
        lang: None,
    }
}

fn isolation() -> Vec<&'static str> {
    vec![
        "--ro-bind", "/", "/", "--dev", "/dev", "--proc", "/proc", "--tmpfs", "/tmp", "--tmpfs",
        "/dev/shm", "--unshare-pid", "--die-with-parent",
    ]
}

fn appearance() -> Vec<&'static str> {
    vec![
        "--ro-bind-try", "/usr/share/fonts", "/usr/share/fonts", "--ro-bind-try", "/etc/fonts",
        "/etc/fonts", "--ro-bind-try", "/usr/share/icons", "/usr/share/icons", "--ro-bind-try",
        "/usr/share/themes", "/usr/share/themes",
    ]
}

#[test]
fn known_config_dirs() {
    assert_eq!(resolve_known_app_dir("brave", "brave-browser"), "BraveSoftware");
    assert_eq!(resolve_known_app_dir("Browser", "Google-Chrome"), "google-chrome");
    assert_eq!(resolve_known_app_dir("CHROMIUM", "x"), "chromium");
    assert_eq!(resolve_known_app_dir("vscode", "code"), "Code");
    assert_eq!(resolve_known_app_dir("gedit", "gedit"), "gedit");
    assert_eq!(resolve_known_app_dir("Mousepad", "mousepad"), "Mousepad");
}

#[test]
fn custom_target_dir_wins() {
    assert_eq!(target_subpath("brave", "brave", Some("mine".to_string())), "mine");
    assert_eq!(target_subpath("brave", "brave-browser", None), "brave");
    assert_eq!(target_subpath("Code", "code", None), "Code");
    assert_eq!(target_exec_name("brave", Some("brave-browser".to_string())), "brave-browser");
    assert_eq!(target_exec_name("gedit", None), "gedit");
}

#[test]
fn chromium_detection_is_case_sensitive() {
    assert!(is_chromium("brave", "x"));
    assert!(is_chromium("x", "google-chrome"));
    assert!(is_chromium("x", "chromium-browser"));
    assert!(!is_chromium("Brave", "Chrome"));
    assert!(!is_chromium("gedit", "gedit"));
}

#[test]
fn argument_lookup() {
    let args = vec!["--incognito".to_string(), "--no-sandbox".to_string()];
    assert!(has_arg(&args, "--no-sandbox"));
    assert!(!has_arg(&args, "--no"));
    assert!(!has_arg(&vec![], "--no-sandbox"));
}

#[test]
fn plain_app_without_session() {
    let args = bwrap_args(
        "/m/gedit", "/h/.config/gedit", "/h/.local/share/gedit", &no_env(), "/h", "/usr/bin/gedit",
        "gedit", "gedit", &vec!["notes.txt".to_string()],
    );
    let mut expected: Vec<&str> = isolation();
    expected.extend(["--bind", "/m/gedit", "/h/.config/gedit", "--bind", "/m/gedit", "/h/.local/share/gedit"]);
    expected.extend(appearance());
    expected.extend(["--setenv", "HOME", "/h", "/usr/bin/gedit", "notes.txt"]);
    assert_eq!(args, expected);
}

#[test]
fn chromium_with_full_session() {
    let env = SessionEnv {
        display: Some(":0".to_string()),
        wayland_display: Some("wayland-0".to_string()),
        xauthority: Some("/run/xauth".to_string()),
        xdg_runtime_dir: Some("/run/user/1000".to_string()),
        dbus_session_bus_address: Some("unix:path=/bus".to_string()),
        lang: Some("C.UTF-8".to_string()),
    };
    let plan = plan_sandbox(
        "brave", "brave-browser", &vec!["--incognito".to_string()], "/m/brave", None, "/h",
        "/usr/bin/brave-browser", &env,
    );
    assert_eq!(plan.config_dir, "/h/.config/brave");
    assert_eq!(plan.data_dir, "/h/.local/share/brave");
    let mut expected: Vec<&str> = isolation();
    expected.extend([
        "--bind", "/m/brave", "/h/.config/brave", "--bind", "/m/brave", "/h/.local/share/brave",
    ]);
    expected.extend([
        "--setenv", "DISPLAY", ":0", "--ro-bind-try", "/tmp/.X11-unix", "/tmp/.X11-unix",
        "--setenv", "WAYLAND_DISPLAY", "wayland-0",
        "--setenv", "XAUTHORITY", "/run/xauth", "--ro-bind-try", "/run/xauth", "/run/xauth",
        "--setenv", "XDG_RUNTIME_DIR", "/run/user/1000", "--bind-try", "/run/user/1000", "/run/user/1000",
        "--setenv", "DBUS_SESSION_BUS_ADDRESS", "unix:path=/bus",
    ]);
    expected.extend(appearance());
    expected.extend([
        "--setenv", "LANG", "C.UTF-8", "--setenv", "HOME", "/h", "/usr/bin/brave-browser",
        "--no-sandbox", "--incognito",
    ]);
    assert_eq!(plan.args, expected);
}

#[test]
fn no_sandbox_not_repeated() {
    let args = bwrap_args(
        "/m", "/c", "/d", &no_env(), "/h", "/bin/chromium", "chromium", "chromium",
        &vec!["--no-sandbox".to_string(), "x".to_string()],
    );
    let n = args.iter().filter(|a| a.as_str() == "--no-sandbox").count();
    assert_eq!(n, 1);
    assert_eq!(&args[args.len() - 3..], &["/bin/chromium", "--no-sandbox", "x"]);
}

#[test]
fn target_binary_choice() {
    assert_eq!(
        choose_target_binary(Some("/a".to_string()), Some("/b".to_string()), "x"),
        Ok("/a".to_string())
    );
    assert_eq!(choose_target_binary(None, Some("/b".to_string()), "x"), Ok("/b".to_string()));
    let e = choose_target_binary(None, None, "brave-browser").unwrap_err();
    assert_eq!(e, LockerError::TargetBinaryNotFound("brave-browser".to_string()));
    assert_eq!(e.message(), "Target application binary 'brave-browser' not found");
}

#[test]
fn known_dirs_from_lowercase_forms() {
    assert_eq!(known_dir_for_lowered("my-brave", "x", "My-Brave"), "BraveSoftware");
    assert_eq!(known_dir_for_lowered("x", "vs-code", "X"), "Code");
    assert_eq!(known_dir_for_lowered("BRAVE", "x", "BRAVE"), "BRAVE");
    assert_eq!(known_dir_for_lowered("chromium", "chromium", "c"), "chromium");
}

#[test]
fn vault_bound_onto_the_apps_own_dirs_unless_told_otherwise() {
    let args: Vec<String> = vec![];
    let plan = plan_sandbox("gedit", "gedit", &args, "/m/gedit", None, "/home/u", "/usr/bin/gedit", &no_env());
    assert_eq!(plan.config_dir, "/home/u/.config/gedit");
    assert_eq!(plan.data_dir, "/home/u/.local/share/gedit");
    let plan = plan_sandbox("brave", "brave-browser", &args, "/m/b", Some("BraveSoftware".to_string()), "/home/u", "/b", &no_env());
    assert_eq!(plan.config_dir, "/home/u/.config/BraveSoftware");
    assert_eq!(plan.data_dir, "/home/u/.local/share/BraveSoftware");
}
