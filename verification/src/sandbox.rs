use vstd::prelude::*;

use crate::error::{ErrorView, LockerError};
use crate::text::{
    contains, has_infix, join_path, joined, lowercase, opt_view, owned, push_all, push_text,
    to_lower, views,
};

verus! {

/// The parts of the desktop session that are passed into the sandbox, as
/// read from the environment (`None` when a variable is unset).
pub struct SessionEnv {
    pub display: Option<String>,
    pub wayland_display: Option<String>,
    pub xauthority: Option<String>,
    pub xdg_runtime_dir: Option<String>,
    pub dbus_session_bus_address: Option<String>,
    pub lang: Option<String>,
}

/// The configuration directory name that a well-known application itself
/// uses under `~/.config` and `~/.local/share`, matched case-insensitively on
/// the application's name or executable; for any other application, its name.
pub open spec fn known_app_dir(app_name: Seq<char>, app_exec: Seq<char>) -> Seq<char> {
    known_dir_from_lowered(lowercase(app_name), lowercase(app_exec), app_name)
}

/// The configuration directory name chosen from the lowercase forms of the
/// application's name and executable (the name itself when none is well known).
pub open spec fn known_dir_from_lowered(
    lower_name: Seq<char>,
    lower_exec: Seq<char>,
    app_name: Seq<char>,
) -> Seq<char> {
    if has_infix(lower_name, "brave"@) || has_infix(lower_exec, "brave"@) {
        "BraveSoftware"@
    } else if has_infix(lower_name, "chrome"@) || has_infix(lower_exec, "chrome"@) {
        "google-chrome"@
    } else if has_infix(lower_name, "chromium"@) || has_infix(lower_exec, "chromium"@) {
        "chromium"@
    } else if has_infix(lower_name, "code"@) || has_infix(lower_exec, "code"@) {
        "Code"@
    } else {
        app_name
    }
}

/// Picks the configuration directory name from the already lowercased name
/// and executable.
pub fn known_dir_for_lowered(lower_name: &str, lower_exec: &str, app_name: &str) -> (r: String)
    ensures
        r@ == known_dir_from_lowered(lower_name@, lower_exec@, app_name@),
{
    if contains(lower_name, "brave") || contains(lower_exec, "brave") {
        owned("BraveSoftware")
    } else if contains(lower_name, "chrome") || contains(lower_exec, "chrome") {
        owned("google-chrome")
    } else if contains(lower_name, "chromium") || contains(lower_exec, "chromium") {
        owned("chromium")
    } else if contains(lower_name, "code") || contains(lower_exec, "code") {
        owned("Code")
    } else {
        owned(app_name)
    }
}

/// Maps well-known application names to their configuration directory name.
pub fn resolve_known_app_dir(app_name: &str, app_exec: &str) -> (r: String)
    ensures
        r@ == known_app_dir(app_name@, app_exec@),
{
    let lower_name = to_lower(app_name);
    let lower_exec = to_lower(app_exec);
    known_dir_for_lowered(lower_name.as_str(), lower_exec.as_str(), app_name)
}

/// The directory name under `~/.config` and `~/.local/share` that the vault
/// is bound onto: the one asked for, else the application's own name.
pub open spec fn target_subpath_spec(
    app_name: Seq<char>,
    app_exec: Seq<char>,
    custom: Option<Seq<char>>,
) -> Seq<char> {
    match custom {
        Some(d) => d,
        None => app_name,
    }
}

/// The executable to start for an application: the one given, else the
/// application's own name.
pub fn target_exec_name(app_name: &str, exec: Option<String>) -> (r: String)
    ensures
        r@ == match opt_view(exec) {
            Some(e) => e,
            None => app_name@,
        },
{
    match exec {
        Some(e) => e,
        None => owned(app_name),
    }
}

/// The directory name the vault is bound onto.
pub fn target_subpath(app_name: &str, app_exec: &str, custom_target_dir: Option<String>) -> (r:
    String)
    ensures
        r@ == target_subpath_spec(app_name@, app_exec@, opt_view(custom_target_dir)),
{
    match custom_target_dir {
        Some(d) => d,
        None => owned(app_name),
    }
}

/// The application's configuration directory below the home directory.
pub open spec fn config_dir_spec(home: Seq<char>, sub: Seq<char>) -> Seq<char> {
    joined(joined(home, ".config"@), sub)
}

/// The application's data directory below the home directory.
pub open spec fn data_dir_spec(home: Seq<char>, sub: Seq<char>) -> Seq<char> {
    joined(joined(home, ".local/share"@), sub)
}

/// Chromium-based browsers, recognised (case-sensitively) by name or executable.
pub open spec fn chromium_like(app_name: Seq<char>, app_exec: Seq<char>) -> bool {
    has_infix(app_exec, "brave"@) || has_infix(app_name, "brave"@) || has_infix(
        app_exec,
        "chrome"@,
    ) || has_infix(app_name, "chrome"@) || has_infix(app_exec, "chromium"@) || has_infix(
        app_name,
        "chromium"@,
    )
}

/// Whether the application is a Chromium-based browser.
pub fn is_chromium(app_name: &str, app_exec: &str) -> (r: bool)
    ensures
        r == chromium_like(app_name@, app_exec@),
{
    contains(app_exec, "brave") || contains(app_name, "brave") || contains(app_exec, "chrome")
        || contains(app_name, "chrome") || contains(app_exec, "chromium") || contains(
        app_name,
        "chromium",
    )
}

/// `args` holds the argument `arg`.
pub open spec fn holds_arg(args: Seq<Seq<char>>, arg: Seq<char>) -> bool {
    exists|i: int| 0 <= i < args.len() && #[trigger] args[i] == arg
}

/// Whether one of `args` is exactly `arg`.
pub fn has_arg(args: &Vec<String>, arg: &str) -> (r: bool)
    ensures
        r == holds_arg(views(args@), arg@),
{
    let wanted = owned(arg);
    let mut i: usize = 0;
    while i < args.len()
        invariant
            wanted@ == arg@,
            i <= args.len(),
            forall|j: int| 0 <= j < i ==> views(args@)[j] != arg@,
        decreases args.len() - i,
    {
        if args[i] == wanted {
            assert(views(args@)[i as int] == arg@);
            return true;
        }
        i = i + 1;
    }
    false
}

/// The isolation every sandbox gets: read-only root, fresh `/dev`, `/proc`,
/// private `/tmp` and `/dev/shm`, its own PID namespace, and death with the parent.
pub open spec fn isolation_args() -> Seq<Seq<char>> {
    seq![
        "--ro-bind"@,
        "/"@,
        "/"@,
        "--dev"@,
        "/dev"@,
        "--proc"@,
        "/proc"@,
        "--tmpfs"@,
        "/tmp"@,
        "--tmpfs"@,
        "/dev/shm"@,
        "--unshare-pid"@,
        "--die-with-parent"@,
    ]
}

/// The decrypted vault bound onto the application's configuration and data directories.
pub open spec fn vault_bind_args(mount: Seq<char>, config: Seq<char>, data: Seq<char>) -> Seq<
    Seq<char>,
> {
    seq!["--bind"@, mount, config, "--bind"@, mount, data]
}

/// `--setenv name value`, when the variable has a value.
pub open spec fn setenv_args(name: Seq<char>, value: Option<Seq<char>>) -> Seq<Seq<char>> {
    match value {
        Some(v) => seq!["--setenv"@, name, v],
        None => Seq::empty(),
    }
}

/// `flag path path`, when there is a path.
pub open spec fn bind_same_args(flag: Seq<char>, path: Option<Seq<char>>) -> Seq<Seq<char>> {
    match path {
        Some(p) => seq![flag, p, p],
        None => Seq::empty(),
    }
}

/// What the graphical session passes through: X11 display and socket
/// directory, Wayland display, X authority, the runtime directory and D-Bus.
pub open spec fn session_args(env: SessionEnv) -> Seq<Seq<char>> {
    let display = opt_view(env.display);
    let x11 = match display {
        Some(d) => seq![
            "--setenv"@,
            "DISPLAY"@,
            d,
            "--ro-bind-try"@,
            "/tmp/.X11-unix"@,
            "/tmp/.X11-unix"@,
        ],
        None => Seq::empty(),
    };
    x11 + setenv_args("WAYLAND_DISPLAY"@, opt_view(env.wayland_display)) + setenv_args(
        "XAUTHORITY"@,
        opt_view(env.xauthority),
    ) + bind_same_args("--ro-bind-try"@, opt_view(env.xauthority)) + setenv_args(
        "XDG_RUNTIME_DIR"@,
        opt_view(env.xdg_runtime_dir),
    ) + bind_same_args("--bind-try"@, opt_view(env.xdg_runtime_dir)) + setenv_args(
        "DBUS_SESSION_BUS_ADDRESS"@,
        opt_view(env.dbus_session_bus_address),
    )
}

/// Fonts, icons and themes, read-only where present.
pub open spec fn appearance_args() -> Seq<Seq<char>> {
    seq![
        "--ro-bind-try"@,
        "/usr/share/fonts"@,
        "/usr/share/fonts"@,
        "--ro-bind-try"@,
        "/etc/fonts"@,
        "/etc/fonts"@,
        "--ro-bind-try"@,
        "/usr/share/icons"@,
        "/usr/share/icons"@,
        "--ro-bind-try"@,
        "/usr/share/themes"@,
        "/usr/share/themes"@,
    ]
}

/// What follows the target binary: `--no-sandbox` first for a Chromium-based
/// browser that was not already given it, then the application's own arguments.
pub open spec fn program_args(
    app_name: Seq<char>,
    app_exec: Seq<char>,
    app_args: Seq<Seq<char>>,
) -> Seq<Seq<char>> {
    if chromium_like(app_name, app_exec) && !holds_arg(app_args, "--no-sandbox"@) {
        seq!["--no-sandbox"@] + app_args
    } else {
        app_args
    }
}

/// The complete `bwrap` command line (without the program name).
pub open spec fn bwrap_args_spec(
    mount: Seq<char>,
    config: Seq<char>,
    data: Seq<char>,
    env: SessionEnv,
    home: Seq<char>,
    target_bin: Seq<char>,
    app_name: Seq<char>,
    app_exec: Seq<char>,
    app_args: Seq<Seq<char>>,
) -> Seq<Seq<char>> {
    isolation_args() + vault_bind_args(mount, config, data) + session_args(env) + appearance_args()
        + setenv_args("LANG"@, opt_view(env.lang)) + seq!["--setenv"@, "HOME"@, home] + seq![
        target_bin,
    ] + program_args(app_name, app_exec, app_args)
}

/// Everything needed to start an application in its sandbox: the host
/// directories to create as mount points and the `bwrap` arguments.
pub struct SandboxPlan {
    pub config_dir: String,
    pub data_dir: String,
    pub args: Vec<String>,
}

/// Appends `--setenv name value` when `value` is present.
fn push_setenv(out: &mut Vec<String>, name: &str, value: &Option<String>)
    ensures
        views(final(out)@) == views(old(out)@) + setenv_args(name@, opt_view(*value)),
{
    match value {
        Some(v) => {
            push_text(out, "--setenv");
            push_text(out, name);
            push_text(out, v.as_str());
        },
        None => {},
    }
}

/// Appends `flag path path` when `path` is present.
fn push_bind_same(out: &mut Vec<String>, flag: &str, path: &Option<String>)
    ensures
        views(final(out)@) == views(old(out)@) + bind_same_args(flag@, opt_view(*path)),
{
    match path {
        Some(p) => {
            push_text(out, flag);
            push_text(out, p.as_str());
            push_text(out, p.as_str());
        },
        None => {},
    }
}

fn push_isolation(out: &mut Vec<String>)
    ensures
        views(final(out)@) == views(old(out)@) + isolation_args(),
{
    push_text(out, "--ro-bind");
    push_text(out, "/");
    push_text(out, "/");
    push_text(out, "--dev");
    push_text(out, "/dev");
    push_text(out, "--proc");
    push_text(out, "/proc");
    push_text(out, "--tmpfs");
    push_text(out, "/tmp");
    push_text(out, "--tmpfs");
    push_text(out, "/dev/shm");
    push_text(out, "--unshare-pid");
    push_text(out, "--die-with-parent");
}

fn push_session(out: &mut Vec<String>, env: &SessionEnv)
    ensures
        views(final(out)@) == views(old(out)@) + session_args(*env),
{
    let ghost start = views(out@);
    match &env.display {
        Some(d) => {
            push_text(out, "--setenv");
            push_text(out, "DISPLAY");
            push_text(out, d.as_str());
            push_text(out, "--ro-bind-try");
            push_text(out, "/tmp/.X11-unix");
            push_text(out, "/tmp/.X11-unix");
        },
        None => {},
    }
    let ghost a = views(out@);
    push_setenv(out, "WAYLAND_DISPLAY", &env.wayland_display);
    push_setenv(out, "XAUTHORITY", &env.xauthority);
    push_bind_same(out, "--ro-bind-try", &env.xauthority);
    push_setenv(out, "XDG_RUNTIME_DIR", &env.xdg_runtime_dir);
    push_bind_same(out, "--bind-try", &env.xdg_runtime_dir);
    push_setenv(out, "DBUS_SESSION_BUS_ADDRESS", &env.dbus_session_bus_address);
    proof {
        let x11 = match opt_view(env.display) {
            Some(dv) => seq![
                "--setenv"@,
                "DISPLAY"@,
                dv,
                "--ro-bind-try"@,
                "/tmp/.X11-unix"@,
                "/tmp/.X11-unix"@,
            ],
            None => Seq::<Seq<char>>::empty(),
        };
        assert(a =~= start + x11);
        assert(views(out@) =~= start + session_args(*env));
    }
}

fn push_appearance(out: &mut Vec<String>)
    ensures
        views(final(out)@) == views(old(out)@) + appearance_args(),
{
    push_text(out, "--ro-bind-try");
    push_text(out, "/usr/share/fonts");
    push_text(out, "/usr/share/fonts");
    push_text(out, "--ro-bind-try");
    push_text(out, "/etc/fonts");
    push_text(out, "/etc/fonts");
    push_text(out, "--ro-bind-try");
    push_text(out, "/usr/share/icons");
    push_text(out, "/usr/share/icons");
    push_text(out, "--ro-bind-try");
    push_text(out, "/usr/share/themes");
    push_text(out, "/usr/share/themes");
}

/// The `bwrap` arguments that run `target_bin` with `app_args` inside the
/// sandbox, with the vault at `mount_path` bound onto `config_dir` and `data_dir`.
pub fn bwrap_args(
    mount_path: &str,
    config_dir: &str,
    data_dir: &str,
    env: &SessionEnv,
    home: &str,
    target_bin: &str,
    app_name: &str,
    app_exec: &str,
    app_args: &Vec<String>,
) -> (r: Vec<String>)
    ensures
        views(r@) == bwrap_args_spec(
            mount_path@,
            config_dir@,
            data_dir@,
            *env,
            home@,
            target_bin@,
            app_name@,
            app_exec@,
            views(app_args@),
        ),
{
    let mut out: Vec<String> = Vec::new();
    push_isolation(&mut out);
    let ghost s1 = views(out@);
    push_text(&mut out, "--bind");
    push_text(&mut out, mount_path);
    push_text(&mut out, config_dir);
    push_text(&mut out, "--bind");
    push_text(&mut out, mount_path);
    push_text(&mut out, data_dir);
    let ghost s2 = views(out@);
    push_session(&mut out, env);
    push_appearance(&mut out);
    push_setenv(&mut out, "LANG", &env.lang);
    let ghost s3 = views(out@);
    push_text(&mut out, "--setenv");
    push_text(&mut out, "HOME");
    push_text(&mut out, home);
    let ghost s4 = views(out@);
    push_text(&mut out, target_bin);
    let ghost s5 = views(out@);
    if is_chromium(app_name, app_exec) && !has_arg(app_args, "--no-sandbox") {
        push_text(&mut out, "--no-sandbox");
    }
    push_all(&mut out, app_args);
    proof {
        assert(s2 =~= s1 + vault_bind_args(mount_path@, config_dir@, data_dir@));
        assert(s4 =~= s3 + seq!["--setenv"@, "HOME"@, home@]);
        assert(s5 =~= s4 + seq![target_bin@]);
        assert(views(out@) =~= s5 + program_args(app_name@, app_exec@, views(app_args@)));
        assert(views(out@) =~= bwrap_args_spec(
            mount_path@,
            config_dir@,
            data_dir@,
            *env,
            home@,
            target_bin@,
            app_name@,
            app_exec@,
            views(app_args@),
        ));
    }
    out
}

/// Plans a sandboxed run of `app_exec` (found at `target_bin`) for the
/// application `app_name`, with the vault decrypted at `mount_path`.
pub fn plan_sandbox(
    app_name: &str,
    app_exec: &str,
    app_args: &Vec<String>,
    mount_path: &str,
    custom_target_dir: Option<String>,
    home: &str,
    target_bin: &str,
    env: &SessionEnv,
) -> (r: SandboxPlan)
    ensures
        r.config_dir@ == config_dir_spec(
            home@,
            target_subpath_spec(app_name@, app_exec@, opt_view(custom_target_dir)),
        ),
        r.data_dir@ == data_dir_spec(
            home@,
            target_subpath_spec(app_name@, app_exec@, opt_view(custom_target_dir)),
        ),
        views(r.args@) == bwrap_args_spec(
            mount_path@,
            r.config_dir@,
            r.data_dir@,
            *env,
            home@,
            target_bin@,
            app_name@,
            app_exec@,
            views(app_args@),
        ),
{
    let sub = target_subpath(app_name, app_exec, custom_target_dir);
    let config_base = join_path(home, ".config");
    let config_dir = join_path(config_base.as_str(), sub.as_str());
    let data_base = join_path(home, ".local/share");
    let data_dir = join_path(data_base.as_str(), sub.as_str());
    let args = bwrap_args(
        mount_path,
        config_dir.as_str(),
        data_dir.as_str(),
        env,
        home,
        target_bin,
        app_name,
        app_exec,
        app_args,
    );
    SandboxPlan { config_dir, data_dir, args }
}

/// The program to run: the one found under the executable's name, else the
/// one found under the application's name; `TargetBinaryNotFound(app_exec)`
/// when neither was found.
pub fn choose_target_binary(
    by_exec: Option<String>,
    by_name: Option<String>,
    app_exec: &str,
) -> (r: Result<String, LockerError>)
    ensures
        match (opt_view(by_exec), opt_view(by_name)) {
            (Some(p), _) => r matches Ok(q) && q@ == p,
            (None, Some(p)) => r matches Ok(q) && q@ == p,
            (None, None) => r matches Err(e) && e@ == ErrorView::TargetBinaryNotFound(app_exec@),
        },
{
    match by_exec {
        Some(p) => Ok(p),
        None => match by_name {
            Some(p) => Ok(p),
            None => Err(LockerError::TargetBinaryNotFound(owned(app_exec))),
        },
    }
}

/// Every sandbox is isolated the same way, whatever the session offers: the
/// arguments start with the fixed isolation flags followed by the binds of
/// the vault onto the configuration and data directories.
pub proof fn lemma_sandbox_always_isolated(
    mount: Seq<char>,
    config: Seq<char>,
    data: Seq<char>,
    env: SessionEnv,
    home: Seq<char>,
    target_bin: Seq<char>,
    app_name: Seq<char>,
    app_exec: Seq<char>,
    app_args: Seq<Seq<char>>,
)
    ensures
        bwrap_args_spec(mount, config, data, env, home, target_bin, app_name, app_exec, app_args).take(19)
            == isolation_args() + vault_bind_args(mount, config, data),
{
    let all = bwrap_args_spec(mount, config, data, env, home, target_bin, app_name, app_exec, app_args);
    let head = isolation_args() + vault_bind_args(mount, config, data);
    assert(head.len() == 19);
    assert(all.take(19) =~= head);
}

/// The application's own arguments reach it unchanged and in order: they
/// are the last arguments of the command line, right after the target
/// binary (and `--no-sandbox`, when that was added).
pub proof fn lemma_app_args_passed_last(
    mount: Seq<char>,
    config: Seq<char>,
    data: Seq<char>,
    env: SessionEnv,
    home: Seq<char>,
    target_bin: Seq<char>,
    app_name: Seq<char>,
    app_exec: Seq<char>,
    app_args: Seq<Seq<char>>,
)
    ensures
        ({
            let all = bwrap_args_spec(
                mount,
                config,
                data,
                env,
                home,
                target_bin,
                app_name,
                app_exec,
                app_args,
            );
            all.subrange(all.len() - app_args.len(), all.len() as int) == app_args
        }),
{
    let all = bwrap_args_spec(mount, config, data, env, home, target_bin, app_name, app_exec, app_args);
    assert(all.subrange(all.len() - app_args.len(), all.len() as int) =~= app_args);
}

/// A Chromium-based browser always runs with `--no-sandbox` (exactly once
/// when it was not already asked for), and any other application never gets
/// it added.
pub proof fn lemma_no_sandbox_flag(
    app_name: Seq<char>,
    app_exec: Seq<char>,
    app_args: Seq<Seq<char>>,
)
    ensures
        chromium_like(app_name, app_exec) ==> holds_arg(
            program_args(app_name, app_exec, app_args),
            "--no-sandbox"@,
        ),
        !chromium_like(app_name, app_exec) ==> program_args(app_name, app_exec, app_args)
            == app_args,
        holds_arg(app_args, "--no-sandbox"@) ==> program_args(app_name, app_exec, app_args)
            == app_args,
{
    if chromium_like(app_name, app_exec) && !holds_arg(app_args, "--no-sandbox"@) {
        let p = program_args(app_name, app_exec, app_args);
        assert(p[0] == "--no-sandbox"@);
    }
}

/// Each of the six marks makes an application a Chromium-based browser on
/// its own: "brave", "chrome" or "chromium" anywhere in the executable or
/// anywhere in the application's name; without any of them it is not one.
/// Such a browser's program arguments always hold `--no-sandbox`.
pub proof fn lemma_chromium_marks(
    app_name: Seq<char>,
    app_exec: Seq<char>,
    app_args: Seq<Seq<char>>,
)
    ensures
        has_infix(app_exec, "brave"@) ==> chromium_like(app_name, app_exec),
        has_infix(app_name, "brave"@) ==> chromium_like(app_name, app_exec),
        has_infix(app_exec, "chrome"@) ==> chromium_like(app_name, app_exec),
        has_infix(app_name, "chrome"@) ==> chromium_like(app_name, app_exec),
        has_infix(app_exec, "chromium"@) ==> chromium_like(app_name, app_exec),
        has_infix(app_name, "chromium"@) ==> chromium_like(app_name, app_exec),
        chromium_like(app_name, app_exec) ==> has_infix(app_exec, "brave"@) || has_infix(
            app_name,
            "brave"@,
        ) || has_infix(app_exec, "chrome"@) || has_infix(app_name, "chrome"@) || has_infix(
            app_exec,
            "chromium"@,
        ) || has_infix(app_name, "chromium"@),
        (has_infix(app_exec, "brave"@) || has_infix(app_name, "brave"@) || has_infix(
            app_exec,
            "chrome"@,
        ) || has_infix(app_name, "chrome"@) || has_infix(app_exec, "chromium"@) || has_infix(
            app_name,
            "chromium"@,
        )) ==> holds_arg(program_args(app_name, app_exec, app_args), "--no-sandbox"@),
{
    lemma_no_sandbox_flag(app_name, app_exec, app_args);
}

} // verus!
