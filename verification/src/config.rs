use vstd::prelude::*;

use crate::error::{ErrorView, LockerError};
use crate::text::{chars_of, is_absolute, join_path, joined, opt_view, owned, push_char, views};

verus! {

/// Where the locker keeps its files: everything lives under `base_dir`,
/// encrypted vaults under `vaults_dir`, plaintext mount points under `mounts_dir`.
pub struct AppConfig {
    pub base_dir: String,
    pub vaults_dir: String,
    pub mounts_dir: String,
}

/// The locker's directory layout below the per-user data directory `data`.
pub open spec fn laid_out_under(c: AppConfig, data: Seq<char>) -> bool {
    &&& c.base_dir@ == joined(data, "app-locker"@)
    &&& c.vaults_dir@ == joined(c.base_dir@, "vaults"@)
    &&& c.mounts_dir@ == joined(c.base_dir@, "mounts"@)
}

/// `dirs::data_dir`, as text. What it returns depends on the environment
/// (`XDG_DATA_HOME`, `HOME`, the password database), so nothing is stated
/// of the result.
#[verifier::external_body]
fn platform_data_dir() -> (r: Option<String>) {
    dirs::data_dir().map(|p| p.to_string_lossy().into_owned())
}

/// `dirs::home_dir`, as text. What it returns depends on the environment
/// (`HOME`, the password database), so nothing is stated of the result.
#[verifier::external_body]
pub(crate) fn platform_home_dir() -> (r: Option<String>) {
    dirs::home_dir().map(|p| p.to_string_lossy().into_owned())
}

impl AppConfig {
    /// The layout below the given per-user data directory.
    pub fn from_data_dir(data_dir: &str) -> (r: AppConfig)
        ensures
            laid_out_under(r, data_dir@),
    {
        let base_dir = join_path(data_dir, "app-locker");
        let vaults_dir = join_path(base_dir.as_str(), "vaults");
        let mounts_dir = join_path(base_dir.as_str(), "mounts");
        AppConfig { base_dir, vaults_dir, mounts_dir }
    }

    /// The layout below the per-user data directory the platform reported:
    /// `NoDataDir` when it reported none.
    pub fn from_platform_dir(data_dir: Option<String>) -> (r: Result<AppConfig, LockerError>)
        ensures
            match opt_view(data_dir) {
                Some(d) => r matches Ok(c) && laid_out_under(c, d),
                None => r matches Err(e) && e@ == ErrorView::NoDataDir,
            },
    {
        match data_dir {
            Some(d) => Ok(AppConfig::from_data_dir(d.as_str())),
            None => Err(LockerError::NoDataDir),
        }
    }

    /// The layout below the platform's per-user data directory; fails with
    /// `NoDataDir` when the platform reports none. (The directories are not
    /// created here.)
    pub fn new() -> (r: Result<AppConfig, LockerError>)
        ensures
            match r {
                Ok(c) => exists|d: Seq<char>| #[trigger] laid_out_under(c, d),
                Err(e) => e@ == ErrorView::NoDataDir,
            },
    {
        let dir = platform_data_dir();
        let ghost dv = opt_view(dir);
        let r = AppConfig::from_platform_dir(dir);
        proof {
            if let Some(d) = dv {
                assert(laid_out_under(r->Ok_0, d));
            }
        }
        r
    }

    /// Where the encrypted storage of `app_name` lives.
    pub fn get_vault_path(&self, app_name: &str) -> (r: String)
        ensures
            r@ == joined(self.vaults_dir@, app_name@),
    {
        join_path(self.vaults_dir.as_str(), app_name)
    }

    /// Where the decrypted view of `app_name` is mounted.
    pub fn get_mount_path(&self, app_name: &str) -> (r: String)
        ensures
            r@ == joined(self.mounts_dir@, app_name@),
    {
        join_path(self.mounts_dir.as_str(), app_name)
    }
}

/// The fields of `s` separated by `sep` (as `str::split` with a character):
/// there is always at least one field, and `n` separators give `n + 1` fields.
pub open spec fn split_on(s: Seq<char>, sep: char) -> Seq<Seq<char>>
    decreases s.len(),
{
    if s.len() == 0 {
        seq![Seq::<char>::empty()]
    } else {
        let init = split_on(s.drop_last(), sep);
        if s.last() == sep {
            init.push(Seq::<char>::empty())
        } else {
            init.update(init.len() - 1, init.last().push(s.last()))
        }
    }
}

/// The directories searched after those of `PATH`, in order.
pub open spec fn standard_bin_dirs() -> Seq<Seq<char>> {
    seq!["/usr/bin"@, "/usr/local/bin"@, "/bin"@, "/tmp"@]
}

/// Each directory of `dirs` joined with `name`.
pub open spec fn each_joined(dirs: Seq<Seq<char>>, name: Seq<char>) -> Seq<Seq<char>> {
    dirs.map_values(|d: Seq<char>| joined(d, name))
}

/// Where `name` is looked for, in order: each directory of the `PATH` value
/// (when set), then `~/.local/bin` (when the home directory is known), then
/// the standard binary directories.
pub open spec fn binary_candidates_spec(
    name: Seq<char>,
    path_var: Option<Seq<char>>,
    home: Option<Seq<char>>,
) -> Seq<Seq<char>> {
    let from_path = match path_var {
        Some(p) => each_joined(split_on(p, ':'), name),
        None => Seq::<Seq<char>>::empty(),
    };
    let from_home = match home {
        Some(h) => seq![joined(joined(h, ".local/bin"@), name)],
        None => Seq::<Seq<char>>::empty(),
    };
    from_path + from_home + each_joined(standard_bin_dirs(), name)
}

/// The fields of `s` separated by `':'`.
fn split_colon(s: &str) -> (r: Vec<String>)
    ensures
        views(r@) == split_on(s@, ':'),
{
    let v = chars_of(s);
    let mut fields: Vec<String> = Vec::new();
    let mut cur = String::new();
    let mut i: usize = 0;
    proof {
        assert(v@.take(0) =~= Seq::<char>::empty());
        assert(views(fields@).push(cur@) =~= split_on(v@.take(0), ':'));
    }
    while i < v.len()
        invariant
            v@ == s@,
            i <= v.len(),
            views(fields@).push(cur@) == split_on(v@.take(i as int), ':'),
        decreases v.len() - i,
    {
        let c = v[i];
        proof {
            assert(v@.take(i + 1).drop_last() == v@.take(i as int));
            assert(v@.take(i + 1).last() == c);
        }
        if c == ':' {
            let done = cur;
            fields.push(done);
            cur = String::new();
            proof {
                assert(views(fields@) =~= split_on(v@.take(i as int), ':'));
                assert(views(fields@).push(cur@) =~= split_on(v@.take(i + 1), ':'));
            }
        } else {
            push_char(&mut cur, c);
            proof {
                let init = split_on(v@.take(i as int), ':');
                assert(views(fields@).push(cur@) =~= init.update(init.len() - 1, init.last().push(c)));
            }
        }
        i = i + 1;
    }
    proof {
        assert(v@.take(v.len() as int) == s@);
    }
    let last = cur;
    fields.push(last);
    proof {
        assert(views(fields@) =~= split_on(s@, ':'));
    }
    fields
}

/// Appends each directory of `dirs` joined with `name` to `out`.
fn push_each_joined(out: &mut Vec<String>, dirs: &Vec<String>, name: &str)
    ensures
        views(final(out)@) == views(old(out)@) + each_joined(views(dirs@), name@),
{
    let ghost start = views(out@);
    let mut i: usize = 0;
    while i < dirs.len()
        invariant
            i <= dirs.len(),
            views(out@) == start + each_joined(views(dirs@), name@).take(i as int),
        decreases dirs.len() - i,
    {
        let p = join_path(dirs[i].as_str(), name);
        let ghost before = out@;
        out.push(p);
        proof {
            assert(out@ == before.push(p));
            assert(views(out@) =~= views(before).push(p@));
            assert(each_joined(views(dirs@), name@).take(i + 1) =~= each_joined(
                views(dirs@),
                name@,
            ).take(i as int).push(joined(dirs@[i as int]@, name@)));
            assert(views(out@) =~= start + each_joined(views(dirs@), name@).take(i + 1));
        }
        i = i + 1;
    }
    proof {
        assert(each_joined(views(dirs@), name@).take(dirs.len() as int) =~= each_joined(
            views(dirs@),
            name@,
        ));
    }
}

/// Every place where the program `binary_name` is looked for, in the order
/// in which they are tried, given the `PATH` value and the home directory.
pub fn binary_candidates(binary_name: &str, path_var: Option<String>, home: Option<String>) -> (r:
    Vec<String>)
    ensures
        views(r@) == binary_candidates_spec(binary_name@, opt_view(path_var), opt_view(home)),
{
    let mut out: Vec<String> = Vec::new();
    match &path_var {
        Some(p) => {
            let dirs = split_colon(p.as_str());
            push_each_joined(&mut out, &dirs, binary_name);
        },
        None => {},
    }
    let ghost after_path = views(out@);
    match &home {
        Some(h) => {
            let local_bin = join_path(h.as_str(), ".local/bin");
            let p = join_path(local_bin.as_str(), binary_name);
            out.push(p);
        },
        None => {},
    }
    let ghost after_home = views(out@);
    let mut std_dirs: Vec<String> = Vec::new();
    std_dirs.push(owned("/usr/bin"));
    std_dirs.push(owned("/usr/local/bin"));
    std_dirs.push(owned("/bin"));
    std_dirs.push(owned("/tmp"));
    assert(views(std_dirs@) =~= standard_bin_dirs());
    push_each_joined(&mut out, &std_dirs, binary_name);
    proof {
        let name = binary_name@;
        let from_path = match opt_view(path_var) {
            Some(p) => each_joined(split_on(p, ':'), name),
            None => Seq::<Seq<char>>::empty(),
        };
        let from_home = match opt_view(home) {
            Some(h) => seq![joined(joined(h, ".local/bin"@), name)],
            None => Seq::<Seq<char>>::empty(),
        };
        assert(after_path =~= from_path);
        assert(after_home =~= from_path + from_home);
    }
    out
}

/// Where the program `binary_name` is looked for, given the `PATH` value;
/// the home directory is the one the platform reports.
pub fn binary_search_list(binary_name: &str, path_var: Option<String>) -> (r: Vec<String>)
    ensures
        exists|home: Option<Seq<char>>|
            views(r@) == binary_candidates_spec(binary_name@, opt_view(path_var), home),
{
    let home = platform_home_dir();
    binary_candidates(binary_name, path_var, home)
}

/// The first place that holds the program: `probes[i]` pairs a candidate
/// path with whether an executable file exists there; `BinaryNotFound` for
/// `binary_name` when none does.
pub fn first_existing(probes: &Vec<(String, bool)>, binary_name: &str) -> (r: Result<
    String,
    LockerError,
>)
    ensures
        match r {
            Ok(p) => exists|i: int|
                0 <= i < probes.len() && probes@[i].1 && (forall|j: int|
                    0 <= j < i ==> !probes@[j].1) && p@ == probes@[i].0@,
            Err(e) => (forall|i: int| 0 <= i < probes.len() ==> !probes@[i].1) && e@
                == ErrorView::BinaryNotFound(binary_name@),
        },
{
    let mut i: usize = 0;
    while i < probes.len()
        invariant
            i <= probes.len(),
            forall|j: int| 0 <= j < i ==> !probes@[j].1,
        decreases probes.len() - i,
    {
        if probes[i].1 {
            let p = probes[i].0.clone();
            return Ok(p);
        }
        i = i + 1;
    }
    Err(LockerError::BinaryNotFound(owned(binary_name)))
}

proof fn lemma_join_relative(base: Seq<char>, part: Seq<char>)
    requires
        base.len() > 0,
        base.last() != '/',
        !is_absolute(part),
    ensures
        joined(base, part) == base + seq!['/'] + part,
{
}

proof fn lemma_layout_shape(c: AppConfig, data: Seq<char>)
    requires
        laid_out_under(c, data),
    ensures
        c.vaults_dir@ == c.base_dir@ + seq!['/'] + "vaults"@,
        c.mounts_dir@ == c.base_dir@ + seq!['/'] + "mounts"@,
        c.base_dir@.len() > 0,
        c.vaults_dir@.len() > 0 && c.vaults_dir@.last() == 's',
        c.mounts_dir@.len() > 0 && c.mounts_dir@.last() == 's',
{
    reveal_strlit("app-locker");
    reveal_strlit("vaults");
    reveal_strlit("mounts");
    assert(!is_absolute("app-locker"@));
    let base = c.base_dir@;
    assert(base.last() == 'r');
    assert(!is_absolute("vaults"@));
    assert(!is_absolute("mounts"@));
}

/// Every application has a vault and a mount point of its own, and no vault
/// is ever a mount point: for application names that are relative paths,
/// different names give different vault paths and different mount paths,
/// and a vault path never equals a mount path.
pub proof fn lemma_vault_and_mount_paths_apart(
    c: AppConfig,
    data: Seq<char>,
    a: Seq<char>,
    b: Seq<char>,
)
    requires
        laid_out_under(c, data),
        !is_absolute(a),
        !is_absolute(b),
    ensures
        joined(c.vaults_dir@, a) == joined(c.vaults_dir@, b) ==> a == b,
        joined(c.mounts_dir@, a) == joined(c.mounts_dir@, b) ==> a == b,
        joined(c.vaults_dir@, a) != joined(c.mounts_dir@, b),
{
    lemma_layout_shape(c, data);
    reveal_strlit("vaults");
    reveal_strlit("mounts");
    let v = c.vaults_dir@;
    let m = c.mounts_dir@;
    lemma_join_relative(v, a);
    lemma_join_relative(v, b);
    lemma_join_relative(m, a);
    lemma_join_relative(m, b);
    let pre_v = v + seq!['/'];
    let pre_m = m + seq!['/'];
    if joined(v, a) == joined(v, b) {
        assert((pre_v + a).subrange(pre_v.len() as int, (pre_v + a).len() as int) =~= a);
        assert((pre_v + b).subrange(pre_v.len() as int, (pre_v + b).len() as int) =~= b);
    }
    if joined(m, a) == joined(m, b) {
        assert((pre_m + a).subrange(pre_m.len() as int, (pre_m + a).len() as int) =~= a);
        assert((pre_m + b).subrange(pre_m.len() as int, (pre_m + b).len() as int) =~= b);
    }
    let k: int = c.base_dir@.len() as int + 1;
    assert((pre_v + a)[k] == 'v');
    assert((pre_m + b)[k] == 'm');
}

} // verus!

