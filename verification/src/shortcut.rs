use vstd::prelude::*;

use crate::text::{concat2, concat3, join_path, joined, opt_view, owned, views};

verus! {

/// The name of the launcher file of `app_name`.
pub open spec fn desktop_file_name_spec(app_name: Seq<char>) -> Seq<char> {
    "app-locker-"@ + app_name + ".desktop"@
}

/// The name of the launcher file of `app_name`.
pub fn desktop_file_name(app_name: &str) -> (r: String)
    ensures
        r@ == desktop_file_name_spec(app_name@),
{
    concat3("app-locker-", app_name, ".desktop")
}

/// The icon every launcher shows: the stock locked-security icon.
pub open spec fn launcher_icon() -> Seq<char> {
    "security-high"@
}

/// The text of the launcher: a desktop entry that runs `exe_path run-gui`
/// for the application, shown with the locked-security icon.
pub open spec fn desktop_entry_spec(
    app_name: Seq<char>,
    exe_path: Seq<char>,
    target_exec: Seq<char>,
) -> Seq<char> {
    "[Desktop Entry]\nVersion=1.0\nType=Application\nName="@ + app_name
        + " (Locked)\nComment=Launch "@ + app_name
        + " inside an encrypted, isolated App Locker sandbox\nExec=\""@ + exe_path
        + "\" run-gui \""@ + app_name + "\" --exec \""@ + target_exec + "\"\nIcon="@
        + launcher_icon() + "\nTerminal=false\nCategories=Utility;Security;\n"@
}

/// The text of the launcher file.
pub fn desktop_entry_content(app_name: &str, exe_path: &str, target_exec: &str) -> (r: String)
    ensures
        r@ == desktop_entry_spec(app_name@, exe_path@, target_exec@),
{
    let mut s = owned("[Desktop Entry]\nVersion=1.0\nType=Application\nName=");
    s.append(app_name);
    s.append(" (Locked)\nComment=Launch ");
    s.append(app_name);
    s.append(" inside an encrypted, isolated App Locker sandbox\nExec=\"");
    s.append(exe_path);
    s.append("\" run-gui \"");
    s.append(app_name);
    s.append("\" --exec \"");
    s.append(target_exec);
    s.append("\"\nIcon=");
    s.append("security-high");
    s.append("\nTerminal=false\nCategories=Utility;Security;\n");
    s
}

/// Where the files belonging to an application's launcher live.
pub struct ShortcutLayout {
    /// The menu's launcher directory.
    pub apps_dir: String,
    /// The launcher in the menu.
    pub entry_path: String,
    /// The desktop directory.
    pub desktop_dir: String,
    /// The copy of the launcher on the desktop.
    pub desktop_copy: String,
    /// Where badged icons are kept.
    pub icons_dir: String,
    /// The application's badged icon.
    pub badged_icon: String,
}

/// The layout of an application's launcher files below the home directory.
pub open spec fn shortcut_layout_holds(l: ShortcutLayout, home: Seq<char>, app: Seq<char>) -> bool {
    &&& l.apps_dir@ == joined(home, ".local/share/applications"@)
    &&& l.entry_path@ == joined(l.apps_dir@, desktop_file_name_spec(app))
    &&& l.desktop_dir@ == joined(home, "Desktop"@)
    &&& l.desktop_copy@ == joined(l.desktop_dir@, desktop_file_name_spec(app))
    &&& l.icons_dir@ == joined(home, ".local/share/app-locker/icons"@)
    &&& l.badged_icon@ == joined(l.icons_dir@, app + "-locked.png"@)
}

/// Where the launcher files of `app_name` live below `home`.
pub fn shortcut_layout(home: &str, app_name: &str) -> (r: ShortcutLayout)
    ensures
        shortcut_layout_holds(r, home@, app_name@),
{
    let file_name = desktop_file_name(app_name);
    let apps_dir = join_path(home, ".local/share/applications");
    let entry_path = join_path(apps_dir.as_str(), file_name.as_str());
    let desktop_dir = join_path(home, "Desktop");
    let desktop_copy = join_path(desktop_dir.as_str(), file_name.as_str());
    let icons_dir = join_path(home, ".local/share/app-locker/icons");
    let icon_name = concat2(app_name, "-locked.png");
    let badged_icon = join_path(icons_dir.as_str(), icon_name.as_str());
    ShortcutLayout { apps_dir, entry_path, desktop_dir, desktop_copy, icons_dir, badged_icon }
}

/// What is removed with an application's launcher: the menu entry, the
/// desktop copy and the badged icon.
pub fn shortcut_artifacts(home: &str, app_name: &str) -> (r: Vec<String>)
    ensures
        exists|l: ShortcutLayout|
            shortcut_layout_holds(l, home@, app_name@) && views(r@) == seq![
                l.entry_path@,
                l.desktop_copy@,
                l.badged_icon@,
            ],
{
    let l = shortcut_layout(home, app_name);
    let mut out: Vec<String> = Vec::new();
    out.push(l.entry_path.clone());
    out.push(l.desktop_copy.clone());
    out.push(l.badged_icon.clone());
    assert(views(out@) =~= seq![l.entry_path@, l.desktop_copy@, l.badged_icon@]);
    out
}

/// One place to look for an application's own (unbadged) icon.
pub struct IconProbe {
    pub root: String,
    pub file_name: String,
}

/// The icon file names tried for an application, most specific first.
pub open spec fn icon_names_spec(app: Seq<char>, exec: Seq<char>) -> Seq<Seq<char>> {
    seq![
        exec + ".png"@,
        app + "-browser"@ + ".png"@,
        "org.gnome."@ + app + ".png"@,
        app + ".png"@,
    ]
}

/// The directories searched for icons, in order; without a known home
/// directory the last one is taken relative to the working directory.
pub open spec fn icon_roots_spec(home: Option<Seq<char>>) -> Seq<Seq<char>> {
    let h = match home {
        Some(h) => h,
        None => Seq::<char>::empty(),
    };
    seq!["/usr/share/icons"@, "/usr/share/pixmaps"@, joined(h, ".local/share/icons"@)]
}

/// The probes in the order they are tried: every root for the first name,
/// then every root for the next name, and so on.
pub open spec fn icon_probe_order(app: Seq<char>, exec: Seq<char>, home: Option<Seq<char>>) -> Seq<
    (Seq<char>, Seq<char>),
> {
    let names = icon_names_spec(app, exec);
    let roots = icon_roots_spec(home);
    Seq::new(
        names.len() * roots.len(),
        |k: int| (roots[k % roots.len() as int], names[k / roots.len() as int]),
    )
}

/// The views of a list of probes.
pub open spec fn probe_views(v: Seq<IconProbe>) -> Seq<(Seq<char>, Seq<char>)> {
    v.map_values(|p: IconProbe| (p.root@, p.file_name@))
}

/// Where to look for the unbadged icon of an application, in order.
pub fn icon_search_plan(app_name: &str, target_exec: &str, home: Option<String>) -> (r: Vec<
    IconProbe,
>)
    ensures
        probe_views(r@) == icon_probe_order(app_name@, target_exec@, opt_view(home)),
{
    let mut names: Vec<String> = Vec::new();
    names.push(concat2(target_exec, ".png"));
    let browser = concat2(app_name, "-browser");
    names.push(concat2(browser.as_str(), ".png"));
    names.push(concat3("org.gnome.", app_name, ".png"));
    names.push(concat2(app_name, ".png"));
    let ghost nv = views(names@);
    assert(nv =~= icon_names_spec(app_name@, target_exec@));
    let h = match home {
        Some(h) => h,
        None => String::new(),
    };
    let mut roots: Vec<String> = Vec::new();
    roots.push(owned("/usr/share/icons"));
    roots.push(owned("/usr/share/pixmaps"));
    roots.push(join_path(h.as_str(), ".local/share/icons"));
    let ghost rv = views(roots@);
    assert(rv =~= icon_roots_spec(opt_view(home)));
    let mut out: Vec<IconProbe> = Vec::new();
    let mut i: usize = 0;
    while i < 4
        invariant
            names.len() == 4,
            roots.len() == 3,
            views(names@) == nv,
            views(roots@) == rv,
            i <= 4,
            probe_views(out@) == Seq::new(
                (i * 3) as nat,
                |k: int| (rv[k % 3], nv[k / 3]),
            ),
        decreases 4 - i,
    {
        let mut j: usize = 0;
        while j < 3
            invariant
                names.len() == 4,
                roots.len() == 3,
                views(names@) == nv,
                views(roots@) == rv,
                i < 4,
                j <= 3,
                probe_views(out@) == Seq::new(
                    (i * 3 + j) as nat,
                    |k: int| (rv[k % 3], nv[k / 3]),
                ),
            decreases 3 - j,
        {
            let probe = IconProbe { root: roots[j].clone(), file_name: names[i].clone() };
            let ghost before = out@;
            out.push(probe);
            proof {
                assert(out@ == before.push(probe));
                assert(probe_views(out@) =~= probe_views(before).push((rv[j as int], nv[i as int])));
                let k = i * 3 + j;
                assert((k % 3) as int == j as int) by (nonlinear_arith)
                    requires
                        k == i * 3 + j,
                        j < 3,
                ;
                assert((k / 3) as int == i as int) by (nonlinear_arith)
                    requires
                        k == i * 3 + j,
                        j < 3,
                ;
                assert(probe_views(out@) =~= Seq::new(
                    (i * 3 + j + 1) as nat,
                    |k: int| (rv[k % 3], nv[k / 3]),
                ));
            }
            j = j + 1;
        }
        i = i + 1;
    }
    proof {
        assert(probe_views(out@) =~= icon_probe_order(app_name@, target_exec@, opt_view(home)));
    }
    out
}

/// Icon theme directories that hold no application icons and are not searched.
pub open spec fn skipped_dir_name(name: Seq<char>) -> bool {
    name == "cursors"@ || name == "emblems"@ || name == "mimetypes"@
}

/// A depth-first search of a directory tree for a file of a given name;
/// the caller lists each directory handed out and reports its entries.
pub struct DirSearch {
    /// Directories still to be listed, the next one last.
    pub pending: Vec<String>,
    /// The file name looked for.
    pub target: String,
}

/// What to do with one directory entry.
pub enum EntryVerdict {
    /// A directory that is queued to be listed.
    Descend,
    /// A directory that is not searched.
    Skip,
    /// The file looked for.
    Found,
    /// Any other file.
    Ignore,
}

impl DirSearch {
    /// A search for `target` starting at `root`.
    pub fn new(root: String, target: String) -> (r: DirSearch)
        ensures
            views(r.pending@) == seq![root@],
            r.target == target,
    {
        let mut pending: Vec<String> = Vec::new();
        let ghost rv = root@;
        pending.push(root);
        assert(views(pending@) =~= seq![rv]);
        DirSearch { pending, target }
    }

    /// The next directory to list, the one queued last; `None` when the tree is exhausted.
    pub fn next_dir(&mut self) -> (r: Option<String>)
        ensures
            final(self).target == old(self).target,
            old(self).pending.len() == 0 ==> r is None && final(self).pending@ == old(self).pending@,
            old(self).pending.len() > 0 ==> (r matches Some(d) && d == old(self).pending@.last()
                && final(self).pending@ == old(self).pending@.drop_last()),
    {
        self.pending.pop()
    }

    /// Judges the entry at `path` (a directory or not, with its final name
    /// when that is valid text): directories are queued unless they are
    /// skipped, and a file whose name is the target is the one found.
    pub fn visit(&mut self, path: String, is_dir: bool, file_name: Option<String>) -> (r:
        EntryVerdict)
        ensures
            final(self).target == old(self).target,
            is_dir && !(opt_view(file_name) matches Some(n) && skipped_dir_name(n)) ==> (r
                is Descend && final(self).pending@ == old(self).pending@.push(path)),
            is_dir && (opt_view(file_name) matches Some(n) && skipped_dir_name(n)) ==> (r is Skip
                && final(self).pending@ == old(self).pending@),
            !is_dir && opt_view(file_name) == Some(old(self).target@) ==> (r is Found
                && final(self).pending@ == old(self).pending@),
            !is_dir && opt_view(file_name) != Some(old(self).target@) ==> (r is Ignore
                && final(self).pending@ == old(self).pending@),
            (views(final(self).pending@), r is Found) == entry_step(
                views(old(self).pending@),
                (EntryView { path: path@, is_dir, name: opt_view(file_name) }),
                old(self).target@,
            ),
    {
        let ghost before = self.pending@;
        let ghost pv = path@;
        if is_dir {
            let skip = match &file_name {
                Some(n) => {
                    *n == owned("cursors") || *n == owned("emblems") || *n == owned("mimetypes")
                },
                None => false,
            };
            if skip {
                EntryVerdict::Skip
            } else {
                self.pending.push(path);
                assert(views(self.pending@) =~= views(before).push(pv));
                EntryVerdict::Descend
            }
        } else {
            match &file_name {
                Some(n) => {
                    if *n == self.target {
                        EntryVerdict::Found
                    } else {
                        EntryVerdict::Ignore
                    }
                },
                None => EntryVerdict::Ignore,
            }
        }
    }
}

/// One directory entry as the search sees it: its path, whether it is a
/// directory, and its final name when that is valid text.
pub struct EntryView {
    pub path: Seq<char>,
    pub is_dir: bool,
    pub name: Option<Seq<char>>,
}

/// The entry is a directory that the search goes into.
pub open spec fn descends_into(e: EntryView) -> bool {
    e.is_dir && !(e.name matches Some(n) && skipped_dir_name(n))
}

/// The entry is the file looked for.
pub open spec fn is_target_file(e: EntryView, target: Seq<char>) -> bool {
    !e.is_dir && e.name == Some(target)
}

/// Judging one entry: the directories still to list afterwards, and
/// whether the entry is the file looked for.
pub open spec fn entry_step(pending: Seq<Seq<char>>, e: EntryView, target: Seq<char>) -> (
    Seq<Seq<char>>,
    bool,
) {
    if descends_into(e) {
        (pending.push(e.path), false)
    } else {
        (pending, is_target_file(e, target))
    }
}

/// Judging the entries of one directory in order, stopping at the file
/// looked for: the directories still to list, and the file found, if any.
pub open spec fn scan(pending: Seq<Seq<char>>, entries: Seq<EntryView>, target: Seq<char>) -> (
    Seq<Seq<char>>,
    Option<Seq<char>>,
)
    decreases entries.len(),
{
    if entries.len() == 0 {
        (pending, None)
    } else {
        let (next, found) = entry_step(pending, entries[0], target);
        if found {
            (next, Some(entries[0].path))
        } else {
            scan(next, entries.drop_first(), target)
        }
    }
}

/// How a search ended.
pub enum SearchOutcome {
    /// The file at this path is the one looked for.
    Found(Seq<char>),
    /// Every directory was listed and the file is not there.
    Exhausted,
    /// The search was stopped before either.
    Unfinished,
}

/// A search driven for at most `fuel` directories, where `listing(d)` is
/// what listing directory `d` gives: the directory queued last is listed
/// next and its entries are judged in order.
pub open spec fn search_run(
    pending: Seq<Seq<char>>,
    listing: spec_fn(Seq<char>) -> Seq<EntryView>,
    target: Seq<char>,
    fuel: nat,
) -> SearchOutcome
    decreases fuel,
{
    if fuel == 0 {
        SearchOutcome::Unfinished
    } else if pending.len() == 0 {
        SearchOutcome::Exhausted
    } else {
        let (next, found) = scan(pending.drop_last(), listing(pending.last()), target);
        match found {
            Some(p) => SearchOutcome::Found(p),
            None => search_run(next, listing, target, (fuel - 1) as nat),
        }
    }
}

/// Directory `b` is one that the search goes into from directory `a`.
pub open spec fn descends(listing: spec_fn(Seq<char>) -> Seq<EntryView>, a: Seq<char>, b: Seq<
    char,
>) -> bool {
    exists|i: int|
        0 <= i < listing(a).len() && descends_into(#[trigger] listing(a)[i]) && listing(a)[i].path
            == b
}

/// Each directory of `chain` is one that the search goes into from the one before.
pub open spec fn is_descent(listing: spec_fn(Seq<char>) -> Seq<EntryView>, chain: Seq<Seq<char>>) -> bool {
    forall|k: int| 0 <= k < chain.len() - 1 ==> descends(listing, #[trigger] chain[k], chain[k + 1])
}

/// Directory `d` is reached from `root` through directories the search goes into.
pub open spec fn reachable(listing: spec_fn(Seq<char>) -> Seq<EntryView>, root: Seq<char>, d: Seq<
    char,
>) -> bool {
    exists|chain: Seq<Seq<char>>|
        #[trigger] is_descent(listing, chain) && chain.len() > 0 && chain[0] == root
            && chain.last() == d
}

proof fn lemma_scan(pending: Seq<Seq<char>>, entries: Seq<EntryView>, target: Seq<char>)
    ensures
        ({
            let (next, found) = scan(pending, entries, target);
            match found {
                Some(p) => exists|i: int|
                    0 <= i < entries.len() && is_target_file(#[trigger] entries[i], target)
                        && entries[i].path == p,
                None => {
                    &&& forall|i: int|
                        0 <= i < entries.len() ==> !is_target_file(#[trigger] entries[i], target)
                    &&& forall|x: Seq<char>| pending.contains(x) ==> #[trigger] next.contains(x)
                    &&& forall|i: int|
                        0 <= i < entries.len() && descends_into(#[trigger] entries[i])
                            ==> next.contains(entries[i].path)
                    &&& forall|x: Seq<char>|
                        #[trigger] next.contains(x) ==> pending.contains(x) || exists|i: int|
                            0 <= i < entries.len() && descends_into(#[trigger] entries[i])
                                && entries[i].path == x
                },
            }
        }),
    decreases entries.len(),
{
    if entries.len() > 0 {
        let e = entries[0];
        let rest = entries.drop_first();
        let (p2, found) = entry_step(pending, e, target);
        if !found {
            lemma_scan(p2, rest, target);
            let (next, f2) = scan(p2, rest, target);
            match f2 {
                Some(p) => {
                    let i = choose|i: int|
                        0 <= i < rest.len() && is_target_file(#[trigger] rest[i], target)
                            && rest[i].path == p;
                    assert(entries[i + 1] == rest[i]);
                },
                None => {
                    assert forall|i: int| 0 <= i < entries.len() implies !is_target_file(
                        #[trigger] entries[i],
                        target,
                    ) by {
                        if i > 0 {
                            assert(entries[i] == rest[i - 1]);
                        }
                    }
                    assert forall|x: Seq<char>| pending.contains(x) implies #[trigger] next.contains(
                        x,
                    ) by {
                        let k = choose|k: int| 0 <= k < pending.len() && pending[k] == x;
                        if descends_into(e) {
                            assert(p2[k] == x);
                        }
                        assert(p2.contains(x));
                    }
                    assert forall|i: int|
                        0 <= i < entries.len() && descends_into(#[trigger] entries[i]) implies next.contains(
                        entries[i].path,
                    ) by {
                        if i > 0 {
                            assert(entries[i] == rest[i - 1]);
                        } else {
                            assert(p2[pending.len() as int] == e.path);
                            assert(p2.contains(e.path));
                        }
                    }
                    assert forall|x: Seq<char>| #[trigger] next.contains(x) implies pending.contains(x)
                        || exists|i: int|
                        0 <= i < entries.len() && descends_into(#[trigger] entries[i])
                            && entries[i].path == x by {
                        if !p2.contains(x) {
                            let i = choose|i: int|
                                0 <= i < rest.len() && descends_into(#[trigger] rest[i])
                                    && rest[i].path == x;
                            assert(entries[i + 1] == rest[i]);
                        } else if descends_into(e) {
                            let k = choose|k: int| 0 <= k < p2.len() && p2[k] == x;
                            if k < pending.len() {
                                assert(pending[k] == x);
                            } else {
                                assert(entries[0].path == x);
                            }
                        }
                    }
                },
            }
        }
    }
}

proof fn lemma_reachable_step(
    listing: spec_fn(Seq<char>) -> Seq<EntryView>,
    root: Seq<char>,
    d: Seq<char>,
    x: Seq<char>,
)
    requires
        reachable(listing, root, d),
        descends(listing, d, x),
    ensures
        reachable(listing, root, x),
{
    let c = choose|chain: Seq<Seq<char>>|
        #[trigger] is_descent(listing, chain) && chain.len() > 0 && chain[0] == root
            && chain.last() == d;
    let c2 = c.push(x);
    assert forall|k: int| 0 <= k < c2.len() - 1 implies descends(
        listing,
        #[trigger] c2[k],
        c2[k + 1],
    ) by {
        if k < c.len() - 1 {
            assert(c2[k] == c[k] && c2[k + 1] == c[k + 1]);
            assert(descends(listing, c[k], c[k + 1]));
        } else {
            assert(c2[k] == d && c2[k + 1] == x);
        }
    }
    assert(is_descent(listing, c2));
}

proof fn lemma_search_sound(
    pending: Seq<Seq<char>>,
    listing: spec_fn(Seq<char>) -> Seq<EntryView>,
    target: Seq<char>,
    fuel: nat,
    root: Seq<char>,
)
    requires
        forall|x: Seq<char>| #[trigger] pending.contains(x) ==> reachable(listing, root, x),
    ensures
        search_run(pending, listing, target, fuel) matches SearchOutcome::Found(p) ==> exists|
            d: Seq<char>,
            i: int,
        |
            reachable(listing, root, d) && 0 <= i < listing(d).len() && is_target_file(
                #[trigger] listing(d)[i],
                target,
            ) && listing(d)[i].path == p,
    decreases fuel,
{
    if fuel > 0 && pending.len() > 0 {
        let d = pending.last();
        assert(pending.contains(d));
        let rest = pending.drop_last();
        lemma_scan(rest, listing(d), target);
        let (next, found) = scan(rest, listing(d), target);
        match found {
            Some(p) => {
                let i = choose|i: int|
                    0 <= i < listing(d).len() && is_target_file(#[trigger] listing(d)[i], target)
                        && listing(d)[i].path == p;
                assert(reachable(listing, root, d));
            },
            None => {
                assert forall|x: Seq<char>| #[trigger] next.contains(x) implies reachable(
                    listing,
                    root,
                    x,
                ) by {
                    if rest.contains(x) {
                        let k = choose|k: int| 0 <= k < rest.len() && rest[k] == x;
                        assert(pending[k] == x);
                        assert(pending.contains(x));
                    } else {
                        let i = choose|i: int|
                            0 <= i < listing(d).len() && descends_into(#[trigger] listing(d)[i])
                                && listing(d)[i].path == x;
                        assert(descends(listing, d, x));
                        lemma_reachable_step(listing, root, d, x);
                    }
                }
                lemma_search_sound(next, listing, target, (fuel - 1) as nat, root);
            },
        }
    }
}

/// Every directory listed so far has had each directory it leads to queued
/// or listed, and held no file looked for.
pub open spec fn search_closed(
    listed: Set<Seq<char>>,
    pending: Seq<Seq<char>>,
    listing: spec_fn(Seq<char>) -> Seq<EntryView>,
    target: Seq<char>,
) -> bool {
    forall|d: Seq<char>|
        #[trigger] listed.contains(d) ==> (forall|i: int|
            0 <= i < listing(d).len() ==> !is_target_file(#[trigger] listing(d)[i], target))
            && (forall|i: int|
            0 <= i < listing(d).len() && descends_into(#[trigger] listing(d)[i]) ==> listed.contains(
                listing(d)[i].path,
            ) || pending.contains(listing(d)[i].path))
}

proof fn lemma_closed_chain(
    listed: Set<Seq<char>>,
    listing: spec_fn(Seq<char>) -> Seq<EntryView>,
    target: Seq<char>,
    chain: Seq<Seq<char>>,
    k: int,
)
    requires
        search_closed(listed, Seq::empty(), listing, target),
        is_descent(listing, chain),
        chain.len() > 0,
        listed.contains(chain[0]),
        0 <= k < chain.len(),
    ensures
        listed.contains(chain[k]),
    decreases k,
{
    if k > 0 {
        lemma_closed_chain(listed, listing, target, chain, k - 1);
        assert(descends(listing, chain[k - 1], chain[k]));
        let d = chain[k - 1];
        let i = choose|i: int|
            0 <= i < listing(d).len() && descends_into(#[trigger] listing(d)[i])
                && listing(d)[i].path == chain[k];
        assert(listed.contains(d));
        assert(!Seq::<Seq<char>>::empty().contains(chain[k]));
    }
}

proof fn lemma_search_complete(
    listed: Set<Seq<char>>,
    pending: Seq<Seq<char>>,
    listing: spec_fn(Seq<char>) -> Seq<EntryView>,
    target: Seq<char>,
    fuel: nat,
)
    requires
        search_closed(listed, pending, listing, target),
    ensures
        search_run(pending, listing, target, fuel) is Exhausted ==> forall|chain: Seq<Seq<char>>|
            #[trigger] is_descent(listing, chain) && chain.len() > 0 && (listed.contains(chain[0])
                || pending.contains(chain[0])) ==> forall|i: int|
                0 <= i < listing(chain.last()).len() ==> !is_target_file(
                    #[trigger] listing(chain.last())[i],
                    target,
                ),
    decreases fuel,
{
    if fuel > 0 {
        if pending.len() == 0 {
            assert(pending =~= Seq::<Seq<char>>::empty());
            assert forall|chain: Seq<Seq<char>>|
                #[trigger] is_descent(listing, chain) && chain.len() > 0 && (listed.contains(chain[0])
                    || pending.contains(chain[0])) implies forall|i: int|
                0 <= i < listing(chain.last()).len() ==> !is_target_file(
                    #[trigger] listing(chain.last())[i],
                    target,
                ) by {
                lemma_closed_chain(listed, listing, target, chain, chain.len() - 1);
                assert(listed.contains(chain.last()));
            }
        } else {
            let d = pending.last();
            let rest = pending.drop_last();
            lemma_scan(rest, listing(d), target);
            let (next, found) = scan(rest, listing(d), target);
            if found is None {
                let listed2 = listed.insert(d);
                assert forall|x: Seq<char>| pending.contains(x) implies listed2.contains(x)
                    || next.contains(x) by {
                    let k = choose|k: int| 0 <= k < pending.len() && pending[k] == x;
                    if k < rest.len() {
                        assert(rest[k] == x);
                        assert(rest.contains(x));
                    }
                }
                assert(search_closed(listed2, next, listing, target)) by {
                    assert forall|y: Seq<char>| #[trigger] listed2.contains(y) implies (forall|i: int|
                        0 <= i < listing(y).len() ==> !is_target_file(
                            #[trigger] listing(y)[i],
                            target,
                        )) && (forall|i: int|
                        0 <= i < listing(y).len() && descends_into(#[trigger] listing(y)[i])
                            ==> listed2.contains(listing(y)[i].path) || next.contains(
                            listing(y)[i].path,
                        )) by {
                        if y != d {
                            assert(listed.contains(y));
                            assert forall|i: int|
                                0 <= i < listing(y).len() && descends_into(
                                    #[trigger] listing(y)[i],
                                ) implies listed2.contains(listing(y)[i].path) || next.contains(
                                listing(y)[i].path,
                            ) by {
                                let q = listing(y)[i].path;
                                if pending.contains(q) {
                                }
                            }
                        }
                    }
                }
                lemma_search_complete(listed2, next, listing, target, (fuel - 1) as nat);
                assert(search_run(pending, listing, target, fuel) == search_run(
                    next,
                    listing,
                    target,
                    (fuel - 1) as nat,
                ));
                if search_run(next, listing, target, (fuel - 1) as nat) is Exhausted {
                    assert forall|chain: Seq<Seq<char>>|
                        #[trigger] is_descent(listing, chain) && chain.len() > 0 && (
                        listed.contains(chain[0]) || pending.contains(chain[0])) implies forall|
                        i: int,
                    |
                        0 <= i < listing(chain.last()).len() ==> !is_target_file(
                            #[trigger] listing(chain.last())[i],
                            target,
                        ) by {
                        assert(listed2.contains(chain[0]) || next.contains(chain[0]));
                    }
                }
            }
        }
    }
}

/// The directory walk finds exactly what is there: a file it reports is one
/// named as looked for, inside a directory reached from the start through
/// directories it goes into; and when it has listed everything without
/// finding one, no directory so reached holds such a file.
pub proof fn lemma_directory_search(
    root: Seq<char>,
    listing: spec_fn(Seq<char>) -> Seq<EntryView>,
    target: Seq<char>,
    fuel: nat,
)
    ensures
        search_run(seq![root], listing, target, fuel) matches SearchOutcome::Found(p) ==> exists|
            d: Seq<char>,
            i: int,
        |
            reachable(listing, root, d) && 0 <= i < listing(d).len() && is_target_file(
                #[trigger] listing(d)[i],
                target,
            ) && listing(d)[i].path == p,
        search_run(seq![root], listing, target, fuel) is Exhausted ==> forall|d: Seq<char>, i: int|
            reachable(listing, root, d) && 0 <= i < listing(d).len() ==> !is_target_file(
                #[trigger] listing(d)[i],
                target,
            ),
{
    let start = seq![root];
    assert forall|x: Seq<char>| #[trigger] start.contains(x) implies reachable(listing, root, x) by {
        let k = choose|k: int| 0 <= k < start.len() && start[k] == x;
        let c = seq![root];
        assert(is_descent(listing, c));
    }
    lemma_search_sound(start, listing, target, fuel, root);
    lemma_search_complete(Set::empty(), start, listing, target, fuel);
    if search_run(start, listing, target, fuel) is Exhausted {
        assert forall|d: Seq<char>, i: int|
            reachable(listing, root, d) && 0 <= i < listing(d).len() implies !is_target_file(
            #[trigger] listing(d)[i],
            target,
        ) by {
            let c = choose|chain: Seq<Seq<char>>|
                #[trigger] is_descent(listing, chain) && chain.len() > 0 && chain[0] == root
                    && chain.last() == d;
            assert(start[0] == root);
            assert(start.contains(c[0]));
        }
    }
}

/// Only three directory names stop the search: a directory named exactly
/// "cursors", "emblems" or "mimetypes" is passed over, and every other
/// directory, whatever its name and also when its name is not valid text,
/// is queued to be listed. Files are never queued.
pub proof fn lemma_only_three_directories_skipped(
    pending: Seq<Seq<char>>,
    e: EntryView,
    target: Seq<char>,
)
    ensures
        e.is_dir && e.name != Some("cursors"@) && e.name != Some("emblems"@) && e.name != Some(
            "mimetypes"@,
        ) ==> entry_step(pending, e, target) == (pending.push(e.path), false),
        e.is_dir && (e.name == Some("cursors"@) || e.name == Some("emblems"@) || e.name == Some(
            "mimetypes"@,
        )) ==> entry_step(pending, e, target) == (pending, false),
        !e.is_dir ==> entry_step(pending, e, target) == (pending, e.name == Some(target)),
{
}

/// The shape of the lock badge on an icon, in pixels: the crimson disc
/// (centre and radius), the white lock body (width and height) and the
/// white shackle's radius.
pub struct BadgeGeometry {
    pub radius: i32,
    pub center_x: i32,
    pub center_y: i32,
    pub lock_w: i32,
    pub lock_h: i32,
    pub shackle_r: i32,
}

/// The colours the badge paints.
#[derive(Debug, Clone, Copy, PartialEq, Eq)]
pub enum Shade {
    Crimson,
    White,
}

/// Integer division rounding toward zero, as Rust's `/` on signed integers.
pub open spec fn div_toward_zero(a: int, b: int) -> int {
    if a >= 0 {
        a / b
    } else {
        -((-a) / b)
    }
}

/// Left edge of the lock body.
pub open spec fn lock_left(g: BadgeGeometry) -> int {
    g.center_x - div_toward_zero(g.lock_w as int, 2)
}

/// Top edge of the lock body (and centre line of the shackle).
pub open spec fn lock_top(g: BadgeGeometry) -> int {
    g.center_y - div_toward_zero(g.lock_h as int, 4)
}

/// The pixel lies on the crimson disc.
pub open spec fn in_disc(g: BadgeGeometry, x: int, y: int) -> bool {
    let dx = x - g.center_x;
    let dy = y - g.center_y;
    -g.radius <= dx <= g.radius && -g.radius <= dy <= g.radius && dx * dx + dy * dy <= g.radius
        * g.radius
}

/// The pixel lies on the lock body.
pub open spec fn in_lock_body(g: BadgeGeometry, x: int, y: int) -> bool {
    lock_left(g) <= x < lock_left(g) + g.lock_w && lock_top(g) <= y < lock_top(g) + g.lock_h
}

/// The pixel lies on the shackle: the upper half of a ring of width two
/// above the lock body.
pub open spec fn in_shackle(g: BadgeGeometry, x: int, y: int) -> bool {
    let dx = x - g.center_x;
    let dy = y - lock_top(g);
    let r = g.shackle_r as int;
    let inner = r - 2;
    -r <= dy <= 0 && -r <= dx <= r && dx * dx + dy * dy <= r * r && dx * dx + dy * dy >= inner
        * inner
}

/// The colour the badge leaves at a pixel: the lock (body and shackle) is
/// painted white over the crimson disc; other pixels are untouched.
pub open spec fn badge_shade_spec(g: BadgeGeometry, x: int, y: int) -> Option<Shade> {
    if in_lock_body(g, x, y) || in_shackle(g, x, y) {
        Some(Shade::White)
    } else if in_disc(g, x, y) {
        Some(Shade::Crimson)
    } else {
        None
    }
}

/// `a / b` rounded toward zero, for a positive `b`.
fn div_zero(a: i64, b: i64) -> (r: i64)
    requires
        b > 0,
        a > i64::MIN,
    ensures
        r == div_toward_zero(a as int, b as int),
{
    if a >= 0 {
        a / b
    } else {
        -((-a) / b)
    }
}

/// Whether `d` lies in `[-r, r]` and `d*d + e*e` lies in `[lo*lo, r*r]`
/// (with `lo` ignored when `use_lo` is false), where `e` is already within range.
fn ring_test(d: i64, e: i64, r: i64, lo: i64, use_lo: bool) -> (b: bool)
    requires
        -0x8000_0000 <= r <= 0x8000_0000,
        -0x8000_0000 <= lo <= 0x8000_0000,
        -r <= e <= r,
    ensures
        b == (-r <= d <= r && d * d + e * e <= r * r && (!use_lo || d * d + e * e >= lo * lo)),
{
    if d < -r || d > r {
        return false;
    }
    let (d, e, r, lo) = (d as i128, e as i128, r as i128, lo as i128);
    assert(d * d <= r * r && e * e <= r * r && r * r <= 0x4000_0000_0000_0000) by (nonlinear_arith)
        requires
            -r <= d <= r,
            -r <= e <= r,
            -0x8000_0000 <= r <= 0x8000_0000,
    ;
    assert(0 <= d * d && 0 <= e * e && 0 <= lo * lo <= 0x4000_0000_0000_0000) by (nonlinear_arith)
        requires
            -0x8000_0000 <= lo <= 0x8000_0000,
    ;
    let dist = d * d + e * e;
    let within = dist <= r * r;
    if use_lo {
        within && dist >= lo * lo
    } else {
        within
    }
}

/// The colour the lock badge leaves at pixel `(x, y)`.
pub fn badge_shade(g: &BadgeGeometry, x: u32, y: u32) -> (r: Option<Shade>)
    ensures
        r == badge_shade_spec(*g, x as int, y as int),
{
    let x = x as i64;
    let y = y as i64;
    let cx = g.center_x as i64;
    let cy = g.center_y as i64;
    let left = cx - div_zero(g.lock_w as i64, 2);
    let top = cy - div_zero(g.lock_h as i64, 4);
    let in_body = left <= x && x < left + g.lock_w as i64 && top <= y && y < top + g.lock_h as i64;
    let sr = g.shackle_r as i64;
    let sdy = y - top;
    let in_ring = if -sr <= sdy && sdy <= 0 {
        ring_test(x - cx, sdy, sr, sr - 2, true)
    } else {
        false
    };
    if in_body || in_ring {
        return Some(Shade::White);
    }
    let r = g.radius as i64;
    let ddy = y - cy;
    let in_circle = if -r <= ddy && ddy <= r {
        ring_test(x - cx, ddy, r, 0, false)
    } else {
        false
    };
    if in_circle {
        Some(Shade::Crimson)
    } else {
        None
    }
}

} // verus!
