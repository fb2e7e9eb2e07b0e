use vstd::prelude::*;

use crate::error::{error_text, LockerError};
use crate::text::{concat2, concat3, opt_view, owned, trim, trimmed};

verus! {

/// What the window shows and what the user has typed: the passphrase for
/// the vault being unlocked, the vault picked for unlocking or for removal,
/// the status line, and the form for a new vault.
pub struct GuiState {
    pub passphrase_input: String,
    pub selected_app: Option<String>,
    pub confirm_remove_app: Option<String>,
    pub status_msg: String,
    pub show_new_modal: bool,
    pub new_app_name: String,
    pub new_passphrase: String,
    pub new_confirm_passphrase: String,
}

/// The state is as at start-up: nothing typed, nothing picked, no form.
pub open spec fn is_initial(s: GuiState) -> bool {
    &&& s.passphrase_input@.len() == 0
    &&& s.selected_app is None
    &&& s.confirm_remove_app is None
    &&& s.status_msg@.len() == 0
    &&& !s.show_new_modal
    &&& s.new_app_name@.len() == 0
    &&& s.new_passphrase@.len() == 0
    &&& s.new_confirm_passphrase@.len() == 0
}

/// Two states agree on everything but the status line.
pub open spec fn same_but_status(a: GuiState, b: GuiState) -> bool {
    &&& a.passphrase_input == b.passphrase_input
    &&& a.selected_app == b.selected_app
    &&& a.confirm_remove_app == b.confirm_remove_app
    &&& a.show_new_modal == b.show_new_modal
    &&& a.new_app_name == b.new_app_name
    &&& a.new_passphrase == b.new_passphrase
    &&& a.new_confirm_passphrase == b.new_confirm_passphrase
}

/// Why a new-vault form is refused, checked in this order.
pub open spec fn form_problem(name: Seq<char>, passphrase: Seq<char>, confirmation: Seq<char>) -> Option<
    Seq<char>,
> {
    if trimmed(name).len() == 0 {
        Some("App name cannot be empty."@)
    } else if passphrase.len() == 0 {
        Some("Passphrase cannot be empty."@)
    } else if passphrase != confirmation {
        Some("Passphrases do not match."@)
    } else {
        None
    }
}

/// The status line after an operation on a named vault, by outcome.
pub open spec fn outcome_text(
    ok_head: Seq<char>,
    app: Seq<char>,
    ok_tail: Seq<char>,
    err_head: Seq<char>,
    result: Result<(), LockerError>,
) -> Seq<char> {
    match result {
        Ok(()) => ok_head + app + ok_tail,
        Err(e) => err_head + error_text(e@),
    }
}

/// What one frame does about removing a vault: "Remove" is pressed on an
/// application, the pending removal is cancelled, "Yes, Delete Vault" is
/// pressed (and the removal runs to its end), or anything else happens,
/// which leaves a pending removal as it is.
pub enum RemovalStep {
    Request(Seq<char>),
    Cancel,
    Confirm,
    Other,
}

/// The removal awaiting confirmation after one step.
pub open spec fn pending_after_step(pending: Option<Seq<char>>, step: RemovalStep) -> Option<
    Seq<char>,
> {
    match step {
        RemovalStep::Request(app) => Some(app),
        RemovalStep::Cancel => None,
        RemovalStep::Confirm => None,
        RemovalStep::Other => pending,
    }
}

/// The removal awaiting confirmation after a run of steps from start-up.
pub open spec fn pending_after(steps: Seq<RemovalStep>) -> Option<Seq<char>>
    decreases steps.len(),
{
    if steps.len() == 0 {
        None
    } else {
        pending_after_step(pending_after(steps.drop_last()), steps.last())
    }
}

/// The application whose vault step `i` of a run removes, if any: a
/// confirmation removes the one then awaiting it.
pub open spec fn removed_at(steps: Seq<RemovalStep>, i: int) -> Option<Seq<char>> {
    if steps[i] is Confirm {
        pending_after(steps.take(i))
    } else {
        None
    }
}

impl GuiState {
    /// The state at start-up.
    pub fn new() -> (r: GuiState)
        ensures
            is_initial(r),
    {
        GuiState {
            passphrase_input: String::new(),
            selected_app: None,
            confirm_remove_app: None,
            status_msg: String::new(),
            show_new_modal: false,
            new_app_name: String::new(),
            new_passphrase: String::new(),
            new_confirm_passphrase: String::new(),
        }
    }

    /// "New Vault" was pressed: the form is shown.
    pub fn open_new_vault_form(&mut self)
        ensures
            *final(self) == (GuiState { show_new_modal: true, ..*old(self) }),
    {
        self.show_new_modal = true;
    }

    /// "Remove" was pressed on a vault: its removal awaits confirmation.
    pub fn request_removal(&mut self, app: String)
        ensures
            *final(self) == (GuiState { confirm_remove_app: Some(app), ..*old(self) }),
            opt_view(final(self).confirm_remove_app) == pending_after_step(
                opt_view(old(self).confirm_remove_app),
                RemovalStep::Request(app@),
            ),
    {
        self.confirm_remove_app = Some(app);
    }

    /// The removal awaiting confirmation was cancelled.
    pub fn cancel_removal(&mut self)
        ensures
            *final(self) == (GuiState { confirm_remove_app: None, ..*old(self) }),
            opt_view(final(self).confirm_remove_app) == pending_after_step(
                opt_view(old(self).confirm_remove_app),
                RemovalStep::Cancel,
            ),
    {
        self.confirm_remove_app = None;
    }

    /// "Yes, Delete Vault" was pressed: the vault to remove is the one whose
    /// removal awaits confirmation, and there is none when nothing awaits it.
    /// The state is left as it is until the removal has ended.
    pub fn confirm_removal(&self) -> (r: Option<String>)
        ensures
            r == self.confirm_remove_app,
    {
        match &self.confirm_remove_app {
            Some(app) => Some(app.clone()),
            None => None,
        }
    }

    /// The confirmed removal of `app` ended with `result`: the outcome is
    /// reported and nothing awaits confirmation any more.
    pub fn removal_finished(&mut self, app: &str, result: Result<(), LockerError>)
        ensures
            *final(self) == (GuiState {
                status_msg: final(self).status_msg,
                confirm_remove_app: None,
                ..*old(self)
            }),
            final(self).status_msg@ == outcome_text(
                "Vault '"@,
                app@,
                "' permanently deleted."@,
                "Error deleting vault: "@,
                result,
            ),
            opt_view(final(self).confirm_remove_app) == pending_after_step(
                opt_view(old(self).confirm_remove_app),
                RemovalStep::Confirm,
            ),
    {
        self.status_msg = match &result {
            Ok(()) => concat3("Vault '", app, "' permanently deleted."),
            Err(e) => {
                let m = e.message();
                concat2("Error deleting vault: ", m.as_str())
            },
        };
        self.confirm_remove_app = None;
    }

    /// "Shortcut" was pressed and the launcher was written to `path`, or
    /// failed with the message `error`.
    pub fn shortcut_finished(&mut self, outcome: Result<String, String>)
        ensures
            same_but_status(*final(self), *old(self)),
            final(self).status_msg@ == match outcome {
                Ok(p) => "Desktop launcher created: "@ + p@,
                Err(e) => "Error creating shortcut: "@ + e@,
            },
    {
        self.status_msg = match &outcome {
            Ok(p) => concat2("Desktop launcher created: ", p.as_str()),
            Err(e) => concat2("Error creating shortcut: ", e.as_str()),
        };
    }

    /// "Lock" was pressed on `app` and the unmount ended with `result`.
    pub fn lock_finished(&mut self, app: &str, result: Result<(), LockerError>)
        ensures
            same_but_status(*final(self), *old(self)),
            final(self).status_msg@ == match result {
                Ok(()) => "Locked '"@ + app@ + "'"@,
                Err(e) => "Error locking '"@ + app@ + "': "@ + error_text(e@),
            },
    {
        self.status_msg = match &result {
            Ok(()) => concat3("Locked '", app, "'"),
            Err(e) => {
                let head = concat3("Error locking '", app, "': ");
                let m = e.message();
                concat2(head.as_str(), m.as_str())
            },
        };
    }

    /// "Unlock & Launch" was pressed on `app`: it is picked and the
    /// passphrase field is emptied.
    pub fn select_for_unlock(&mut self, app: String)
        ensures
            *final(self) == (GuiState {
                selected_app: Some(app),
                passphrase_input: final(self).passphrase_input,
                ..*old(self)
            }),
            final(self).passphrase_input@.len() == 0,
    {
        self.selected_app = Some(app);
        self.passphrase_input = String::new();
    }

    /// Unlocking was cancelled: nothing is picked and the passphrase is forgotten.
    pub fn cancel_unlock(&mut self)
        ensures
            *final(self) == (GuiState {
                selected_app: None,
                passphrase_input: final(self).passphrase_input,
                ..*old(self)
            }),
            final(self).passphrase_input@.len() == 0,
    {
        self.selected_app = None;
        self.passphrase_input = String::new();
    }

    /// Mounting `app` for launch ended with `result`: on success the
    /// selection and the typed passphrase are cleared; on failure they stay
    /// so that the user can try again.
    pub fn launch_finished(&mut self, app: &str, result: Result<(), LockerError>)
        ensures
            final(self).status_msg@ == outcome_text(
                "Vault '"@,
                app@,
                "' mounted. Spawning sandboxed app..."@,
                "Mount failed: "@,
                result,
            ),
            result is Ok ==> *final(self) == (GuiState {
                status_msg: final(self).status_msg,
                selected_app: None,
                passphrase_input: final(self).passphrase_input,
                ..*old(self)
            }) && final(self).passphrase_input@.len() == 0,
            result is Err ==> same_but_status(*final(self), *old(self)),
    {
        match &result {
            Ok(()) => {
                self.status_msg = concat3("Vault '", app, "' mounted. Spawning sandboxed app...");
                self.selected_app = None;
                self.passphrase_input = String::new();
            },
            Err(e) => {
                let m = e.message();
                self.status_msg = concat2("Mount failed: ", m.as_str());
            },
        }
    }

    /// "Create Vault & Shortcut" was pressed: a valid form yields the
    /// trimmed application name (the passphrase is in `new_passphrase`);
    /// otherwise the first problem is reported and nothing else changes.
    pub fn submit_new_vault(&mut self) -> (r: Option<String>)
        ensures
            match form_problem(
                old(self).new_app_name@,
                old(self).new_passphrase@,
                old(self).new_confirm_passphrase@,
            ) {
                Some(msg) => r is None && final(self).status_msg@ == msg && same_but_status(
                    *final(self),
                    *old(self),
                ),
                None => (r matches Some(n) && n@ == trimmed(old(self).new_app_name@))
                    && *final(self) == *old(self),
            },
    {
        let name = trim(self.new_app_name.as_str());
        if name.as_str().is_empty() {
            self.status_msg = owned("App name cannot be empty.");
            None
        } else if self.new_passphrase.as_str().is_empty() {
            self.status_msg = owned("Passphrase cannot be empty.");
            None
        } else if self.new_passphrase != self.new_confirm_passphrase {
            self.status_msg = owned("Passphrases do not match.");
            None
        } else {
            Some(name)
        }
    }

    /// The vault `name` from the form was created with `result`: on success
    /// the form is closed and emptied; on failure the error is shown and the
    /// form stays as it was.
    pub fn vault_creation_finished(&mut self, name: &str, result: Result<(), LockerError>)
        ensures
            final(self).status_msg@ == outcome_text(
                "Vault '"@,
                name@,
                "' & Desktop Shortcut created successfully!"@,
                "Error creating vault: "@,
                result,
            ),
            result is Ok ==> *final(self) == (GuiState {
                status_msg: final(self).status_msg,
                show_new_modal: false,
                new_app_name: final(self).new_app_name,
                new_passphrase: final(self).new_passphrase,
                new_confirm_passphrase: final(self).new_confirm_passphrase,
                ..*old(self)
            }) && final(self).new_app_name@.len() == 0 && final(self).new_passphrase@.len() == 0
                && final(self).new_confirm_passphrase@.len() == 0,
            result is Err ==> same_but_status(*final(self), *old(self)),
    {
        match &result {
            Ok(()) => {
                self.status_msg = concat3(
                    "Vault '",
                    name,
                    "' & Desktop Shortcut created successfully!",
                );
                self.show_new_modal = false;
                self.new_app_name = String::new();
                self.new_passphrase = String::new();
                self.new_confirm_passphrase = String::new();
            },
            Err(e) => {
                let m = e.message();
                self.status_msg = concat2("Error creating vault: ", m.as_str());
            },
        }
    }

    /// The new-vault form was cancelled: it is hidden (its fields are kept).
    pub fn cancel_new_vault(&mut self)
        ensures
            *final(self) == (GuiState { show_new_modal: false, ..*old(self) }),
    {
        self.show_new_modal = false;
    }
}

/// A vault in the window's list: its application name and whether it is unlocked.
pub struct VaultEntry {
    pub name: String,
    pub is_mounted: bool,
}

/// The view of a list of vault entries.
pub open spec fn entry_views(v: Seq<VaultEntry>) -> Seq<(Seq<char>, bool)> {
    v.map_values(|e: VaultEntry| (e.name@, e.is_mounted))
}

/// `a` comes no later than `b` in the order of Rust's `String` comparison:
/// character by character by code point, a prefix first.
pub open spec fn text_le(a: Seq<char>, b: Seq<char>) -> bool
    decreases a.len(),
{
    if a.len() == 0 {
        true
    } else if b.len() == 0 {
        false
    } else if a[0] == b[0] {
        text_le(a.drop_first(), b.drop_first())
    } else {
        (a[0] as int) < (b[0] as int)
    }
}

proof fn lemma_text_le_total(a: Seq<char>, b: Seq<char>)
    ensures
        text_le(a, b) || text_le(b, a),
    decreases a.len(),
{
    if a.len() > 0 && b.len() > 0 && a[0] == b[0] {
        lemma_text_le_total(a.drop_first(), b.drop_first());
    } else if a.len() > 0 && b.len() > 0 {
        assert(a[0] as int != b[0] as int);
    }
}

proof fn lemma_text_le_reflexive(a: Seq<char>)
    ensures
        text_le(a, a),
    decreases a.len(),
{
    if a.len() > 0 {
        lemma_text_le_reflexive(a.drop_first());
    }
}

proof fn lemma_text_le_transitive(a: Seq<char>, b: Seq<char>, c: Seq<char>)
    requires
        text_le(a, b),
        text_le(b, c),
    ensures
        text_le(a, c),
    decreases a.len(),
{
    if a.len() > 0 && b.len() > 0 && c.len() > 0 {
        if a[0] == b[0] && b[0] == c[0] {
            lemma_text_le_transitive(a.drop_first(), b.drop_first(), c.drop_first());
        }
    }
}

/// The list is in non-decreasing order of names.
pub open spec fn sorted_by_name(v: Seq<(Seq<char>, bool)>) -> bool {
    forall|i: int, j: int| 0 <= i < j < v.len() ==> text_le(#[trigger] v[i].0, #[trigger] v[j].0)
}

/// Whether `a` comes no later than `b` when names are ordered.
fn name_le(a: &str, b: &str) -> (r: bool)
    ensures
        r == text_le(a@, b@),
{
    let x = crate::text::chars_of(a);
    let y = crate::text::chars_of(b);
    let mut i: usize = 0;
    assert(a@.skip(0) =~= a@);
    assert(b@.skip(0) =~= b@);
    while i < x.len() && i < y.len() && x[i] == y[i]
        invariant
            x@ == a@,
            y@ == b@,
            i <= x.len(),
            i <= y.len(),
            text_le(a@, b@) == text_le(a@.skip(i as int), b@.skip(i as int)),
        decreases x.len() - i,
    {
        proof {
            let sa = a@.skip(i as int);
            let sb = b@.skip(i as int);
            assert(sa.drop_first() =~= a@.skip(i + 1));
            assert(sb.drop_first() =~= b@.skip(i + 1));
        }
        i = i + 1;
    }
    let ghost sa = a@.skip(i as int);
    let ghost sb = b@.skip(i as int);
    if i == x.len() {
        assert(sa.len() == 0);
        true
    } else if i == y.len() {
        assert(sb.len() == 0 && sa.len() > 0);
        false
    } else {
        assert(sa[0] == x@[i as int] && sb[0] == y@[i as int]);
        x[i] < y[i]
    }
}

/// The entries for application `name`.
pub open spec fn named(name: Seq<char>) -> spec_fn((Seq<char>, bool)) -> bool {
    |e: (Seq<char>, bool)| e.0 == name
}

proof fn lemma_filter_none<A>(s: Seq<A>, p: spec_fn(A) -> bool)
    requires
        forall|m: int| 0 <= m < s.len() ==> !p(#[trigger] s[m]),
    ensures
        s.filter(p) == Seq::<A>::empty(),
    decreases s.len(),
{
    reveal(Seq::filter);
    if s.len() > 0 {
        assert forall|m: int| 0 <= m < s.drop_last().len() implies !p(#[trigger] s.drop_last()[m]) by {
            assert(s.drop_last()[m] == s[m]);
        }
        lemma_filter_none(s.drop_last(), p);
        assert(!p(s[s.len() - 1]));
    }
}

proof fn lemma_filter_single<A>(x: A, p: spec_fn(A) -> bool)
    ensures
        seq![x].filter(p) == (if p(x) {
            seq![x]
        } else {
            Seq::<A>::empty()
        }),
{
    reveal_with_fuel(Seq::filter, 2);
    assert(seq![x].drop_last() =~= Seq::<A>::empty());
    assert(Seq::<A>::empty().push(x) =~= seq![x]);
}

proof fn lemma_filter_push<A>(s: Seq<A>, x: A, p: spec_fn(A) -> bool)
    ensures
        s.push(x).filter(p) == (if p(x) {
            s.filter(p).push(x)
        } else {
            s.filter(p)
        }),
{
    reveal(Seq::filter);
    assert(s.push(x).drop_last() =~= s);
}

proof fn lemma_filter_insert<A>(s: Seq<A>, j: int, x: A, p: spec_fn(A) -> bool)
    requires
        0 <= j <= s.len(),
        p(x) ==> forall|m: int| j <= m < s.len() ==> !p(#[trigger] s[m]),
    ensures
        s.insert(j, x).filter(p) == (if p(x) {
            s.filter(p).push(x)
        } else {
            s.filter(p)
        }),
{
    let a = s.take(j);
    let b = s.skip(j);
    assert(s =~= a + b);
    assert(s.insert(j, x) =~= (a + seq![x]) + b);
    Seq::filter_distributes_over_add(a, b, p);
    Seq::filter_distributes_over_add(a + seq![x], b, p);
    Seq::filter_distributes_over_add(a, seq![x], p);
    lemma_filter_single(x, p);
    if p(x) {
        assert forall|m: int| 0 <= m < b.len() implies !p(#[trigger] b[m]) by {
            assert(b[m] == s[m + j]);
        }
        lemma_filter_none(b, p);
        assert(a.filter(p) + seq![x] =~= a.filter(p).push(x));
        assert(a.filter(p) + Seq::<A>::empty() =~= a.filter(p));
    } else {
        assert(a.filter(p) + Seq::<A>::empty() =~= a.filter(p));
    }
}

/// The vaults in order of their names (as the window lists them), each
/// exactly as often as it was given; entries with the same name keep their
/// relative order.
pub fn sort_vaults(vaults: &Vec<VaultEntry>) -> (r: Vec<VaultEntry>)
    ensures
        sorted_by_name(entry_views(r@)),
        entry_views(r@).to_multiset() == entry_views(vaults@).to_multiset(),
        forall|k: Seq<char>|
            #[trigger] entry_views(r@).filter(named(k)) == entry_views(vaults@).filter(named(k)),
{
    let mut out: Vec<VaultEntry> = Vec::new();
    let mut i: usize = 0;
    proof {
        assert(entry_views(vaults@).take(0) =~= entry_views(out@));
    }
    while i < vaults.len()
        invariant
            i <= vaults.len(),
            sorted_by_name(entry_views(out@)),
            entry_views(out@).to_multiset() == entry_views(vaults@).take(i as int).to_multiset(),
            forall|k: Seq<char>|
                #[trigger] entry_views(out@).filter(named(k)) == entry_views(vaults@).take(
                    i as int,
                ).filter(named(k)),
        decreases vaults.len() - i,
    {
        let item = VaultEntry { name: vaults[i].name.clone(), is_mounted: vaults[i].is_mounted };
        let ghost x = (item.name@, item.is_mounted);
        let mut j: usize = 0;
        while j < out.len() && name_le(out[j].name.as_str(), item.name.as_str())
            invariant
                j <= out.len(),
                x == (item.name@, item.is_mounted),
                forall|k: int| 0 <= k < j ==> text_le(#[trigger] entry_views(out@)[k].0, x.0),
            decreases out.len() - j,
        {
            assert(entry_views(out@)[j as int].0 == out@[j as int].name@);
            j = j + 1;
        }
        let ghost before = entry_views(out@);
        proof {
            assert forall|k: int| j <= k < before.len() implies text_le(x.0, #[trigger] before[k].0) by {
                if j < before.len() {
                    assert(!text_le(before[j as int].0, x.0));
                    lemma_text_le_total(before[j as int].0, x.0);
                    if k > j {
                        lemma_text_le_transitive(x.0, before[j as int].0, before[k].0);
                    }
                }
            }
        }
        out.insert(j, item);
        proof {
            let after = entry_views(out@);
            assert(after =~= before.insert(j as int, x));
            assert forall|p: int, q: int| 0 <= p < q < after.len() implies text_le(
                #[trigger] after[p].0,
                #[trigger] after[q].0,
            ) by {
                if p < j && q == j {
                } else if p < j && q > j {
                    assert(after[q] == before[q - 1]);
                    lemma_text_le_transitive(before[p].0, x.0, before[q - 1].0);
                } else if p == j {
                    assert(after[q] == before[q - 1]);
                } else if q < j {
                } else {
                    assert(after[p] == before[p - 1]);
                    assert(after[q] == before[q - 1]);
                }
            }
            assert(entry_views(vaults@).take(i + 1) =~= entry_views(vaults@).take(i as int).push(x));
            vstd::seq_lib::to_multiset_insert(before, j as int, x);
            vstd::seq_lib::to_multiset_build(entry_views(vaults@).take(i as int), x);
            assert forall|k: Seq<char>| #[trigger] after.filter(named(k)) == entry_views(
                vaults@,
            ).take(i + 1).filter(named(k)) by {
                if named(k)(x) {
                    assert forall|m: int| j <= m < before.len() implies !named(k)(
                        #[trigger] before[m],
                    ) by {
                        lemma_text_le_reflexive(x.0);
                        if m > j {
                            if before[m].0 == x.0 {
                                assert(text_le(before[j as int].0, before[m].0));
                            }
                        }
                    }
                }
                lemma_filter_insert(before, j as int, x, named(k));
                lemma_filter_push(entry_views(vaults@).take(i as int), x, named(k));
            }
        }
        i = i + 1;
    }
    proof {
        assert(entry_views(vaults@).take(vaults.len() as int) =~= entry_views(vaults@));
    }
    out
}

/// The run of steps ends with `app` awaiting removal exactly when "Remove"
/// was pressed on `app` at some step and only other things happened after.
proof fn lemma_pending_after(steps: Seq<RemovalStep>, app: Seq<char>)
    ensures
        pending_after(steps) == Some(app) <==> exists|j: int|
            0 <= j < steps.len() && #[trigger] steps[j] == RemovalStep::Request(app) && forall|
                k: int,
            |
                j < k < steps.len() ==> #[trigger] steps[k] is Other,
    decreases steps.len(),
{
    if steps.len() > 0 {
        let prev = steps.drop_last();
        let n = steps.len() - 1;
        lemma_pending_after(prev, app);
        if pending_after(steps) == Some(app) {
            if steps.last() is Other {
                let j = choose|j: int|
                    0 <= j < prev.len() && #[trigger] prev[j] == RemovalStep::Request(app) && forall|
                        k: int,
                    |
                        j < k < prev.len() ==> #[trigger] prev[k] is Other;
                assert(steps[j] == prev[j]);
                assert forall|k: int| j < k < steps.len() implies #[trigger] steps[k] is Other by {
                    if k < n {
                        assert(steps[k] == prev[k]);
                    }
                }
            } else {
                assert(steps[n] == RemovalStep::Request(app));
            }
        }
        if exists|j: int|
            0 <= j < steps.len() && #[trigger] steps[j] == RemovalStep::Request(app) && forall|
                k: int,
            |
                j < k < steps.len() ==> #[trigger] steps[k] is Other {
            let j = choose|j: int|
                0 <= j < steps.len() && #[trigger] steps[j] == RemovalStep::Request(app) && forall|
                    k: int,
                |
                    j < k < steps.len() ==> #[trigger] steps[k] is Other;
            if j < n {
                assert(steps[n] is Other);
                assert(prev[j] == steps[j]);
                assert forall|k: int| j < k < prev.len() implies #[trigger] prev[k] is Other by {
                    assert(prev[k] == steps[k]);
                }
            }
        }
    }
}

/// A vault is removed only after confirmation: a step of any run from
/// start-up removes the vault of `app` exactly when it is a press of "Yes,
/// Delete Vault" and "Remove" was pressed on `app` at an earlier step, with
/// neither a cancellation, another confirmation nor another "Remove" since.
pub proof fn lemma_removal_only_after_confirmation(
    steps: Seq<RemovalStep>,
    i: int,
    app: Seq<char>,
)
    requires
        0 <= i < steps.len(),
    ensures
        removed_at(steps, i) == Some(app) <==> steps[i] is Confirm && exists|j: int|
            0 <= j < i && #[trigger] steps[j] == RemovalStep::Request(app) && forall|k: int|
                j < k < i ==> #[trigger] steps[k] is Other,
{
    let before = steps.take(i);
    lemma_pending_after(before, app);
    assert forall|k: int| 0 <= k < i implies #[trigger] before[k] == steps[k] by {}
    if steps[i] is Confirm {
        if exists|j: int|
            0 <= j < i && #[trigger] steps[j] == RemovalStep::Request(app) && forall|k: int|
                j < k < i ==> #[trigger] steps[k] is Other {
            let j = choose|j: int|
                0 <= j < i && #[trigger] steps[j] == RemovalStep::Request(app) && forall|k: int|
                    j < k < i ==> #[trigger] steps[k] is Other;
            assert(before[j] == steps[j]);
            assert forall|k: int| j < k < before.len() implies #[trigger] before[k] is Other by {
                assert(before[k] == steps[k]);
            }
        }
        if pending_after(before) == Some(app) {
            let j = choose|j: int|
                0 <= j < before.len() && #[trigger] before[j] == RemovalStep::Request(app) && forall|
                    k: int,
                |
                    j < k < before.len() ==> #[trigger] before[k] is Other;
            assert(steps[j] == before[j]);
            assert forall|k: int| j < k < i implies #[trigger] steps[k] is Other by {
                assert(before[k] == steps[k]);
            }
        }
    }
}

} // verus!
