use vstd::prelude::*;

use crate::error::{ErrorView, LockerError};
use crate::text::{
    concat2, concat3, join_path, joined, opt_view, owned, push_text, strip_line_endings, trim,
    trimmed, views, without_line_endings,
};

verus! {

/// An active FUSE mount of a vault at `mount_path`. While `is_mounted`
/// holds, the mount still has to be taken down.
pub struct VaultGuard {
    pub mount_path: String,
    pub is_mounted: bool,
}

impl VaultGuard {
    /// A guard for a vault that has just been mounted at `mount_path`.
    pub fn new(mount_path: String) -> (r: VaultGuard)
        ensures
            r.mount_path == mount_path,
            r.is_mounted,
    {
        VaultGuard { mount_path, is_mounted: true }
    }
}

/// The raw bytes of a program's output decoded as UTF-8, with invalid
/// sequences replaced, as `String::from_utf8_lossy` does.
pub uninterp spec fn utf8_lossy(bytes: Seq<u8>) -> Seq<char>;

/// `String::from_utf8_lossy`, owned; the result is named `utf8_lossy` of
/// the bytes, and bytes that are valid UTF-8 decode to exactly their text.
#[verifier::external_body]
fn decode_lossy(bytes: &Vec<u8>) -> (r: String)
    ensures
        r@ == utf8_lossy(bytes@),
        vstd::utf8::valid_utf8(bytes@) ==> r@ == vstd::utf8::decode_utf8(bytes@),
{
    String::from_utf8_lossy(bytes).into_owned()
}

/// The arguments of `fusermount` that take down the mount at `target`,
/// lazily (detaching a busy mount) when `lazy` holds.
pub open spec fn fusermount_args(lazy: bool, target: Seq<char>) -> Seq<Seq<char>> {
    if lazy {
        seq!["-u"@, "-z"@, target]
    } else {
        seq!["-u"@, target]
    }
}

/// Where an unmount stands.
pub enum UnmountStage {
    Start,
    FindingPrimary,
    FindingFallback,
    Unmounting(String),
    RetryingLazily,
    Cleaning,
    Done,
}

/// Where an unmount stands, as the contracts see it.
pub enum UnmountStageView {
    Start,
    FindingPrimary,
    FindingFallback,
    Unmounting(Seq<char>),
    RetryingLazily,
    Cleaning,
    Done,
}

impl View for UnmountStage {
    type V = UnmountStageView;

    open spec fn view(&self) -> UnmountStageView {
        match self {
            UnmountStage::Start => UnmountStageView::Start,
            UnmountStage::FindingPrimary => UnmountStageView::FindingPrimary,
            UnmountStage::FindingFallback => UnmountStageView::FindingFallback,
            UnmountStage::Unmounting(b) => UnmountStageView::Unmounting(b@),
            UnmountStage::RetryingLazily => UnmountStageView::RetryingLazily,
            UnmountStage::Cleaning => UnmountStageView::Cleaning,
            UnmountStage::Done => UnmountStageView::Done,
        }
    }
}

/// What happened since the last step of an unmount.
pub enum UnmountEvent {
    /// The unmount was asked for.
    Begin,
    /// The program that was looked for was found (at the path) or not.
    Found(Option<String>),
    /// The program that was run exited, successfully or not.
    Exited(bool),
    /// The mount point has been removed if it still existed.
    Cleaned,
}

pub enum UnmountEventView {
    Begin,
    Found(Option<Seq<char>>),
    Exited(bool),
    Cleaned,
}

impl View for UnmountEvent {
    type V = UnmountEventView;

    open spec fn view(&self) -> UnmountEventView {
        match self {
            UnmountEvent::Begin => UnmountEventView::Begin,
            UnmountEvent::Found(b) => UnmountEventView::Found(opt_view(*b)),
            UnmountEvent::Exited(ok) => UnmountEventView::Exited(*ok),
            UnmountEvent::Cleaned => UnmountEventView::Cleaned,
        }
    }
}

/// What the caller is to do next for an unmount.
pub enum UnmountAction {
    /// Look for the named program.
    Find(String),
    /// Run `program` with `args`, then report how it exited.
    Run { program: String, args: Vec<String> },
    /// Remove the directory if it (still) exists, ignoring failure.
    RemoveEmptyDir(String),
    /// The unmount is over, with this outcome.
    Finish(Result<(), LockerError>),
}

pub enum UnmountActionView {
    Find(Seq<char>),
    Run { program: Seq<char>, args: Seq<Seq<char>> },
    RemoveEmptyDir(Seq<char>),
    Finish(Result<(), ErrorView>),
}

impl View for UnmountAction {
    type V = UnmountActionView;

    open spec fn view(&self) -> UnmountActionView {
        match self {
            UnmountAction::Find(n) => UnmountActionView::Find(n@),
            UnmountAction::Run { program, args } => UnmountActionView::Run {
                program: program@,
                args: views(args@),
            },
            UnmountAction::RemoveEmptyDir(p) => UnmountActionView::RemoveEmptyDir(p@),
            UnmountAction::Finish(r) => UnmountActionView::Finish(
                match r {
                    Ok(()) => Ok(()),
                    Err(e) => Err(e@),
                },
            ),
        }
    }
}

/// One step of taking down the mount at `path`: from the stage and whether
/// the guard is still mounted, and the event, the next stage, whether the
/// guard is still mounted, and what to do. An unmounted guard needs nothing;
/// `fusermount3` is preferred over `fusermount`; a failed unmount is retried
/// lazily; after either attempt the guard counts as unmounted and the mount
/// point is removed.
pub open spec fn unmount_step(
    stage: UnmountStageView,
    mounted: bool,
    path: Seq<char>,
    event: UnmountEventView,
) -> (UnmountStageView, bool, UnmountActionView) {
    match (stage, event) {
        (UnmountStageView::Start, UnmountEventView::Begin) => if mounted {
            (UnmountStageView::FindingPrimary, true, UnmountActionView::Find("fusermount3"@))
        } else {
            (UnmountStageView::Done, false, UnmountActionView::Finish(Ok(())))
        },
        (UnmountStageView::FindingPrimary, UnmountEventView::Found(Some(b))) => (
            UnmountStageView::Unmounting(b),
            mounted,
            UnmountActionView::Run { program: b, args: fusermount_args(false, path) },
        ),
        (UnmountStageView::FindingPrimary, UnmountEventView::Found(None)) => (
            UnmountStageView::FindingFallback,
            mounted,
            UnmountActionView::Find("fusermount"@),
        ),
        (UnmountStageView::FindingFallback, UnmountEventView::Found(Some(b))) => (
            UnmountStageView::Unmounting(b),
            mounted,
            UnmountActionView::Run { program: b, args: fusermount_args(false, path) },
        ),
        (UnmountStageView::FindingFallback, UnmountEventView::Found(None)) => (
            UnmountStageView::Done,
            mounted,
            UnmountActionView::Finish(Err(ErrorView::FusermountNotFound)),
        ),
        (UnmountStageView::Unmounting(b), UnmountEventView::Exited(ok)) => if ok {
            (UnmountStageView::Cleaning, false, UnmountActionView::RemoveEmptyDir(path))
        } else {
            (
                UnmountStageView::RetryingLazily,
                mounted,
                UnmountActionView::Run { program: b, args: fusermount_args(true, path) },
            )
        },
        (UnmountStageView::RetryingLazily, UnmountEventView::Exited(_)) => (
            UnmountStageView::Cleaning,
            false,
            UnmountActionView::RemoveEmptyDir(path),
        ),
        (UnmountStageView::Cleaning, UnmountEventView::Cleaned) => (
            UnmountStageView::Done,
            mounted,
            UnmountActionView::Finish(Ok(())),
        ),
        _ => (stage, mounted, UnmountActionView::Finish(Err(ErrorView::StepOutOfOrder))),
    }
}

/// The arguments of `fusermount` for the mount at `target`.
fn fusermount_arg_list(lazy: bool, target: &str) -> (r: Vec<String>)
    ensures
        views(r@) == fusermount_args(lazy, target@),
{
    let mut out: Vec<String> = Vec::new();
    push_text(&mut out, "-u");
    if lazy {
        push_text(&mut out, "-z");
    }
    push_text(&mut out, target);
    out
}

/// The progress of taking down one vault mount; the caller performs each
/// action and reports what happened.
pub struct UnmountFlow {
    pub stage: UnmountStage,
}

impl UnmountFlow {
    /// A flow that has not begun.
    pub fn new() -> (r: UnmountFlow)
        ensures
            r.stage@ == UnmountStageView::Start,
    {
        UnmountFlow { stage: UnmountStage::Start }
    }

    /// Advances the unmount of `guard` by one event (see `unmount_step`).
    pub fn step(&mut self, guard: &mut VaultGuard, event: UnmountEvent) -> (a: UnmountAction)
        ensures
            final(guard).mount_path == old(guard).mount_path,
            (final(self).stage@, final(guard).is_mounted, a@) == unmount_step(
                old(self).stage@,
                old(guard).is_mounted,
                old(guard).mount_path@,
                event@,
            ),
    {
        let mut stage = UnmountStage::Done;
        std::mem::swap(&mut stage, &mut self.stage);
        match (stage, event) {
            (UnmountStage::Start, UnmountEvent::Begin) => {
                if guard.is_mounted {
                    self.stage = UnmountStage::FindingPrimary;
                    UnmountAction::Find(owned("fusermount3"))
                } else {
                    UnmountAction::Finish(Ok(()))
                }
            },
            (UnmountStage::FindingPrimary, UnmountEvent::Found(Some(b))) => {
                let args = fusermount_arg_list(false, guard.mount_path.as_str());
                let program = b.clone();
                self.stage = UnmountStage::Unmounting(b);
                UnmountAction::Run { program, args }
            },
            (UnmountStage::FindingPrimary, UnmountEvent::Found(None)) => {
                self.stage = UnmountStage::FindingFallback;
                UnmountAction::Find(owned("fusermount"))
            },
            (UnmountStage::FindingFallback, UnmountEvent::Found(Some(b))) => {
                let args = fusermount_arg_list(false, guard.mount_path.as_str());
                let program = b.clone();
                self.stage = UnmountStage::Unmounting(b);
                UnmountAction::Run { program, args }
            },
            (UnmountStage::FindingFallback, UnmountEvent::Found(None)) => {
                UnmountAction::Finish(Err(LockerError::FusermountNotFound))
            },
            (UnmountStage::Unmounting(b), UnmountEvent::Exited(ok)) => {
                if ok {
                    guard.is_mounted = false;
                    self.stage = UnmountStage::Cleaning;
                    UnmountAction::RemoveEmptyDir(guard.mount_path.clone())
                } else {
                    let args = fusermount_arg_list(true, guard.mount_path.as_str());
                    self.stage = UnmountStage::RetryingLazily;
                    UnmountAction::Run { program: b, args }
                }
            },
            (UnmountStage::RetryingLazily, UnmountEvent::Exited(_)) => {
                guard.is_mounted = false;
                self.stage = UnmountStage::Cleaning;
                UnmountAction::RemoveEmptyDir(guard.mount_path.clone())
            },
            (UnmountStage::Cleaning, UnmountEvent::Cleaned) => { UnmountAction::Finish(Ok(())) },
            (other, _) => {
                self.stage = other;
                UnmountAction::Finish(Err(LockerError::StepOutOfOrder))
            },
        }
    }
}

/// The text `gocryptfs` reported on failure: its error output, decoded and trimmed.
pub open spec fn failure_detail(stderr: Seq<u8>) -> Seq<char> {
    trimmed(utf8_lossy(stderr))
}

/// What is written to `gocryptfs`'s standard input: the passphrase and a line end.
pub open spec fn passphrase_input(passphrase: Seq<char>) -> Seq<char> {
    passphrase + "\n"@
}

/// Where a vault initialisation or mount stands.
pub enum TaskStage {
    Start,
    CreatingDir,
    Finding,
    Running(String),
    Discarding(String),
    Done,
}

pub enum TaskStageView {
    Start,
    CreatingDir,
    Finding,
    Running(Seq<char>),
    Discarding(Seq<char>),
    Done,
}

impl View for TaskStage {
    type V = TaskStageView;

    open spec fn view(&self) -> TaskStageView {
        match self {
            TaskStage::Start => TaskStageView::Start,
            TaskStage::CreatingDir => TaskStageView::CreatingDir,
            TaskStage::Finding => TaskStageView::Finding,
            TaskStage::Running(b) => TaskStageView::Running(b@),
            TaskStage::Discarding(d) => TaskStageView::Discarding(d@),
            TaskStage::Done => TaskStageView::Done,
        }
    }
}

/// What happened since the last step of a vault initialisation or mount.
pub enum TaskEvent {
    /// The operation was asked for.
    Begin,
    /// The directory was created (or already existed), or could not be.
    DirCreated(bool),
    /// The program that was looked for was found (at the path) or not.
    Found(Option<String>),
    /// The program could not be started.
    SpawnFailed,
    /// Talking to the started program failed, with this description.
    IoFailed(String),
    /// The program exited, successfully or not, with this error output.
    Exited { success: bool, stderr: Vec<u8> },
    /// The directory was removed (or removing it failed, which is ignored).
    Removed,
}

pub enum TaskEventView {
    Begin,
    DirCreated(bool),
    Found(Option<Seq<char>>),
    SpawnFailed,
    IoFailed(Seq<char>),
    Exited { success: bool, stderr: Seq<u8> },
    Removed,
}

impl View for TaskEvent {
    type V = TaskEventView;

    open spec fn view(&self) -> TaskEventView {
        match self {
            TaskEvent::Begin => TaskEventView::Begin,
            TaskEvent::DirCreated(ok) => TaskEventView::DirCreated(*ok),
            TaskEvent::Found(b) => TaskEventView::Found(opt_view(*b)),
            TaskEvent::SpawnFailed => TaskEventView::SpawnFailed,
            TaskEvent::IoFailed(m) => TaskEventView::IoFailed(m@),
            TaskEvent::Exited { success, stderr } => TaskEventView::Exited {
                success: *success,
                stderr: stderr@,
            },
            TaskEvent::Removed => TaskEventView::Removed,
        }
    }
}

/// What the caller is to do next for a vault initialisation or mount.
pub enum TaskAction {
    /// Create the directory and its parents unless it exists, then report.
    CreateDir(String),
    /// Look for the named program.
    Find(String),
    /// Start `program` with `args`, write `input` to it, wait, and report how it exited.
    Spawn { program: String, args: Vec<String>, input: String },
    /// Remove the (empty) directory, ignoring failure, then report.
    RemoveDir(String),
    /// The vault is mounted; the guard takes it down again.
    Mounted(VaultGuard),
    /// The operation is over, with this outcome.
    Finish(Result<(), LockerError>),
}

pub enum TaskActionView {
    CreateDir(Seq<char>),
    Find(Seq<char>),
    Spawn { program: Seq<char>, args: Seq<Seq<char>>, input: Seq<char> },
    RemoveDir(Seq<char>),
    Mounted { path: Seq<char>, mounted: bool },
    Finish(Result<(), ErrorView>),
}

impl View for TaskAction {
    type V = TaskActionView;

    open spec fn view(&self) -> TaskActionView {
        match self {
            TaskAction::CreateDir(p) => TaskActionView::CreateDir(p@),
            TaskAction::Find(n) => TaskActionView::Find(n@),
            TaskAction::Spawn { program, args, input } => TaskActionView::Spawn {
                program: program@,
                args: views(args@),
                input: input@,
            },
            TaskAction::RemoveDir(p) => TaskActionView::RemoveDir(p@),
            TaskAction::Mounted(g) => TaskActionView::Mounted {
                path: g.mount_path@,
                mounted: g.is_mounted,
            },
            TaskAction::Finish(r) => TaskActionView::Finish(
                match r {
                    Ok(()) => Ok(()),
                    Err(e) => Err(e@),
                },
            ),
        }
    }
}

/// One step of initialising the vault at `vault`: an empty passphrase is
/// refused before anything else happens; otherwise the vault directory is
/// created, `gocryptfs` is found and run as `gocryptfs -init <vault>` with
/// the passphrase on its input, and its exit status decides the outcome.
pub open spec fn init_step(
    stage: TaskStageView,
    vault: Seq<char>,
    passphrase: Seq<char>,
    event: TaskEventView,
) -> (TaskStageView, TaskActionView) {
    match (stage, event) {
        (TaskStageView::Start, TaskEventView::Begin) => if passphrase.len() == 0 {
            (TaskStageView::Done, TaskActionView::Finish(Err(ErrorView::EmptyPassphrase)))
        } else {
            (TaskStageView::CreatingDir, TaskActionView::CreateDir(vault))
        },
        (TaskStageView::CreatingDir, TaskEventView::DirCreated(ok)) => if ok {
            (TaskStageView::Finding, TaskActionView::Find("gocryptfs"@))
        } else {
            (
                TaskStageView::Done,
                TaskActionView::Finish(Err(ErrorView::CreateVaultDirFailed(vault))),
            )
        },
        (TaskStageView::Finding, TaskEventView::Found(Some(b))) => (
            TaskStageView::Running(b),
            TaskActionView::Spawn {
                program: b,
                args: seq!["-init"@, vault],
                input: passphrase_input(passphrase),
            },
        ),
        (TaskStageView::Finding, TaskEventView::Found(None)) => (
            TaskStageView::Done,
            TaskActionView::Finish(Err(ErrorView::BinaryNotFound("gocryptfs"@))),
        ),
        (TaskStageView::Running(b), TaskEventView::SpawnFailed) => (
            TaskStageView::Done,
            TaskActionView::Finish(Err(ErrorView::SpawnFailed(b))),
        ),
        (TaskStageView::Running(b), TaskEventView::IoFailed(m)) => (
            TaskStageView::Done,
            TaskActionView::Finish(Err(ErrorView::Io(m))),
        ),
        (TaskStageView::Running(b), TaskEventView::Exited { success, stderr }) => if success {
            (TaskStageView::Done, TaskActionView::Finish(Ok(())))
        } else {
            (
                TaskStageView::Done,
                TaskActionView::Finish(Err(ErrorView::InitFailed(failure_detail(stderr)))),
            )
        },
        _ => (stage, TaskActionView::Finish(Err(ErrorView::StepOutOfOrder))),
    }
}

/// One step of mounting the vault at `vault` onto `mount`: the mount point
/// is created, `gocryptfs` is found and run as `gocryptfs <vault> <mount>`
/// with the passphrase on its input; on success the caller receives a guard
/// for the mount, on failure the mount point is removed before the error is
/// reported.
pub open spec fn mount_step(
    stage: TaskStageView,
    vault: Seq<char>,
    mount: Seq<char>,
    passphrase: Seq<char>,
    event: TaskEventView,
) -> (TaskStageView, TaskActionView) {
    match (stage, event) {
        (TaskStageView::Start, TaskEventView::Begin) => (
            TaskStageView::CreatingDir,
            TaskActionView::CreateDir(mount),
        ),
        (TaskStageView::CreatingDir, TaskEventView::DirCreated(ok)) => if ok {
            (TaskStageView::Finding, TaskActionView::Find("gocryptfs"@))
        } else {
            (
                TaskStageView::Done,
                TaskActionView::Finish(Err(ErrorView::CreateMountDirFailed(mount))),
            )
        },
        (TaskStageView::Finding, TaskEventView::Found(Some(b))) => (
            TaskStageView::Running(b),
            TaskActionView::Spawn {
                program: b,
                args: seq![vault, mount],
                input: passphrase_input(passphrase),
            },
        ),
        (TaskStageView::Finding, TaskEventView::Found(None)) => (
            TaskStageView::Done,
            TaskActionView::Finish(Err(ErrorView::BinaryNotFound("gocryptfs"@))),
        ),
        (TaskStageView::Running(b), TaskEventView::SpawnFailed) => (
            TaskStageView::Done,
            TaskActionView::Finish(Err(ErrorView::SpawnFailed(b))),
        ),
        (TaskStageView::Running(b), TaskEventView::IoFailed(m)) => (
            TaskStageView::Done,
            TaskActionView::Finish(Err(ErrorView::Io(m))),
        ),
        (TaskStageView::Running(b), TaskEventView::Exited { success, stderr }) => if success {
            (TaskStageView::Done, TaskActionView::Mounted { path: mount, mounted: true })
        } else {
            (TaskStageView::Discarding(failure_detail(stderr)), TaskActionView::RemoveDir(mount))
        },
        (TaskStageView::Discarding(d), TaskEventView::Removed) => (
            TaskStageView::Done,
            TaskActionView::Finish(Err(ErrorView::MountFailed(d))),
        ),
        _ => (stage, TaskActionView::Finish(Err(ErrorView::StepOutOfOrder))),
    }
}

/// The error text of a failed `gocryptfs` run.
fn detail_of(stderr: &Vec<u8>) -> (r: String)
    ensures
        r@ == failure_detail(stderr@),
{
    let text = decode_lossy(stderr);
    trim(text.as_str())
}

/// The passphrase followed by a line end.
fn input_of(passphrase: &str) -> (r: String)
    ensures
        r@ == passphrase_input(passphrase@),
{
    concat2(passphrase, "\n")
}

/// The initialisation of a new encrypted vault with a given passphrase.
pub struct InitFlow {
    pub vault_path: String,
    pub passphrase: String,
    pub stage: TaskStage,
}

impl InitFlow {
    /// A flow that will initialise the vault at `vault_path` with `passphrase`.
    pub fn new(vault_path: String, passphrase: String) -> (r: InitFlow)
        ensures
            r.vault_path == vault_path,
            r.passphrase == passphrase,
            r.stage@ == TaskStageView::Start,
    {
        InitFlow { vault_path, passphrase, stage: TaskStage::Start }
    }

    /// Advances the initialisation by one event (see `init_step`).
    pub fn step(&mut self, event: TaskEvent) -> (a: TaskAction)
        ensures
            final(self).vault_path == old(self).vault_path,
            final(self).passphrase == old(self).passphrase,
            (final(self).stage@, a@) == init_step(
                old(self).stage@,
                old(self).vault_path@,
                old(self).passphrase@,
                event@,
            ),
    {
        let mut stage = TaskStage::Done;
        std::mem::swap(&mut stage, &mut self.stage);
        match (stage, event) {
            (TaskStage::Start, TaskEvent::Begin) => {
                if self.passphrase.as_str().is_empty() {
                    TaskAction::Finish(Err(LockerError::EmptyPassphrase))
                } else {
                    self.stage = TaskStage::CreatingDir;
                    TaskAction::CreateDir(self.vault_path.clone())
                }
            },
            (TaskStage::CreatingDir, TaskEvent::DirCreated(ok)) => {
                if ok {
                    self.stage = TaskStage::Finding;
                    TaskAction::Find(owned("gocryptfs"))
                } else {
                    TaskAction::Finish(Err(LockerError::CreateVaultDirFailed(self.vault_path.clone())))
                }
            },
            (TaskStage::Finding, TaskEvent::Found(Some(b))) => {
                let mut args: Vec<String> = Vec::new();
                push_text(&mut args, "-init");
                push_text(&mut args, self.vault_path.as_str());
                assert(views(args@) =~= seq!["-init"@, self.vault_path@]);
                let input = input_of(self.passphrase.as_str());
                let program = b.clone();
                self.stage = TaskStage::Running(b);
                TaskAction::Spawn { program, args, input }
            },
            (TaskStage::Finding, TaskEvent::Found(None)) => {
                TaskAction::Finish(Err(LockerError::BinaryNotFound(owned("gocryptfs"))))
            },
            (TaskStage::Running(b), TaskEvent::SpawnFailed) => {
                TaskAction::Finish(Err(LockerError::SpawnFailed(b)))
            },
            (TaskStage::Running(_), TaskEvent::IoFailed(m)) => {
                TaskAction::Finish(Err(LockerError::Io(m)))
            },
            (TaskStage::Running(_), TaskEvent::Exited { success, stderr }) => {
                if success {
                    TaskAction::Finish(Ok(()))
                } else {
                    TaskAction::Finish(Err(LockerError::InitFailed(detail_of(&stderr))))
                }
            },
            (other, _) => {
                self.stage = other;
                TaskAction::Finish(Err(LockerError::StepOutOfOrder))
            },
        }
    }
}

/// The mounting of an encrypted vault with a given passphrase.
pub struct MountFlow {
    pub vault_path: String,
    pub mount_path: String,
    pub passphrase: String,
    pub stage: TaskStage,
}

impl MountFlow {
    /// A flow that will mount the vault at `vault_path` onto `mount_path`.
    pub fn new(vault_path: String, mount_path: String, passphrase: String) -> (r: MountFlow)
        ensures
            r.vault_path == vault_path,
            r.mount_path == mount_path,
            r.passphrase == passphrase,
            r.stage@ == TaskStageView::Start,
    {
        MountFlow { vault_path, mount_path, passphrase, stage: TaskStage::Start }
    }

    /// Advances the mount by one event (see `mount_step`).
    pub fn step(&mut self, event: TaskEvent) -> (a: TaskAction)
        ensures
            final(self).vault_path == old(self).vault_path,
            final(self).mount_path == old(self).mount_path,
            final(self).passphrase == old(self).passphrase,
            (final(self).stage@, a@) == mount_step(
                old(self).stage@,
                old(self).vault_path@,
                old(self).mount_path@,
                old(self).passphrase@,
                event@,
            ),
    {
        let mut stage = TaskStage::Done;
        std::mem::swap(&mut stage, &mut self.stage);
        match (stage, event) {
            (TaskStage::Start, TaskEvent::Begin) => {
                self.stage = TaskStage::CreatingDir;
                TaskAction::CreateDir(self.mount_path.clone())
            },
            (TaskStage::CreatingDir, TaskEvent::DirCreated(ok)) => {
                if ok {
                    self.stage = TaskStage::Finding;
                    TaskAction::Find(owned("gocryptfs"))
                } else {
                    TaskAction::Finish(Err(LockerError::CreateMountDirFailed(self.mount_path.clone())))
                }
            },
            (TaskStage::Finding, TaskEvent::Found(Some(b))) => {
                let mut args: Vec<String> = Vec::new();
                push_text(&mut args, self.vault_path.as_str());
                push_text(&mut args, self.mount_path.as_str());
                assert(views(args@) =~= seq![self.vault_path@, self.mount_path@]);
                let input = input_of(self.passphrase.as_str());
                let program = b.clone();
                self.stage = TaskStage::Running(b);
                TaskAction::Spawn { program, args, input }
            },
            (TaskStage::Finding, TaskEvent::Found(None)) => {
                TaskAction::Finish(Err(LockerError::BinaryNotFound(owned("gocryptfs"))))
            },
            (TaskStage::Running(b), TaskEvent::SpawnFailed) => {
                TaskAction::Finish(Err(LockerError::SpawnFailed(b)))
            },
            (TaskStage::Running(_), TaskEvent::IoFailed(m)) => {
                TaskAction::Finish(Err(LockerError::Io(m)))
            },
            (TaskStage::Running(_), TaskEvent::Exited { success, stderr }) => {
                if success {
                    TaskAction::Mounted(VaultGuard::new(self.mount_path.clone()))
                } else {
                    self.stage = TaskStage::Discarding(detail_of(&stderr));
                    TaskAction::RemoveDir(self.mount_path.clone())
                }
            },
            (TaskStage::Discarding(d), TaskEvent::Removed) => {
                TaskAction::Finish(Err(LockerError::MountFailed(d)))
            },
            (other, _) => {
                self.stage = other;
                TaskAction::Finish(Err(LockerError::StepOutOfOrder))
            },
        }
    }
}

/// Where `gocryptfs` keeps a vault's configuration; an initialised vault has it.
pub fn gocryptfs_conf_path(vault_path: &str) -> (r: String)
    ensures
        r@ == joined(vault_path@, "gocryptfs.conf"@),
{
    join_path(vault_path, "gocryptfs.conf")
}

/// A new passphrase is accepted only when its confirmation repeats it exactly.
pub fn confirm_passphrase(passphrase: &String, confirmation: &String) -> (r: Result<(), LockerError>)
    ensures
        passphrase@ == confirmation@ <==> r is Ok,
        r matches Err(e) ==> e@ == ErrorView::PassphraseMismatch,
{
    if *passphrase == *confirmation {
        Ok(())
    } else {
        Err(LockerError::PassphraseMismatch)
    }
}

/// The arguments of `zenity` for a password dialog titled `title`.
pub fn zenity_password_args(title: &str) -> (r: Vec<String>)
    ensures
        views(r@) == seq!["--password"@, "--title"@, title@],
{
    let mut out: Vec<String> = Vec::new();
    push_text(&mut out, "--password");
    push_text(&mut out, "--title");
    push_text(&mut out, title);
    out
}

/// The arguments of `zenity` for an error dialog.
pub fn zenity_error_args(title: &str, message: &str) -> (r: Vec<String>)
    ensures
        views(r@) == seq!["--error"@, "--title"@, title@, "--text"@, message@],
{
    let mut out: Vec<String> = Vec::new();
    push_text(&mut out, "--error");
    push_text(&mut out, "--title");
    push_text(&mut out, title);
    push_text(&mut out, "--text");
    push_text(&mut out, message);
    out
}

/// The password a `zenity` dialog returned: its output without the line
/// end when it succeeded; nothing when the user cancelled.
pub fn password_from_zenity(success: bool, stdout: &Vec<u8>) -> (r: Option<String>)
    ensures
        success ==> (r matches Some(p) && p@ == without_line_endings(utf8_lossy(stdout@))),
        success && vstd::utf8::valid_utf8(stdout@) ==> (r matches Some(p) && p@
            == without_line_endings(vstd::utf8::decode_utf8(stdout@))),
        !success ==> r is None,
{
    if success {
        let text = decode_lossy(stdout);
        Some(strip_line_endings(text.as_str()))
    } else {
        None
    }
}

/// The title of the dialog that asks for a vault's passphrase.
pub fn unlock_title(app_name: &str) -> (r: String)
    ensures
        r@ == "Unlock "@ + app_name@ + " Vault"@,
{
    concat3("Unlock ", app_name, " Vault")
}

/// The terminal prompt for a vault's passphrase.
pub fn mount_prompt(app_name: &str) -> (r: String)
    ensures
        r@ == "Enter passphrase for vault '"@ + app_name@ + "': "@,
{
    concat3("Enter passphrase for vault '", app_name, "': ")
}

/// The text shown when a vault could not be mounted.
pub fn mount_failure_text(app_name: &str, error: &LockerError) -> (r: String)
    ensures
        r@ == "Failed to mount vault for '"@ + app_name@ + "':\n"@ + crate::error::error_text(error@),
{
    let head = concat3("Failed to mount vault for '", app_name, "':\n");
    let msg = error.message();
    concat2(head.as_str(), msg.as_str())
}

/// The stages and mount states of a run of unmount steps, and the actions
/// it produced, when `events` arrive in order.
pub open spec fn unmount_run(
    stage: UnmountStageView,
    mounted: bool,
    path: Seq<char>,
    events: Seq<UnmountEventView>,
) -> (UnmountStageView, bool, Seq<UnmountActionView>)
    decreases events.len(),
{
    if events.len() == 0 {
        (stage, mounted, Seq::empty())
    } else {
        let (s1, m1, a1) = unmount_step(stage, mounted, path, events[0]);
        let (s2, m2, rest) = unmount_run(s1, m1, path, events.drop_first());
        (s2, m2, seq![a1] + rest)
    }
}

/// While an unmount is under way the guard is still mounted; once the
/// mount point is being cleaned up it no longer is.
pub open spec fn unmount_consistent(stage: UnmountStageView, mounted: bool) -> bool {
    match stage {
        UnmountStageView::FindingPrimary => mounted,
        UnmountStageView::FindingFallback => mounted,
        UnmountStageView::Unmounting(_) => mounted,
        UnmountStageView::RetryingLazily => mounted,
        UnmountStageView::Cleaning => !mounted,
        _ => true,
    }
}

proof fn lemma_unmount_step_consistent(
    stage: UnmountStageView,
    mounted: bool,
    path: Seq<char>,
    event: UnmountEventView,
)
    requires
        unmount_consistent(stage, mounted),
    ensures
        ({
            let (s1, m1, a1) = unmount_step(stage, mounted, path, event);
            &&& unmount_consistent(s1, m1)
            &&& a1 == UnmountActionView::Finish(Ok(())) ==> !m1
        }),
{
}

proof fn lemma_unmount_run_consistent(
    stage: UnmountStageView,
    mounted: bool,
    path: Seq<char>,
    events: Seq<UnmountEventView>,
)
    requires
        unmount_consistent(stage, mounted),
    ensures
        ({
            let (s, m, acts) = unmount_run(stage, mounted, path, events);
            &&& unmount_consistent(s, m)
            &&& acts.len() == events.len()
            &&& acts.len() > 0 && acts.last() == UnmountActionView::Finish(Ok(())) ==> !m
        }),
    decreases events.len(),
{
    if events.len() > 0 {
        let (s1, m1, a1) = unmount_step(stage, mounted, path, events[0]);
        lemma_unmount_step_consistent(stage, mounted, path, events[0]);
        lemma_unmount_run_consistent(s1, m1, path, events.drop_first());
        let (s2, m2, rest) = unmount_run(s1, m1, path, events.drop_first());
        if rest.len() > 0 {
            assert((seq![a1] + rest).last() == rest.last());
        } else {
            assert(unmount_run(s1, m1, path, events.drop_first()) == (s1, m1, Seq::<UnmountActionView>::empty()));
        }
    }
}

/// Whatever events an unmount is driven with, when its last answer is
/// success the guard is no longer mounted; and the number of answers equals
/// the number of events.
pub proof fn lemma_unmount_success_leaves_unmounted(
    mounted: bool,
    path: Seq<char>,
    events: Seq<UnmountEventView>,
)
    ensures
        ({
            let (s, m, acts) = unmount_run(UnmountStageView::Start, mounted, path, events);
            acts.len() == events.len() && (acts.len() > 0 && acts.last() == UnmountActionView::Finish(
                Ok(()),
            ) ==> !m)
        }),
{
    lemma_unmount_run_consistent(UnmountStageView::Start, mounted, path, events);
}

/// Unmounting a guard that is no longer mounted does nothing outside and
/// succeeds at once.
pub proof fn lemma_unmount_of_unmounted_is_noop(path: Seq<char>)
    ensures
        unmount_step(UnmountStageView::Start, false, path, UnmountEventView::Begin) == (
            UnmountStageView::Done,
            false,
            UnmountActionView::Finish(Ok(())),
        ),
{
}

/// The complete unmount of a mounted guard when `fusermount3` is present:
/// it is run once with `-u`; when that fails it is run again with `-u -z`;
/// either way the mount point is cleaned up, the guard ends unmounted and
/// the answer is success.
pub proof fn lemma_unmount_with_retry(path: Seq<char>, program: Seq<char>, first_ok: bool)
    ensures
        ({
            let events = if first_ok {
                seq![
                    UnmountEventView::Begin,
                    UnmountEventView::Found(Some(program)),
                    UnmountEventView::Exited(true),
                    UnmountEventView::Cleaned,
                ]
            } else {
                seq![
                    UnmountEventView::Begin,
                    UnmountEventView::Found(Some(program)),
                    UnmountEventView::Exited(false),
                    UnmountEventView::Exited(false),
                    UnmountEventView::Cleaned,
                ]
            };
            let (s, m, acts) = unmount_run(UnmountStageView::Start, true, path, events);
            &&& s == UnmountStageView::Done
            &&& !m
            &&& acts[1] == UnmountActionView::Run { program, args: fusermount_args(false, path) }
            &&& !first_ok ==> acts[2] == UnmountActionView::Run {
                program,
                args: fusermount_args(true, path),
            }
            &&& acts.last() == UnmountActionView::Finish(Ok(()))
        }),
{
    let run_ok = fusermount_args(false, path);
    let run_lazy = fusermount_args(true, path);
    let cleaned = seq![UnmountEventView::Cleaned];
    let e4 = seq![UnmountEventView::Exited(true), UnmountEventView::Cleaned];
    let e4b = seq![UnmountEventView::Exited(false), UnmountEventView::Cleaned];
    let e3b = seq![UnmountEventView::Exited(false)] + e4b;
    let tail_ok = seq![UnmountEventView::Found(Some(program))] + e4;
    let tail_retry = seq![UnmountEventView::Found(Some(program))] + e3b;
    assert(cleaned.drop_first() =~= Seq::<UnmountEventView>::empty());
    let r_end = unmount_run(UnmountStageView::Done, false, path, Seq::<UnmountEventView>::empty());
    assert(r_end.0 == UnmountStageView::Done && !r_end.1 && r_end.2.len() == 0);
    let r_clean = unmount_run(UnmountStageView::Cleaning, false, path, cleaned);
    assert(r_clean.0 == UnmountStageView::Done && !r_clean.1);
    assert(r_clean.2 =~= seq![UnmountActionView::Finish(Ok(()))]);
    assert(e4.drop_first() =~= cleaned);
    assert(e4b.drop_first() =~= cleaned);
    assert(e3b.drop_first() =~= e4b);
    assert(tail_ok.drop_first() =~= e4);
    assert(tail_retry.drop_first() =~= e3b);
    let r4 = unmount_run(UnmountStageView::Unmounting(program), true, path, e4);
    assert(r4.2 =~= seq![UnmountActionView::RemoveEmptyDir(path)] + r_clean.2);
    let r4b = unmount_run(UnmountStageView::RetryingLazily, true, path, e4b);
    assert(r4b.2 =~= seq![UnmountActionView::RemoveEmptyDir(path)] + r_clean.2);
    let r3b = unmount_run(UnmountStageView::Unmounting(program), true, path, e3b);
    assert(r3b.2 =~= seq![UnmountActionView::Run { program, args: run_lazy }] + r4b.2);
    let r_ok = unmount_run(UnmountStageView::FindingPrimary, true, path, tail_ok);
    assert(r_ok.2 =~= seq![UnmountActionView::Run { program, args: run_ok }] + r4.2);
    let r_retry = unmount_run(UnmountStageView::FindingPrimary, true, path, tail_retry);
    assert(r_retry.2 =~= seq![UnmountActionView::Run { program, args: run_ok }] + r3b.2);
    let all_ok = seq![UnmountEventView::Begin] + tail_ok;
    let all_retry = seq![UnmountEventView::Begin] + tail_retry;
    assert(all_ok.drop_first() =~= tail_ok);
    assert(all_retry.drop_first() =~= tail_retry);
    let events = if first_ok {
        seq![
            UnmountEventView::Begin,
            UnmountEventView::Found(Some(program)),
            UnmountEventView::Exited(true),
            UnmountEventView::Cleaned,
        ]
    } else {
        seq![
            UnmountEventView::Begin,
            UnmountEventView::Found(Some(program)),
            UnmountEventView::Exited(false),
            UnmountEventView::Exited(false),
            UnmountEventView::Cleaned,
        ]
    };
    if first_ok {
        assert(events =~= all_ok);
        let r = unmount_run(UnmountStageView::Start, true, path, all_ok);
        assert(r.2 =~= seq![UnmountActionView::Find("fusermount3"@)] + r_ok.2);
        assert(r.2[1] == UnmountActionView::Run { program, args: run_ok });
        assert(r.2.last() == UnmountActionView::Finish(Ok(())));
    } else {
        assert(events =~= all_retry);
        let r = unmount_run(UnmountStageView::Start, true, path, all_retry);
        assert(r.2 =~= seq![UnmountActionView::Find("fusermount3"@)] + r_retry.2);
        assert(r.2[1] == UnmountActionView::Run { program, args: run_ok });
        assert(r.2[2] == UnmountActionView::Run { program, args: run_lazy });
        assert(r.2.last() == UnmountActionView::Finish(Ok(())));
    }
}

/// A vault is never initialised with an empty passphrase: the very first
/// step refuses it, before any directory is created or program run.
pub proof fn lemma_empty_passphrase_refused(vault: Seq<char>, passphrase: Seq<char>)
    requires
        passphrase.len() == 0,
    ensures
        init_step(TaskStageView::Start, vault, passphrase, TaskEventView::Begin) == (
            TaskStageView::Done,
            TaskActionView::Finish(Err(ErrorView::EmptyPassphrase)),
        ),
{
}

/// When `gocryptfs` fails to mount, the mount point is removed before the
/// failure is reported, and the report carries `gocryptfs`'s own error text;
/// when it succeeds, the caller gets a guard that is mounted at the mount point.
pub proof fn lemma_mount_outcomes(
    program: Seq<char>,
    vault: Seq<char>,
    mount: Seq<char>,
    passphrase: Seq<char>,
    stderr: Seq<u8>,
)
    ensures
        mount_step(
            TaskStageView::Running(program),
            vault,
            mount,
            passphrase,
            TaskEventView::Exited { success: false, stderr },
        ) == (TaskStageView::Discarding(failure_detail(stderr)), TaskActionView::RemoveDir(mount)),
        mount_step(
            TaskStageView::Discarding(failure_detail(stderr)),
            vault,
            mount,
            passphrase,
            TaskEventView::Removed,
        ) == (
            TaskStageView::Done,
            TaskActionView::Finish(Err(ErrorView::MountFailed(failure_detail(stderr)))),
        ),
        mount_step(
            TaskStageView::Running(program),
            vault,
            mount,
            passphrase,
            TaskEventView::Exited { success: true, stderr },
        ) == (TaskStageView::Done, TaskActionView::Mounted { path: mount, mounted: true }),
{
}

/// Where the removal of an application's vault stands.
#[derive(Debug, Clone, Copy, PartialEq, Eq)]
pub enum RemovalStage {
    Start,
    CheckingMount,
    Unmounting,
    CheckingVault,
    DeletingVault,
    RecheckingMount,
    DeletingMount,
    RemovingShortcuts,
    Finished,
}

/// What happened since the last step of a removal.
pub enum RemovalEvent {
    /// The removal was asked for.
    Begin,
    /// The path that was checked exists or not.
    Checked(bool),
    /// The requested work is done, successfully or not.
    Done(bool),
}

pub enum RemovalEventView {
    Begin,
    Checked(bool),
    Done(bool),
}

impl View for RemovalEvent {
    type V = RemovalEventView;

    open spec fn view(&self) -> RemovalEventView {
        match self {
            RemovalEvent::Begin => RemovalEventView::Begin,
            RemovalEvent::Checked(b) => RemovalEventView::Checked(*b),
            RemovalEvent::Done(b) => RemovalEventView::Done(*b),
        }
    }
}

/// What the caller is to do next for a removal.
pub enum RemovalAction {
    /// Check whether the path exists.
    CheckExists(String),
    /// Take down the vault mounted at the path (its outcome does not matter).
    Unmount(String),
    /// Delete the directory tree at the path.
    DeleteTree(String),
    /// Remove the application's launchers and badged icon.
    RemoveShortcuts(String),
    /// The removal is over, with this outcome.
    Finish(Result<(), LockerError>),
}

pub enum RemovalActionView {
    CheckExists(Seq<char>),
    Unmount(Seq<char>),
    DeleteTree(Seq<char>),
    RemoveShortcuts(Seq<char>),
    Finish(Result<(), ErrorView>),
}

impl View for RemovalAction {
    type V = RemovalActionView;

    open spec fn view(&self) -> RemovalActionView {
        match self {
            RemovalAction::CheckExists(p) => RemovalActionView::CheckExists(p@),
            RemovalAction::Unmount(p) => RemovalActionView::Unmount(p@),
            RemovalAction::DeleteTree(p) => RemovalActionView::DeleteTree(p@),
            RemovalAction::RemoveShortcuts(a) => RemovalActionView::RemoveShortcuts(a@),
            RemovalAction::Finish(r) => RemovalActionView::Finish(
                match r {
                    Ok(()) => Ok(()),
                    Err(e) => Err(e@),
                },
            ),
        }
    }
}

/// One step of removing application `app` for good: a live mount is taken
/// down first (whatever the outcome), then the encrypted storage is deleted
/// (a failure ends the removal with `DeleteVaultFailed` and nothing more is
/// touched), then a leftover mount point is deleted, and last the launchers
/// are removed.
pub open spec fn removal_step(
    stage: RemovalStage,
    vault: Seq<char>,
    mount: Seq<char>,
    app: Seq<char>,
    event: RemovalEventView,
) -> (RemovalStage, RemovalActionView) {
    match (stage, event) {
        (RemovalStage::Start, RemovalEventView::Begin) => (
            RemovalStage::CheckingMount,
            RemovalActionView::CheckExists(mount),
        ),
        (RemovalStage::CheckingMount, RemovalEventView::Checked(present)) => if present {
            (RemovalStage::Unmounting, RemovalActionView::Unmount(mount))
        } else {
            (RemovalStage::CheckingVault, RemovalActionView::CheckExists(vault))
        },
        (RemovalStage::Unmounting, RemovalEventView::Done(_)) => (
            RemovalStage::CheckingVault,
            RemovalActionView::CheckExists(vault),
        ),
        (RemovalStage::CheckingVault, RemovalEventView::Checked(present)) => if present {
            (RemovalStage::DeletingVault, RemovalActionView::DeleteTree(vault))
        } else {
            (RemovalStage::RecheckingMount, RemovalActionView::CheckExists(mount))
        },
        (RemovalStage::DeletingVault, RemovalEventView::Done(ok)) => if ok {
            (RemovalStage::RecheckingMount, RemovalActionView::CheckExists(mount))
        } else {
            (
                RemovalStage::Finished,
                RemovalActionView::Finish(Err(ErrorView::DeleteVaultFailed(vault))),
            )
        },
        (RemovalStage::RecheckingMount, RemovalEventView::Checked(present)) => if present {
            (RemovalStage::DeletingMount, RemovalActionView::DeleteTree(mount))
        } else {
            (RemovalStage::RemovingShortcuts, RemovalActionView::RemoveShortcuts(app))
        },
        (RemovalStage::DeletingMount, RemovalEventView::Done(_)) => (
            RemovalStage::RemovingShortcuts,
            RemovalActionView::RemoveShortcuts(app),
        ),
        (RemovalStage::RemovingShortcuts, RemovalEventView::Done(_)) => (
            RemovalStage::Finished,
            RemovalActionView::Finish(Ok(())),
        ),
        _ => (stage, RemovalActionView::Finish(Err(ErrorView::StepOutOfOrder))),
    }
}

/// The permanent removal of one application's vault, mount point and launchers.
pub struct RemovalFlow {
    pub app_name: String,
    pub vault_path: String,
    pub mount_path: String,
    pub stage: RemovalStage,
}

impl RemovalFlow {
    /// A removal of `app_name` with the given locations.
    pub fn new(app_name: String, vault_path: String, mount_path: String) -> (r: RemovalFlow)
        ensures
            r.app_name == app_name,
            r.vault_path == vault_path,
            r.mount_path == mount_path,
            r.stage == RemovalStage::Start,
    {
        RemovalFlow { app_name, vault_path, mount_path, stage: RemovalStage::Start }
    }

    /// A removal of `app_name` in the locker's layout.
    pub fn for_app(config: &crate::config::AppConfig, app_name: &str) -> (r: RemovalFlow)
        ensures
            r.app_name@ == app_name@,
            r.vault_path@ == joined(config.vaults_dir@, app_name@),
            r.mount_path@ == joined(config.mounts_dir@, app_name@),
            r.stage == RemovalStage::Start,
    {
        RemovalFlow::new(
            owned(app_name),
            config.get_vault_path(app_name),
            config.get_mount_path(app_name),
        )
    }

    /// Advances the removal by one event (see `removal_step`).
    pub fn step(&mut self, event: RemovalEvent) -> (a: RemovalAction)
        ensures
            final(self).app_name == old(self).app_name,
            final(self).vault_path == old(self).vault_path,
            final(self).mount_path == old(self).mount_path,
            (final(self).stage, a@) == removal_step(
                old(self).stage,
                old(self).vault_path@,
                old(self).mount_path@,
                old(self).app_name@,
                event@,
            ),
    {
        match (self.stage, event) {
            (RemovalStage::Start, RemovalEvent::Begin) => {
                self.stage = RemovalStage::CheckingMount;
                RemovalAction::CheckExists(self.mount_path.clone())
            },
            (RemovalStage::CheckingMount, RemovalEvent::Checked(present)) => {
                if present {
                    self.stage = RemovalStage::Unmounting;
                    RemovalAction::Unmount(self.mount_path.clone())
                } else {
                    self.stage = RemovalStage::CheckingVault;
                    RemovalAction::CheckExists(self.vault_path.clone())
                }
            },
            (RemovalStage::Unmounting, RemovalEvent::Done(_)) => {
                self.stage = RemovalStage::CheckingVault;
                RemovalAction::CheckExists(self.vault_path.clone())
            },
            (RemovalStage::CheckingVault, RemovalEvent::Checked(present)) => {
                if present {
                    self.stage = RemovalStage::DeletingVault;
                    RemovalAction::DeleteTree(self.vault_path.clone())
                } else {
                    self.stage = RemovalStage::RecheckingMount;
                    RemovalAction::CheckExists(self.mount_path.clone())
                }
            },
            (RemovalStage::DeletingVault, RemovalEvent::Done(ok)) => {
                if ok {
                    self.stage = RemovalStage::RecheckingMount;
                    RemovalAction::CheckExists(self.mount_path.clone())
                } else {
                    self.stage = RemovalStage::Finished;
                    RemovalAction::Finish(Err(LockerError::DeleteVaultFailed(self.vault_path.clone())))
                }
            },
            (RemovalStage::RecheckingMount, RemovalEvent::Checked(present)) => {
                if present {
                    self.stage = RemovalStage::DeletingMount;
                    RemovalAction::DeleteTree(self.mount_path.clone())
                } else {
                    self.stage = RemovalStage::RemovingShortcuts;
                    RemovalAction::RemoveShortcuts(self.app_name.clone())
                }
            },
            (RemovalStage::DeletingMount, RemovalEvent::Done(_)) => {
                self.stage = RemovalStage::RemovingShortcuts;
                RemovalAction::RemoveShortcuts(self.app_name.clone())
            },
            (RemovalStage::RemovingShortcuts, RemovalEvent::Done(_)) => {
                self.stage = RemovalStage::Finished;
                RemovalAction::Finish(Ok(()))
            },
            (_, _) => RemovalAction::Finish(Err(LockerError::StepOutOfOrder)),
        }
    }
}

/// When the encrypted storage cannot be deleted, the removal stops there:
/// it reports `DeleteVaultFailed` for the vault and leaves the mount point
/// and the launchers alone.
pub proof fn lemma_failed_delete_stops_removal(vault: Seq<char>, mount: Seq<char>, app: Seq<char>)
    ensures
        removal_step(RemovalStage::DeletingVault, vault, mount, app, RemovalEventView::Done(false))
            == (
            RemovalStage::Finished,
            RemovalActionView::Finish(Err(ErrorView::DeleteVaultFailed(vault))),
        ),
        forall|e: RemovalEventView|
            #![trigger removal_step(RemovalStage::Finished, vault, mount, app, e)]
            removal_step(RemovalStage::Finished, vault, mount, app, e).1 == RemovalActionView::Finish(
                Err(ErrorView::StepOutOfOrder),
            ),
{
}


/// Once no live mount was found, or the one found was taken down, the
/// removal checks the encrypted storage next; storage reported present is
/// deleted next.
pub proof fn lemma_removal_checks_then_deletes_vault(
    vault: Seq<char>,
    mount: Seq<char>,
    app: Seq<char>,
    unmounted: bool,
)
    ensures
        removal_step(RemovalStage::CheckingMount, vault, mount, app, RemovalEventView::Checked(false))
            == (RemovalStage::CheckingVault, RemovalActionView::CheckExists(vault)),
        removal_step(RemovalStage::Unmounting, vault, mount, app, RemovalEventView::Done(unmounted))
            == (RemovalStage::CheckingVault, RemovalActionView::CheckExists(vault)),
        removal_step(RemovalStage::CheckingVault, vault, mount, app, RemovalEventView::Checked(true))
            == (RemovalStage::DeletingVault, RemovalActionView::DeleteTree(vault)),
{
}

/// A removal driven by `events` from its start: the stage it reaches and the
/// action it asked for after each event.
pub open spec fn removal_run(
    vault: Seq<char>,
    mount: Seq<char>,
    app: Seq<char>,
    events: Seq<RemovalEventView>,
) -> (RemovalStage, Seq<RemovalActionView>)
    decreases events.len(),
{
    if events.len() == 0 {
        (RemovalStage::Start, Seq::empty())
    } else {
        let prev = removal_run(vault, mount, app, events.drop_last());
        let next = removal_step(prev.0, vault, mount, app, events.last());
        (next.0, prev.1.push(next.1))
    }
}

/// Every event of the run came when the removal expected it: no step was
/// answered with `StepOutOfOrder`.
pub open spec fn removal_in_order(actions: Seq<RemovalActionView>) -> bool {
    forall|k: int|
        0 <= k < actions.len() ==> #[trigger] actions[k] != RemovalActionView::Finish(
            Err(ErrorView::StepOutOfOrder),
        )
}

/// Before event `n`, the encrypted storage at `vault` was dealt with: a
/// check of it was answered "absent", or a deletion of it was answered
/// "done".
pub open spec fn vault_dealt_with(
    vault: Seq<char>,
    events: Seq<RemovalEventView>,
    actions: Seq<RemovalActionView>,
    n: int,
) -> bool {
    exists|i: int|
        0 <= i && i + 1 < n && ((#[trigger] actions[i] == RemovalActionView::CheckExists(vault)
            && events[i + 1] == RemovalEventView::Checked(false)) || (actions[i]
            == RemovalActionView::DeleteTree(vault) && events[i + 1] == RemovalEventView::Done(
            true,
        )))
}

proof fn lemma_removal_run_invariant(
    vault: Seq<char>,
    mount: Seq<char>,
    app: Seq<char>,
    events: Seq<RemovalEventView>,
)
    ensures
        ({
            let (stage, actions) = removal_run(vault, mount, app, events);
            &&& actions.len() == events.len()
            &&& removal_in_order(actions) && stage == RemovalStage::CheckingVault ==> actions.last()
                == RemovalActionView::CheckExists(vault)
            &&& removal_in_order(actions) && stage == RemovalStage::DeletingVault ==> actions.last()
                == RemovalActionView::DeleteTree(vault)
            &&& removal_in_order(actions) && (stage == RemovalStage::RecheckingMount || stage == RemovalStage::DeletingMount
                || stage == RemovalStage::RemovingShortcuts) ==> vault_dealt_with(
                vault,
                events,
                actions,
                events.len() as int,
            )
            &&& removal_in_order(actions) ==> forall|k: int|
                0 <= k < actions.len() && #[trigger] actions[k] == RemovalActionView::Finish(Ok(()))
                    ==> vault_dealt_with(vault, events, actions, k)
        }),
    decreases events.len(),
{
    if events.len() > 0 {
        let prev_events = events.drop_last();
        lemma_removal_run_invariant(vault, mount, app, prev_events);
        let (ps, pa) = removal_run(vault, mount, app, prev_events);
        let (stage, actions) = removal_run(vault, mount, app, events);
        let n = prev_events.len() as int;
        let e = events.last();
        assert(actions == pa.push(removal_step(ps, vault, mount, app, e).1));
        if removal_in_order(actions) {
            assert forall|k: int| 0 <= k < pa.len() implies #[trigger] pa[k]
                != RemovalActionView::Finish(Err(ErrorView::StepOutOfOrder)) by {
                assert(actions[k] == pa[k]);
            }
            assert(actions[n] != RemovalActionView::Finish(Err(ErrorView::StepOutOfOrder)));
        }
        assert forall|i: int| 0 <= i < n implies #[trigger] events[i] == prev_events[i] by {}
        // witnesses found in the shorter run still hold in the longer one
        assert forall|m: int| 0 <= m <= n && vault_dealt_with(vault, prev_events, pa, m) implies vault_dealt_with(
            vault,
            events,
            actions,
            m,
        ) by {
            let i = choose|i: int|
                0 <= i && i + 1 < m && ((#[trigger] pa[i] == RemovalActionView::CheckExists(vault)
                    && prev_events[i + 1] == RemovalEventView::Checked(false)) || (pa[i]
                    == RemovalActionView::DeleteTree(vault) && prev_events[i + 1]
                    == RemovalEventView::Done(true)));
            assert(actions[i] == pa[i]);
            assert(events[i + 1] == prev_events[i + 1]);
        }
        if vault_dealt_with(vault, prev_events, pa, n) {
            assert(vault_dealt_with(vault, events, actions, n + 1)) by {
                let i = choose|i: int|
                    0 <= i && i + 1 < n && ((#[trigger] pa[i] == RemovalActionView::CheckExists(
                        vault,
                    ) && prev_events[i + 1] == RemovalEventView::Checked(false)) || (pa[i]
                        == RemovalActionView::DeleteTree(vault) && prev_events[i + 1]
                        == RemovalEventView::Done(true)));
                assert(actions[i] == pa[i]);
                assert(events[i + 1] == prev_events[i + 1]);
            }
        }
        if removal_in_order(actions) && ps == RemovalStage::CheckingVault && e == RemovalEventView::Checked(false) {
            assert(actions[n - 1] == pa.last());
            assert(events[n] == e);
            assert(vault_dealt_with(vault, events, actions, n + 1));
        }
        if removal_in_order(actions) && ps == RemovalStage::DeletingVault && e == RemovalEventView::Done(true) {
            assert(actions[n - 1] == pa.last());
            assert(events[n] == e);
            assert(vault_dealt_with(vault, events, actions, n + 1));
        }
        assert forall|k: int|
            removal_in_order(actions) && 0 <= k < actions.len() && #[trigger] actions[k]
                == RemovalActionView::Finish(Ok(())) implies vault_dealt_with(vault, events, actions, k) by {
            if k < n {
                assert(actions[k] == pa[k]);
                assert(vault_dealt_with(vault, prev_events, pa, k));
            } else {
                assert(ps == RemovalStage::RemovingShortcuts);
                assert(vault_dealt_with(vault, prev_events, pa, n));
            }
        }
    }
}

/// A removal that reports success has dealt with the encrypted storage: in
/// any run of events, before a `Finish(Ok)` the vault was either checked and
/// reported absent, or deleted with success. So storage that was reported
/// present is never left behind by a successful removal. (A run counts when
/// each event came when it was expected.)
pub proof fn lemma_success_only_after_vault_gone(
    vault: Seq<char>,
    mount: Seq<char>,
    app: Seq<char>,
    events: Seq<RemovalEventView>,
    k: int,
)
    requires
        0 <= k < events.len(),
        removal_in_order(removal_run(vault, mount, app, events).1),
        removal_run(vault, mount, app, events).1[k] == RemovalActionView::Finish(Ok(())),
    ensures
        exists|i: int|
            0 <= i && i + 1 < k && ((#[trigger] removal_run(vault, mount, app, events).1[i]
                == RemovalActionView::CheckExists(vault) && events[i + 1]
                == RemovalEventView::Checked(false)) || (removal_run(vault, mount, app, events).1[i]
                == RemovalActionView::DeleteTree(vault) && events[i + 1] == RemovalEventView::Done(
                true,
            ))),
{
    lemma_removal_run_invariant(vault, mount, app, events);
    let actions = removal_run(vault, mount, app, events).1;
    assert(vault_dealt_with(vault, events, actions, k));
}

/// A lazy unmount is only ever asked for right after a normal unmount
/// attempt failed, and always with the program that made that attempt.
pub proof fn lemma_lazy_unmount_only_after_failure(
    stage: UnmountStageView,
    mounted: bool,
    path: Seq<char>,
    event: UnmountEventView,
    program: Seq<char>,
)
    ensures
        unmount_step(stage, mounted, path, event).2 == (UnmountActionView::Run {
            program,
            args: fusermount_args(true, path),
        }) ==> stage == UnmountStageView::Unmounting(program) && event
            == UnmountEventView::Exited(false),
{
    assert(fusermount_args(true, path).len() != fusermount_args(false, path).len());
}


/// Where making sure that a vault exists stands.
#[derive(Debug, Clone, Copy, PartialEq, Eq)]
pub enum EnsureStage {
    Start,
    Checking,
    Reading,
    Initializing,
    Done,
}

/// What happened since the last step of making sure that a vault exists.
pub enum EnsureEvent {
    /// The check was asked for.
    Begin,
    /// The vault's configuration file exists or not.
    Checked(bool),
    /// The new passphrase and its confirmation were read.
    Passphrases { passphrase: String, confirmation: String },
    /// Reading the passphrases failed, with this description.
    ReadFailed(String),
    /// The initialisation ended with this outcome.
    Initialized(Result<(), LockerError>),
}

pub enum EnsureEventView {
    Begin,
    Checked(bool),
    Passphrases { passphrase: Seq<char>, confirmation: Seq<char> },
    ReadFailed(Seq<char>),
    Initialized(Result<(), ErrorView>),
}

impl View for EnsureEvent {
    type V = EnsureEventView;

    open spec fn view(&self) -> EnsureEventView {
        match self {
            EnsureEvent::Begin => EnsureEventView::Begin,
            EnsureEvent::Checked(b) => EnsureEventView::Checked(*b),
            EnsureEvent::Passphrases { passphrase, confirmation } => EnsureEventView::Passphrases {
                passphrase: passphrase@,
                confirmation: confirmation@,
            },
            EnsureEvent::ReadFailed(m) => EnsureEventView::ReadFailed(m@),
            EnsureEvent::Initialized(r) => EnsureEventView::Initialized(
                match r {
                    Ok(()) => Ok(()),
                    Err(e) => Err(e@),
                },
            ),
        }
    }
}

/// What the caller is to do next to make sure that a vault exists.
pub enum EnsureAction {
    /// Check whether the file exists.
    CheckExists(String),
    /// Ask for a new passphrase and its confirmation.
    ReadPassphrases,
    /// Initialise the vault at `vault_path` with `passphrase` (see `InitFlow`).
    Initialize { vault_path: String, passphrase: String },
    /// Done, with this outcome.
    Finish(Result<(), LockerError>),
}

pub enum EnsureActionView {
    CheckExists(Seq<char>),
    ReadPassphrases,
    Initialize { vault_path: Seq<char>, passphrase: Seq<char> },
    Finish(Result<(), ErrorView>),
}

impl View for EnsureAction {
    type V = EnsureActionView;

    open spec fn view(&self) -> EnsureActionView {
        match self {
            EnsureAction::CheckExists(p) => EnsureActionView::CheckExists(p@),
            EnsureAction::ReadPassphrases => EnsureActionView::ReadPassphrases,
            EnsureAction::Initialize { vault_path, passphrase } => EnsureActionView::Initialize {
                vault_path: vault_path@,
                passphrase: passphrase@,
            },
            EnsureAction::Finish(r) => EnsureActionView::Finish(
                match r {
                    Ok(()) => Ok(()),
                    Err(e) => Err(e@),
                },
            ),
        }
    }
}

/// One step of making sure that the vault at `vault` exists: an existing
/// `gocryptfs.conf` means it does; otherwise a new passphrase is asked for
/// twice, differing answers abort, and equal ones initialise the vault.
pub open spec fn ensure_step(stage: EnsureStage, vault: Seq<char>, event: EnsureEventView) -> (
    EnsureStage,
    EnsureActionView,
) {
    match (stage, event) {
        (EnsureStage::Start, EnsureEventView::Begin) => (
            EnsureStage::Checking,
            EnsureActionView::CheckExists(joined(vault, "gocryptfs.conf"@)),
        ),
        (EnsureStage::Checking, EnsureEventView::Checked(present)) => if present {
            (EnsureStage::Done, EnsureActionView::Finish(Ok(())))
        } else {
            (EnsureStage::Reading, EnsureActionView::ReadPassphrases)
        },
        (EnsureStage::Reading, EnsureEventView::Passphrases { passphrase, confirmation }) => if passphrase
            == confirmation {
            (
                EnsureStage::Initializing,
                EnsureActionView::Initialize { vault_path: vault, passphrase },
            )
        } else {
            (EnsureStage::Done, EnsureActionView::Finish(Err(ErrorView::PassphraseMismatch)))
        },
        (EnsureStage::Reading, EnsureEventView::ReadFailed(m)) => (
            EnsureStage::Done,
            EnsureActionView::Finish(Err(ErrorView::Io(m))),
        ),
        (EnsureStage::Initializing, EnsureEventView::Initialized(r)) => (
            EnsureStage::Done,
            EnsureActionView::Finish(r),
        ),
        _ => (stage, EnsureActionView::Finish(Err(ErrorView::StepOutOfOrder))),
    }
}

/// Making sure that one application's vault exists, creating it if not.
pub struct EnsureFlow {
    pub vault_path: String,
    pub stage: EnsureStage,
}

impl EnsureFlow {
    /// A flow for the vault at `vault_path`.
    pub fn new(vault_path: String) -> (r: EnsureFlow)
        ensures
            r.vault_path == vault_path,
            r.stage == EnsureStage::Start,
    {
        EnsureFlow { vault_path, stage: EnsureStage::Start }
    }

    /// Advances by one event (see `ensure_step`).
    pub fn step(&mut self, event: EnsureEvent) -> (a: EnsureAction)
        ensures
            final(self).vault_path == old(self).vault_path,
            (final(self).stage, a@) == ensure_step(old(self).stage, old(self).vault_path@, event@),
    {
        match (self.stage, event) {
            (EnsureStage::Start, EnsureEvent::Begin) => {
                self.stage = EnsureStage::Checking;
                EnsureAction::CheckExists(gocryptfs_conf_path(self.vault_path.as_str()))
            },
            (EnsureStage::Checking, EnsureEvent::Checked(present)) => {
                if present {
                    self.stage = EnsureStage::Done;
                    EnsureAction::Finish(Ok(()))
                } else {
                    self.stage = EnsureStage::Reading;
                    EnsureAction::ReadPassphrases
                }
            },
            (EnsureStage::Reading, EnsureEvent::Passphrases { passphrase, confirmation }) => {
                if passphrase == confirmation {
                    self.stage = EnsureStage::Initializing;
                    EnsureAction::Initialize { vault_path: self.vault_path.clone(), passphrase }
                } else {
                    self.stage = EnsureStage::Done;
                    EnsureAction::Finish(Err(LockerError::PassphraseMismatch))
                }
            },
            (EnsureStage::Reading, EnsureEvent::ReadFailed(m)) => {
                self.stage = EnsureStage::Done;
                EnsureAction::Finish(Err(LockerError::Io(m)))
            },
            (EnsureStage::Initializing, EnsureEvent::Initialized(r)) => {
                self.stage = EnsureStage::Done;
                EnsureAction::Finish(r)
            },
            (_, _) => EnsureAction::Finish(Err(LockerError::StepOutOfOrder)),
        }
    }
}

/// A vault is never initialised unless the passphrase was typed the same way
/// twice, and an existing vault is never initialised again.
pub proof fn lemma_initialise_only_confirmed_new_vaults(
    stage: EnsureStage,
    vault: Seq<char>,
    event: EnsureEventView,
)
    ensures
        ensure_step(stage, vault, event).1 is Initialize ==> stage == EnsureStage::Reading && (
        event matches EnsureEventView::Passphrases { passphrase, confirmation }
            && passphrase == confirmation && ensure_step(stage, vault, event).1
            == EnsureActionView::Initialize { vault_path: vault, passphrase }),
        ensure_step(EnsureStage::Checking, vault, EnsureEventView::Checked(true)).1
            == EnsureActionView::Finish(Ok(())),
{
}

} // verus!
