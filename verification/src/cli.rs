use vstd::prelude::*;

use crate::error::{error_text, ErrorView, LockerError};
use crate::text::{concat2, left_aligned, lowercase, owned, pad_right, to_lower, trim, trimmed};
use crate::vault::{mount_failure_text, unlock_title};

verus! {

/// The answer to "delete this vault?" counts as yes when, trimmed and in
/// lowercase, it is `y` or `yes`.
pub open spec fn confirms(answer: Seq<char>) -> bool {
    let t = lowercase(trimmed(answer));
    t == "y"@ || t == "yes"@
}

/// Whether an answer that is already trimmed and lowercased is yes.
pub fn is_yes(lowered: &String) -> (r: bool)
    ensures
        r == (lowered@ == "y"@ || lowered@ == "yes"@),
{
    *lowered == owned("y") || *lowered == owned("yes")
}

/// Whether a typed answer confirms the removal of a vault.
pub fn removal_confirmed(answer: &str) -> (r: bool)
    ensures
        r == confirms(answer@),
{
    let t = trim(answer);
    let l = to_lower(t.as_str());
    is_yes(&l)
}

/// How a vault's state is shown in the listing.
pub open spec fn status_label_spec(is_mounted: bool) -> Seq<char> {
    if is_mounted {
        "MOUNTED (UNLOCKED)"@
    } else {
        "LOCKED"@
    }
}

/// How a vault's state is shown in the listing.
pub fn mount_status_label(is_mounted: bool) -> (r: String)
    ensures
        r@ == status_label_spec(is_mounted),
{
    if is_mounted {
        owned("MOUNTED (UNLOCKED)")
    } else {
        owned("LOCKED")
    }
}

/// One line of the vault listing: name and state in aligned columns, then the path.
pub open spec fn list_line_spec(app: Seq<char>, is_mounted: bool, path: Seq<char>) -> Seq<char> {
    "- App: "@ + left_aligned(app, 15) + " Status: "@ + left_aligned(status_label_spec(is_mounted), 20)
        + " Vault Path: "@ + path
}

/// One line of the vault listing.
pub fn vault_list_line(app: &str, is_mounted: bool, vault_path: &str) -> (r: String)
    ensures
        r@ == list_line_spec(app@, is_mounted, vault_path@),
{
    let name = pad_right(app, 15);
    let label = mount_status_label(is_mounted);
    let status = pad_right(label.as_str(), 20);
    let mut s = concat2("- App: ", name.as_str());
    s.append(" Status: ");
    s.append(status.as_str());
    s.append(" Vault Path: ");
    s.append(vault_path);
    s
}


/// What the passphrase dialog gave.
pub enum PromptReply {
    /// A passphrase was entered.
    Entered(String),
    /// The user cancelled.
    Cancelled,
    /// No dialog could be shown.
    Unavailable,
}

/// Where a launch from a desktop launcher stands.
pub enum LaunchStage {
    Start,
    Prompting,
    Mounting,
    Running,
    Reporting(LockerError),
    Done,
}

pub enum LaunchStageView {
    Start,
    Prompting,
    Mounting,
    Running,
    Reporting(ErrorView),
    Done,
}

impl View for LaunchStage {
    type V = LaunchStageView;

    open spec fn view(&self) -> LaunchStageView {
        match self {
            LaunchStage::Start => LaunchStageView::Start,
            LaunchStage::Prompting => LaunchStageView::Prompting,
            LaunchStage::Mounting => LaunchStageView::Mounting,
            LaunchStage::Running => LaunchStageView::Running,
            LaunchStage::Reporting(e) => LaunchStageView::Reporting(e@),
            LaunchStage::Done => LaunchStageView::Done,
        }
    }
}

/// What happened since the last step of a launch.
pub enum LaunchEvent {
    /// The launch was asked for.
    Begin,
    /// The passphrase dialog ended.
    Prompted(PromptReply),
    /// Mounting the vault with the passphrase ended.
    Mounted(Result<(), LockerError>),
    /// The sandboxed application has ended.
    SessionEnded,
    /// The error dialog was shown (or could not be).
    ErrorShown,
}

pub enum LaunchEventView {
    Begin,
    Entered(Seq<char>),
    Cancelled,
    Unavailable,
    Mounted(Result<(), ErrorView>),
    SessionEnded,
    ErrorShown,
}

impl View for LaunchEvent {
    type V = LaunchEventView;

    open spec fn view(&self) -> LaunchEventView {
        match self {
            LaunchEvent::Begin => LaunchEventView::Begin,
            LaunchEvent::Prompted(PromptReply::Entered(p)) => LaunchEventView::Entered(p@),
            LaunchEvent::Prompted(PromptReply::Cancelled) => LaunchEventView::Cancelled,
            LaunchEvent::Prompted(PromptReply::Unavailable) => LaunchEventView::Unavailable,
            LaunchEvent::Mounted(r) => LaunchEventView::Mounted(
                match r {
                    Ok(()) => Ok(()),
                    Err(e) => Err(e@),
                },
            ),
            LaunchEvent::SessionEnded => LaunchEventView::SessionEnded,
            LaunchEvent::ErrorShown => LaunchEventView::ErrorShown,
        }
    }
}

/// What the caller is to do next for a launch.
pub enum LaunchAction {
    /// Show the passphrase dialog with this title.
    AskPassphrase(String),
    /// Mount the application's vault with this passphrase (keeping the mount
    /// until the launch is over).
    Mount(String),
    /// Run the application in its sandbox on the mounted vault.
    RunSandbox,
    /// Without a dialog, run the whole session on the terminal instead
    /// (making sure the vault exists, asking there, mounting, running) and
    /// end with its outcome.
    RunInTerminal,
    /// Show an error dialog.
    ShowError { title: String, text: String },
    /// The launch is over, with this outcome (the mount, if any, is taken down).
    Finish(Result<(), LockerError>),
}

pub enum LaunchActionView {
    AskPassphrase(Seq<char>),
    Mount(Seq<char>),
    RunSandbox,
    RunInTerminal,
    ShowError { title: Seq<char>, text: Seq<char> },
    Finish(Result<(), ErrorView>),
}

impl View for LaunchAction {
    type V = LaunchActionView;

    open spec fn view(&self) -> LaunchActionView {
        match self {
            LaunchAction::AskPassphrase(t) => LaunchActionView::AskPassphrase(t@),
            LaunchAction::Mount(p) => LaunchActionView::Mount(p@),
            LaunchAction::RunSandbox => LaunchActionView::RunSandbox,
            LaunchAction::RunInTerminal => LaunchActionView::RunInTerminal,
            LaunchAction::ShowError { title, text } => LaunchActionView::ShowError {
                title: title@,
                text: text@,
            },
            LaunchAction::Finish(r) => LaunchActionView::Finish(
                match r {
                    Ok(()) => Ok(()),
                    Err(e) => Err(e@),
                },
            ),
        }
    }
}

/// One step of launching `app` from its desktop launcher: the passphrase is
/// asked for in a dialog; cancelling ends the launch quietly; without a
/// dialog the session runs on the terminal; a passphrase mounts the vault,
/// and then the application runs (its outcome does not matter); a failed
/// mount is shown in an error dialog and then reported.
pub open spec fn launch_step(stage: LaunchStageView, app: Seq<char>, event: LaunchEventView) -> (
    LaunchStageView,
    LaunchActionView,
) {
    match (stage, event) {
        (LaunchStageView::Start, LaunchEventView::Begin) => (
            LaunchStageView::Prompting,
            LaunchActionView::AskPassphrase("Unlock "@ + app + " Vault"@),
        ),
        (LaunchStageView::Prompting, LaunchEventView::Entered(p)) => (
            LaunchStageView::Mounting,
            LaunchActionView::Mount(p),
        ),
        (LaunchStageView::Prompting, LaunchEventView::Cancelled) => (
            LaunchStageView::Done,
            LaunchActionView::Finish(Ok(())),
        ),
        (LaunchStageView::Prompting, LaunchEventView::Unavailable) => (
            LaunchStageView::Done,
            LaunchActionView::RunInTerminal,
        ),
        (LaunchStageView::Mounting, LaunchEventView::Mounted(r)) => match r {
            Ok(()) => (LaunchStageView::Running, LaunchActionView::RunSandbox),
            Err(e) => (
                LaunchStageView::Reporting(e),
                LaunchActionView::ShowError {
                    title: "App Locker Error"@,
                    text: "Failed to mount vault for '"@ + app + "':\n"@ + error_text(e),
                },
            ),
        },
        (LaunchStageView::Running, LaunchEventView::SessionEnded) => (
            LaunchStageView::Done,
            LaunchActionView::Finish(Ok(())),
        ),
        (LaunchStageView::Reporting(e), LaunchEventView::ErrorShown) => (
            LaunchStageView::Done,
            LaunchActionView::Finish(Err(e)),
        ),
        _ => (stage, LaunchActionView::Finish(Err(ErrorView::StepOutOfOrder))),
    }
}

/// A launch of one application from its desktop launcher.
pub struct LaunchFlow {
    pub app_name: String,
    pub stage: LaunchStage,
}

impl LaunchFlow {
    /// A launch of `app_name`.
    pub fn new(app_name: String) -> (r: LaunchFlow)
        ensures
            r.app_name == app_name,
            r.stage@ == LaunchStageView::Start,
    {
        LaunchFlow { app_name, stage: LaunchStage::Start }
    }

    /// Advances the launch by one event (see `launch_step`).
    pub fn step(&mut self, event: LaunchEvent) -> (a: LaunchAction)
        ensures
            final(self).app_name == old(self).app_name,
            (final(self).stage@, a@) == launch_step(old(self).stage@, old(self).app_name@, event@),
    {
        let mut stage = LaunchStage::Done;
        std::mem::swap(&mut stage, &mut self.stage);
        match (stage, event) {
            (LaunchStage::Start, LaunchEvent::Begin) => {
                self.stage = LaunchStage::Prompting;
                LaunchAction::AskPassphrase(unlock_title(self.app_name.as_str()))
            },
            (LaunchStage::Prompting, LaunchEvent::Prompted(PromptReply::Entered(p))) => {
                self.stage = LaunchStage::Mounting;
                LaunchAction::Mount(p)
            },
            (LaunchStage::Prompting, LaunchEvent::Prompted(PromptReply::Cancelled)) => {
                LaunchAction::Finish(Ok(()))
            },
            (LaunchStage::Prompting, LaunchEvent::Prompted(PromptReply::Unavailable)) => {
                LaunchAction::RunInTerminal
            },
            (LaunchStage::Mounting, LaunchEvent::Mounted(r)) => match r {
                Ok(()) => {
                    self.stage = LaunchStage::Running;
                    LaunchAction::RunSandbox
                },
                Err(e) => {
                    let text = mount_failure_text(self.app_name.as_str(), &e);
                    self.stage = LaunchStage::Reporting(e);
                    LaunchAction::ShowError { title: owned("App Locker Error"), text }
                },
            },
            (LaunchStage::Running, LaunchEvent::SessionEnded) => LaunchAction::Finish(Ok(())),
            (LaunchStage::Reporting(e), LaunchEvent::ErrorShown) => LaunchAction::Finish(Err(e)),
            (other, _) => {
                self.stage = other;
                LaunchAction::Finish(Err(LockerError::StepOutOfOrder))
            },
        }
    }
}

/// A launch never runs the application unless the vault was mounted with
/// the passphrase entered, and a failed mount is always shown before it is
/// reported.
pub proof fn lemma_launch_runs_only_mounted(
    stage: LaunchStageView,
    app: Seq<char>,
    event: LaunchEventView,
)
    ensures
        launch_step(stage, app, event).1 is RunSandbox ==> stage == LaunchStageView::Mounting
            && event == LaunchEventView::Mounted(Ok(())),
        launch_step(stage, app, event).1 matches LaunchActionView::Finish(Err(e)) ==> e
            == ErrorView::StepOutOfOrder || (stage == LaunchStageView::Reporting(e) && event
            == LaunchEventView::ErrorShown),
{
    if let LaunchEventView::Mounted(r) = event {
        if let Ok(u) = r {
            assert(u == ());
            assert(r == Ok::<(), ErrorView>(()));
        }
    }
}

} // verus!
