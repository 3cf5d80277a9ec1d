//! What follows a question in an overlay: whether something is closed.
use crate::commands::{Translations, translated};
use vstd::prelude::*;
use vstd::string::*;

verus! {

/// What is done once a question is answered.
#[derive(Clone, Copy, Debug, PartialEq, Eq, Structural)]
pub enum ConfirmStep {
    KillPane { tab: u64, pane: u64 },
    /// Remember the directory of a tab, so that it can be reopened.
    RecordClosedTab(u64),
    RemoveTab(u64),
    KillWindow(u64),
    ApplyUpdate,
    Quit,
    CancelPaneOverlay(u64),
    CancelTabOverlay(u64),
}

/// What an overlay asks about.
#[derive(Clone, Copy, Debug, PartialEq, Eq, Structural)]
pub enum Question {
    ClosePane,
    CloseTab,
    CloseWindow,
    ApplyUpdate,
    QuitProgram,
}

/// What an overlay asks.
pub open spec fn question_text(q: Question, t: Translations) -> Seq<char> {
    match q {
        Question::ClosePane => translated(t.entries@, "overlay.confirm_close.pane"@),
        Question::CloseTab => translated(t.entries@, "overlay.confirm_close.tab"@),
        Question::CloseWindow => translated(t.entries@, "overlay.confirm_close.window"@),
        Question::ApplyUpdate => {
            "Update Kaku now?\nAll windows will close and running tasks will stop."@
        },
        Question::QuitProgram => translated(t.entries@, "overlay.confirm_close.quit"@),
    }
}

impl Question {
    /// What an overlay asks.
    pub fn text(self, t: &Translations) -> (r: String)
        ensures
            r@ == question_text(self, *t),
    {
        match self {
            Question::ClosePane => t.lookup("overlay.confirm_close.pane"),
            Question::CloseTab => t.lookup("overlay.confirm_close.tab"),
            Question::CloseWindow => t.lookup("overlay.confirm_close.window"),
            Question::ApplyUpdate => {
                "Update Kaku now?\nAll windows will close and running tasks will stop.".to_owned()
            },
            Question::QuitProgram => t.lookup("overlay.confirm_close.quit"),
        }
    }
}

/// The steps, with the overlay taken away at their end.
pub open spec fn and_cancel(
    confirmed: bool,
    steps: Seq<ConfirmStep>,
    cancel: ConfirmStep,
) -> Seq<ConfirmStep> {
    if confirmed {
        steps.push(cancel)
    } else {
        seq![cancel]
    }
}

fn one_and_cancel(confirmed: bool, step: ConfirmStep, cancel: ConfirmStep) -> (r: Vec<ConfirmStep>)
    ensures
        r@ == and_cancel(confirmed, seq![step], cancel),
{
    let mut out: Vec<ConfirmStep> = Vec::new();
    if confirmed {
        out.push(step);
    }
    out.push(cancel);
    assert(out@ =~= and_cancel(confirmed, seq![step], cancel));
    out
}

/// Closes a pane in its own tab, rather than in whichever tab is active when the
/// prompt is answered: switching tabs while the prompt is up would otherwise aim
/// at a tab that never held this pane. `tab` is the tab that holds the pane, if
/// it is still there.
pub fn confirm_close_pane(confirmed: bool, pane: u64, tab: Option<u64>) -> (r: Vec<ConfirmStep>)
    ensures
        r@ == and_cancel(
            confirmed,
            match tab {
                Some(tab) => seq![ConfirmStep::KillPane { tab, pane }],
                None => seq![],
            },
            ConfirmStep::CancelPaneOverlay(pane),
        ),
{
    match tab {
        Some(tab) => one_and_cancel(
            confirmed,
            ConfirmStep::KillPane { tab, pane },
            ConfirmStep::CancelPaneOverlay(pane),
        ),
        None => {
            let mut out: Vec<ConfirmStep> = Vec::new();
            out.push(ConfirmStep::CancelPaneOverlay(pane));
            assert(out@ =~= and_cancel(confirmed, seq![], ConfirmStep::CancelPaneOverlay(pane)));
            out
        },
    }
}

/// Closes a tab. Its directory is recorded only here: the user may still cancel,
/// and only this branch knows they did not. `exists` says whether the tab is
/// still there.
pub fn confirm_close_tab(confirmed: bool, tab: u64, exists: bool) -> (r: Vec<ConfirmStep>)
    ensures
        r@ == and_cancel(
            confirmed,
            if exists {
                seq![ConfirmStep::RecordClosedTab(tab), ConfirmStep::RemoveTab(tab)]
            } else {
                seq![ConfirmStep::RemoveTab(tab)]
            },
            ConfirmStep::CancelTabOverlay(tab),
        ),
{
    let mut out: Vec<ConfirmStep> = Vec::new();
    if confirmed {
        if exists {
            out.push(ConfirmStep::RecordClosedTab(tab));
        }
        out.push(ConfirmStep::RemoveTab(tab));
    }
    out.push(ConfirmStep::CancelTabOverlay(tab));
    assert(out@ =~= and_cancel(
        confirmed,
        if exists {
            seq![ConfirmStep::RecordClosedTab(tab), ConfirmStep::RemoveTab(tab)]
        } else {
            seq![ConfirmStep::RemoveTab(tab)]
        },
        ConfirmStep::CancelTabOverlay(tab),
    ));
    out
}

pub fn confirm_close_window(confirmed: bool, window: u64, tab: u64) -> (r: Vec<ConfirmStep>)
    ensures
        r@ == and_cancel(
            confirmed,
            seq![ConfirmStep::KillWindow(window)],
            ConfirmStep::CancelTabOverlay(tab),
        ),
{
    one_and_cancel(confirmed, ConfirmStep::KillWindow(window), ConfirmStep::CancelTabOverlay(tab))
}

pub fn confirm_apply_update(confirmed: bool, tab: u64) -> (r: Vec<ConfirmStep>)
    ensures
        r@ == and_cancel(
            confirmed,
            seq![ConfirmStep::ApplyUpdate],
            ConfirmStep::CancelTabOverlay(tab),
        ),
{
    one_and_cancel(confirmed, ConfirmStep::ApplyUpdate, ConfirmStep::CancelTabOverlay(tab))
}

pub fn confirm_quit_program(confirmed: bool, tab: u64) -> (r: Vec<ConfirmStep>)
    ensures
        r@ == and_cancel(
            confirmed,
            seq![ConfirmStep::Quit],
            ConfirmStep::CancelTabOverlay(tab),
        ),
{
    one_and_cancel(confirmed, ConfirmStep::Quit, ConfirmStep::CancelTabOverlay(tab))
}

/// A question that is answered with no changes nothing but the overlay.
pub proof fn refusing_changes_nothing(steps: Seq<ConfirmStep>, cancel: ConfirmStep)
    ensures
        and_cancel(false, steps, cancel) == seq![cancel],
{
}

} // verus!
