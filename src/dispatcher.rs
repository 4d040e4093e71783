//! The single-threaded dispatcher of tray actions. It owns the decisions;
//! the caller performs what each returned command asks (capturing a
//! snapshot, signalling, waiting, notifying) and reports back.
use vstd::prelude::*;
use crate::matcher::{find_matches, matches_of};
use crate::notice::{error_body, error_title, show_error_notification, show_simple_notification, Notice};
use crate::pattern::NamePattern;
use crate::process::ProcessSnapshot;
use crate::termination::{
    action_of, fed, finished, initial, outcome_of, OutcomeView, TermAction, TermState, Termination,
    TerminationOutcome,
};
use crate::text::{decimal, pid_list, push_decimal, push_pid_list, same_text};

verus! {

/// A user intent delivered by the tray.
#[derive(PartialEq, Eq, Structural, Clone, Copy, Debug)]
pub enum Action {
    /// Find the target application and terminate its process tree.
    KillTarget,
    /// Stop the dispatcher for good.
    Quit,
    /// An inbound signal that named no known action.
    Noop,
}

impl Action {
    pub open spec fn label_of(self) -> Seq<char> {
        match self {
            Action::KillTarget => "KillTarget"@,
            Action::Quit => "Quit"@,
            Action::Noop => "No-op"@,
        }
    }

    /// The action a menu entry's identifier stands for; an identifier that
    /// names none stands for `Noop`.
    pub open spec fn decoded(id: Seq<char>) -> Action {
        if id == "KillTarget"@ {
            Action::KillTarget
        } else if id == "Quit"@ {
            Action::Quit
        } else {
            Action::Noop
        }
    }

    /// The action's name, which is also the identifier of its menu entry.
    pub fn label(&self) -> (r: &'static str)
        ensures
            r@ == self.label_of(),
            Action::decoded(r@) == *self,
    {
        proof {
            reveal_strlit("KillTarget");
            reveal_strlit("Quit");
            reveal_strlit("No-op");
            assert("Quit"@.len() != "KillTarget"@.len());
            assert("No-op"@.len() != "KillTarget"@.len());
            assert("No-op"@.len() != "Quit"@.len());
        }
        match self {
            Action::KillTarget => "KillTarget",
            Action::Quit => "Quit",
            Action::Noop => "No-op",
        }
    }

    /// The action that the menu entry identified by `id` stands for.
    pub fn from_menu_id(id: &str) -> (r: Action)
        ensures
            r == Action::decoded(id@),
    {
        if same_text(id, "KillTarget") {
            Action::KillTarget
        } else if same_text(id, "Quit") {
            Action::Quit
        } else {
            Action::Noop
        }
    }
}

/// Where the dispatcher stands.
#[derive(PartialEq, Eq, Structural, Clone, Copy, Debug)]
pub enum Phase {
    /// Waiting for the next action.
    Idle,
    /// A kill request waits for its snapshot.
    Capturing,
    /// A kill request is terminating processes.
    Processing,
    /// Quit was received; nothing more is accepted.
    Terminated,
}

/// What the caller is to do next.
#[derive(Debug, Clone, PartialEq, Eq)]
pub enum Command {
    /// Capture the live processes and hand them to `snapshot_taken`.
    CaptureSnapshot,
    /// Signal the process to terminate and hand the result to `step_done`.
    Kill(u32),
    /// Wait for the process to exit and hand the result to `step_done`.
    AwaitExit(u32),
    /// Show the notification; the dispatcher is ready for the next action.
    Notify(Notice),
    /// The action was refused: a kill request is still being carried out.
    Busy,
    /// Release the tray and stop the loop.
    Shutdown,
}

/// `c` shows the notification titled `text.0` with body `text.1`.
pub open spec fn notifies(c: Command, text: (Seq<char>, Seq<char>)) -> bool {
    c matches Command::Notify(n) && n.title@ == text.0 && n.body@ == text.1
}

/// `c` asks the caller for the step `a`.
pub open spec fn asks(c: Command, a: TermAction) -> bool {
    match a {
        TermAction::Kill(pid) => c == Command::Kill(pid),
        TermAction::AwaitExit(pid) => c == Command::AwaitExit(pid),
        TermAction::Finished => false,
    }
}

/// What the error notice says of an action that could not be decoded.
pub open spec fn malformed_text() -> Seq<char> {
    "unrecognized tray action"@
}

/// The notification that reports outcome `o` for the application named
/// `target`.
pub open spec fn outcome_notice(target: Seq<char>, o: OutcomeView) -> (Seq<char>, Seq<char>) {
    match o {
        OutcomeView::NotFound => (target + " Not Found"@, "No "@ + target + " processes found"@),
        OutcomeView::Terminated { killed_count } => (
            target + " Killed"@,
            decimal(killed_count) + " total processes"@,
        ),
        OutcomeView::PartialChildFailure { killed_count, failed } => (
            target + " Killed"@,
            decimal(killed_count) + " total processes; could not terminate "@ + pid_list(failed),
        ),
        OutcomeView::RootTerminationFailed { pid } => (
            error_title(),
            error_body("could not terminate "@ + target + " process "@ + decimal(pid as nat)),
        ),
    }
}

/// The notification that reports `o` for the application named `target`.
pub fn notice_for(target: &str, o: &TerminationOutcome) -> (r: Notice)
    ensures
        (r.title@, r.body@) == outcome_notice(target@, o@),
{
    match o {
        TerminationOutcome::NotFound => {
            let mut title = String::from_str(target);
            title.append(" Not Found");
            let mut body = String::from_str("No ");
            body.append(target);
            body.append(" processes found");
            show_simple_notification(title.as_str(), body.as_str())
        },
        TerminationOutcome::Terminated { killed_count } => {
            let mut title = String::from_str(target);
            title.append(" Killed");
            let mut body = String::new();
            push_decimal(&mut body, *killed_count);
            body.append(" total processes");
            proof {
                assert(body@ =~= decimal(*killed_count as nat) + " total processes"@);
            }
            show_simple_notification(title.as_str(), body.as_str())
        },
        TerminationOutcome::PartialChildFailure { killed_count, failed } => {
            let mut title = String::from_str(target);
            title.append(" Killed");
            let mut body = String::new();
            push_decimal(&mut body, *killed_count);
            body.append(" total processes; could not terminate ");
            push_pid_list(&mut body, failed);
            proof {
                assert(body@ =~= decimal(*killed_count as nat) + " total processes; could not terminate "@
                    + pid_list(failed@));
            }
            show_simple_notification(title.as_str(), body.as_str())
        },
        TerminationOutcome::RootTerminationFailed { pid } => {
            let mut text = String::from_str("could not terminate ");
            text.append(target);
            text.append(" process ");
            push_decimal(&mut text, *pid as u64);
            show_error_notification(text.as_str())
        },
    }
}

/// Receives tray actions one at a time and decides what is done for each.
pub struct Dispatcher {
    pattern: NamePattern,
    target: String,
    phase: Phase,
    request: Option<Termination>,
    last: Option<TerminationOutcome>,
}

impl Dispatcher {
    pub closed spec fn phase(&self) -> Phase {
        self.phase
    }

    /// Which process names belong to the target application.
    pub closed spec fn pattern(&self) -> NamePattern {
        self.pattern
    }

    /// The target application's display name.
    pub closed spec fn target(&self) -> Seq<char> {
        self.target@
    }

    /// The kill request in progress, while `Processing`.
    pub closed spec fn request(&self) -> TermState {
        self.request->Some_0@
    }

    /// The outcome of the last kill request that ran to its end.
    pub closed spec fn last_outcome_view(&self) -> Option<OutcomeView> {
        match self.last {
            Some(o) => Some(o@),
            None => None,
        }
    }

    pub closed spec fn wf(&self) -> bool {
        &&& (self.phase == Phase::Processing) == (self.request is Some)
        &&& self.phase == Phase::Processing ==> !finished(self.request())
    }

    /// An idle dispatcher for the application called `target`, whose
    /// processes `pattern` recognises.
    pub fn new(pattern: NamePattern, target: &str) -> (d: Dispatcher)
        ensures
            d.wf(),
            d.phase() == Phase::Idle,
            d.pattern() == pattern,
            d.target() == target@,
            d.last_outcome_view() is None,
    {
        Dispatcher {
            pattern,
            target: String::from_str(target),
            phase: Phase::Idle,
            request: None,
            last: None,
        }
    }

    pub fn current_phase(&self) -> (r: Phase)
        ensures
            r == self.phase(),
    {
        self.phase
    }

    /// The outcome of the last kill request that ran to its end.
    pub fn last_outcome(&self) -> (r: Option<&TerminationOutcome>)
        ensures
            r is Some <==> self.last_outcome_view() is Some,
            r matches Some(o) ==> self.last_outcome_view() == Some(o@),
    {
        match &self.last {
            Some(o) => Some(o),
            None => None,
        }
    }

    /// Takes the next action. Only an idle dispatcher accepts one: while a
    /// kill request is under way every action is refused and nothing
    /// changes, and after `Quit` the answer is always to shut down.
    pub fn handle_action(&mut self, action: Action) -> (c: Command)
        requires
            old(self).wf(),
        ensures
            final(self).wf(),
            final(self).pattern() == old(self).pattern(),
            final(self).target() == old(self).target(),
            final(self).last_outcome_view() == old(self).last_outcome_view(),
            old(self).phase() == Phase::Idle ==> match action {
                Action::KillTarget => final(self).phase() == Phase::Capturing && c
                    == Command::CaptureSnapshot,
                Action::Quit => final(self).phase() == Phase::Terminated && c == Command::Shutdown,
                Action::Noop => final(self).phase() == Phase::Idle && notifies(
                    c,
                    (error_title(), error_body(malformed_text())),
                ),
            },
            old(self).phase() == Phase::Capturing || old(self).phase() == Phase::Processing ==> (
            *final(self) == *old(self) && c == Command::Busy),
            old(self).phase() == Phase::Terminated ==> (*final(self) == *old(self) && c
                == Command::Shutdown),
    {
        match self.phase {
            Phase::Idle => match action {
                Action::KillTarget => {
                    self.phase = Phase::Capturing;
                    Command::CaptureSnapshot
                },
                Action::Quit => {
                    self.phase = Phase::Terminated;
                    Command::Shutdown
                },
                Action::Noop => Command::Notify(show_error_notification("unrecognized tray action")),
            },
            Phase::Terminated => Command::Shutdown,
            _ => Command::Busy,
        }
    }

    /// Takes the snapshot captured for the pending kill request. With no
    /// matching process the request ends at once as not found, and nothing
    /// is signalled; otherwise termination starts with the root.
    pub fn snapshot_taken(&mut self, snapshot: &ProcessSnapshot) -> (c: Command)
        requires
            old(self).wf(),
            old(self).phase() == Phase::Capturing,
        ensures
            final(self).wf(),
            final(self).pattern() == old(self).pattern(),
            final(self).target() == old(self).target(),
            ({
                let ms = matches_of(snapshot@, old(self).pattern());
                &&& ms.len() == 0 ==> {
                    &&& final(self).phase() == Phase::Idle
                    &&& final(self).last_outcome_view() == Some(OutcomeView::NotFound)
                    &&& final(self).last_outcome_view()->Some_0.killed() == 0
                    &&& notifies(c, outcome_notice(old(self).target(), OutcomeView::NotFound))
                }
                &&& ms.len() > 0 ==> {
                    &&& final(self).phase() == Phase::Processing
                    &&& final(self).request() == initial(snapshot@, ms)
                    &&& final(self).last_outcome_view() == old(self).last_outcome_view()
                    &&& asks(c, action_of(initial(snapshot@, ms)))
                }
            }),
    {
        let matches = find_matches(snapshot, &self.pattern);
        if matches.len() == 0 {
            let outcome = TerminationOutcome::NotFound;
            let notice = notice_for(self.target.as_str(), &outcome);
            self.last = Some(outcome);
            self.phase = Phase::Idle;
            Command::Notify(notice)
        } else {
            let request = Termination::start(snapshot, &matches);
            let action = request.next_action();
            self.request = Some(request);
            self.phase = Phase::Processing;
            match action {
                TermAction::Kill(pid) => Command::Kill(pid),
                TermAction::AwaitExit(pid) => Command::AwaitExit(pid),
                TermAction::Finished => Command::Busy,
            }
        }
    }

    /// The snapshot could not be captured: the request ends with an error
    /// notice and the dispatcher is ready for the next action.
    pub fn snapshot_failed(&mut self, reason: &str) -> (c: Command)
        requires
            old(self).wf(),
            old(self).phase() == Phase::Capturing,
        ensures
            final(self).wf(),
            final(self).pattern() == old(self).pattern(),
            final(self).target() == old(self).target(),
            final(self).last_outcome_view() == old(self).last_outcome_view(),
            final(self).phase() == Phase::Idle,
            notifies(c, (error_title(), error_body(reason@))),
    {
        self.phase = Phase::Idle;
        Command::Notify(show_error_notification(reason))
    }

    /// Takes the result of the step last asked for. When the request is
    /// over, its outcome is kept and notified and the dispatcher is idle
    /// again; otherwise the next step is asked for.
    pub fn step_done(&mut self, ok: bool) -> (c: Command)
        requires
            old(self).wf(),
            old(self).phase() == Phase::Processing,
        ensures
            final(self).wf(),
            final(self).pattern() == old(self).pattern(),
            final(self).target() == old(self).target(),
            ({
                let s = fed(old(self).request(), ok);
                &&& finished(s) ==> {
                    &&& final(self).phase() == Phase::Idle
                    &&& final(self).last_outcome_view() == Some(outcome_of(s))
                    &&& notifies(c, outcome_notice(old(self).target(), outcome_of(s)))
                }
                &&& !finished(s) ==> {
                    &&& final(self).phase() == Phase::Processing
                    &&& final(self).request() == s
                    &&& final(self).last_outcome_view() == old(self).last_outcome_view()
                    &&& asks(c, action_of(s))
                }
            }),
    {
        let mut request = self.request.take().unwrap();
        request.report(ok);
        if request.is_finished() {
            let outcome = request.outcome();
            let notice = notice_for(self.target.as_str(), &outcome);
            self.last = Some(outcome);
            self.phase = Phase::Idle;
            Command::Notify(notice)
        } else {
            let action = request.next_action();
            self.request = Some(request);
            match action {
                TermAction::Kill(pid) => Command::Kill(pid),
                TermAction::AwaitExit(pid) => Command::AwaitExit(pid),
                TermAction::Finished => Command::Busy,
            }
        }
    }
}

} // verus!
