use vstd::prelude::*;
use crate::tunnel::{tr, Language};

verus! {

/// How many times the old engine process is looked for after `stop`.
pub const OLD_PROCESS_CHECKS: u8 = 20;

/// The pause between two looks for the old process.
pub const OLD_PROCESS_WAIT_MS: u64 = 300;

/// The pause after the old process is gone, for its socket to be recycled.
pub const SETTLE_MS: u64 = 600;

/// How many times `serve` is launched before the scheduled task is tried.
pub const SPAWN_ATTEMPTS: u8 = 3;

/// How many probes follow each launch.
pub const POLLS_PER_ATTEMPT: u8 = 10;

/// How many probes follow the scheduled task.
pub const KICK_POLLS: u8 = 6;

/// The pause before each probe: the listener takes a second or more to open.
pub const POLL_MS: u64 = 400;

/// After the failed attempt `n`, the next one waits `n` times this.
pub const RETRY_MS_PER_ATTEMPT: u64 = 3000;

/// Where the start of the engine stands.
#[derive(PartialEq, Eq, Structural, Clone, Copy, Debug)]
pub enum DaemonState {
    /// The endpoint is being probed before anything is touched.
    Checking,
    /// `stop` was run; the old process was looked for `checks` times.
    StoppingOld { checks: u8 },
    /// `serve` is being launched, for the `attempt`-th time.
    Launching { attempt: u8 },
    /// Launched on `attempt`; `polls` probes have not seen the endpoint.
    Polling { attempt: u8, polls: u8 },
    /// The scheduled task was run; `polls` probes have not seen the endpoint.
    Kicking { polls: u8 },
    /// The endpoint answers.
    Running,
    /// Nothing brought the endpoint up.
    Failed,
}

/// What the host saw after the last action.
#[derive(PartialEq, Eq, Structural, Clone, Copy, Debug)]
pub enum DaemonEvent {
    /// A probe of the endpoint: whether the loopback or the LAN probe answered.
    Probed { active: bool },
    /// Whether the old engine process is still listed.
    OldProcess { alive: bool },
    /// Whether the `serve` process could be launched.
    Spawned { ok: bool },
}

/// What the host does next.
#[derive(PartialEq, Eq, Structural, Clone, Copy, Debug)]
pub enum DaemonAction {
    /// The engine already answered: nothing is stopped or launched.
    LeaveRunning,
    /// Run `stop`, then look for the old process.
    StopOld,
    /// Wait, then look for the old process again.
    WaitOld { ms: u64 },
    /// Wait, then launch `serve` (attempt number `attempt`).
    Spawn { attempt: u8, after_ms: u64 },
    /// Wait, then probe the endpoint.
    Probe { after_ms: u64 },
    /// Run `stop`, wait, then launch `serve` again (attempt number `attempt`).
    StopAndRespawn { attempt: u8, after_ms: u64 },
    /// Run the scheduled task, wait, then probe the endpoint.
    Kick { probe_after_ms: u64 },
    /// The engine answers after the start.
    Up,
    /// The engine could not be brought up.
    GiveUp,
}

impl DaemonAction {
    /// The status message the action shows, if any: only leaving a running
    /// engine alone has one.
    pub open spec fn shown(self, lang: Language) -> Option<Seq<char>> {
        match (self, lang) {
            (DaemonAction::LeaveRunning, Language::PtBr) => Some("O motor ja esta em execucao — endpoint respondendo."@),
            (DaemonAction::LeaveRunning, Language::English) => Some("The engine is already running — endpoint responding."@),
            _ => None,
        }
    }

    /// The status message the action shows, if any.
    pub fn message(self, lang: Language) -> (r: Option<&'static str>)
        ensures
            match r {
                Some(m) => self.shown(lang) == Some(m@),
                None => self.shown(lang) is None,
            },
    {
        match self {
            DaemonAction::LeaveRunning => Some(
                tr(
                    lang,
                    "O motor ja esta em execucao — endpoint respondendo.",
                    "The engine is already running — endpoint responding.",
                ),
            ),
            _ => None,
        }
    }
}

/// The next state and action of the start, for each state and event.
pub open spec fn daemon_step_spec(s: DaemonState, e: DaemonEvent) -> (DaemonState, DaemonAction) {
    match (s, e) {
        (DaemonState::Checking, DaemonEvent::Probed { active }) => if active {
            (DaemonState::Running, DaemonAction::LeaveRunning)
        } else {
            (DaemonState::StoppingOld { checks: 0 }, DaemonAction::StopOld)
        },
        (DaemonState::StoppingOld { checks }, DaemonEvent::OldProcess { alive }) => if !alive {
            (DaemonState::Launching { attempt: 1 }, DaemonAction::Spawn { attempt: 1, after_ms: SETTLE_MS })
        } else if checks + 1 < OLD_PROCESS_CHECKS {
            (
                DaemonState::StoppingOld { checks: (checks + 1) as u8 },
                DaemonAction::WaitOld { ms: OLD_PROCESS_WAIT_MS },
            )
        } else {
            (
                DaemonState::Launching { attempt: 1 },
                DaemonAction::Spawn { attempt: 1, after_ms: (OLD_PROCESS_WAIT_MS + SETTLE_MS) as u64 },
            )
        },
        (DaemonState::Launching { attempt }, DaemonEvent::Spawned { ok }) => if ok {
            (DaemonState::Polling { attempt, polls: 0 }, DaemonAction::Probe { after_ms: POLL_MS })
        } else {
            (DaemonState::Kicking { polls: 0 }, DaemonAction::Kick { probe_after_ms: POLL_MS })
        },
        (DaemonState::Polling { attempt, polls }, DaemonEvent::Probed { active }) => if active {
            (DaemonState::Running, DaemonAction::Up)
        } else if polls + 1 < POLLS_PER_ATTEMPT {
            (DaemonState::Polling { attempt, polls: (polls + 1) as u8 }, DaemonAction::Probe { after_ms: POLL_MS })
        } else if attempt < SPAWN_ATTEMPTS {
            (
                DaemonState::Launching { attempt: (attempt + 1) as u8 },
                DaemonAction::StopAndRespawn {
                    attempt: (attempt + 1) as u8,
                    after_ms: (attempt * RETRY_MS_PER_ATTEMPT) as u64,
                },
            )
        } else {
            (DaemonState::Kicking { polls: 0 }, DaemonAction::Kick { probe_after_ms: POLL_MS })
        },
        (DaemonState::Kicking { polls }, DaemonEvent::Probed { active }) => if active {
            (DaemonState::Running, DaemonAction::Up)
        } else if polls + 1 < KICK_POLLS {
            (DaemonState::Kicking { polls: (polls + 1) as u8 }, DaemonAction::Probe { after_ms: POLL_MS })
        } else {
            (DaemonState::Failed, DaemonAction::GiveUp)
        },
        (DaemonState::Running, _) => (DaemonState::Running, DaemonAction::Up),
        (DaemonState::Failed, _) => (DaemonState::Failed, DaemonAction::GiveUp),
        (_, _) => (DaemonState::Failed, DaemonAction::GiveUp),
    }
}

/// The state the start begins in: probe first.
pub fn daemon_start() -> (r: DaemonState)
    ensures
        r == DaemonState::Checking,
{
    DaemonState::Checking
}

/// One step of the start: from the state and what the host saw, the next
/// state and what the host does.
pub fn daemon_step(s: DaemonState, e: DaemonEvent) -> (r: (DaemonState, DaemonAction))
    ensures
        r == daemon_step_spec(s, e),
{
    match (s, e) {
        (DaemonState::Checking, DaemonEvent::Probed { active }) => if active {
            (DaemonState::Running, DaemonAction::LeaveRunning)
        } else {
            (DaemonState::StoppingOld { checks: 0 }, DaemonAction::StopOld)
        },
        (DaemonState::StoppingOld { checks }, DaemonEvent::OldProcess { alive }) => if !alive {
            (DaemonState::Launching { attempt: 1 }, DaemonAction::Spawn { attempt: 1, after_ms: SETTLE_MS })
        } else if checks < OLD_PROCESS_CHECKS - 1 {
            (DaemonState::StoppingOld { checks: checks + 1 }, DaemonAction::WaitOld { ms: OLD_PROCESS_WAIT_MS })
        } else {
            (
                DaemonState::Launching { attempt: 1 },
                DaemonAction::Spawn { attempt: 1, after_ms: OLD_PROCESS_WAIT_MS + SETTLE_MS },
            )
        },
        (DaemonState::Launching { attempt }, DaemonEvent::Spawned { ok }) => if ok {
            (DaemonState::Polling { attempt, polls: 0 }, DaemonAction::Probe { after_ms: POLL_MS })
        } else {
            (DaemonState::Kicking { polls: 0 }, DaemonAction::Kick { probe_after_ms: POLL_MS })
        },
        (DaemonState::Polling { attempt, polls }, DaemonEvent::Probed { active }) => if active {
            (DaemonState::Running, DaemonAction::Up)
        } else if polls < POLLS_PER_ATTEMPT - 1 {
            (DaemonState::Polling { attempt, polls: polls + 1 }, DaemonAction::Probe { after_ms: POLL_MS })
        } else if attempt < SPAWN_ATTEMPTS {
            (
                DaemonState::Launching { attempt: attempt + 1 },
                DaemonAction::StopAndRespawn { attempt: attempt + 1, after_ms: attempt as u64 * RETRY_MS_PER_ATTEMPT },
            )
        } else {
            (DaemonState::Kicking { polls: 0 }, DaemonAction::Kick { probe_after_ms: POLL_MS })
        },
        (DaemonState::Kicking { polls }, DaemonEvent::Probed { active }) => if active {
            (DaemonState::Running, DaemonAction::Up)
        } else if polls < KICK_POLLS - 1 {
            (DaemonState::Kicking { polls: polls + 1 }, DaemonAction::Probe { after_ms: POLL_MS })
        } else {
            (DaemonState::Failed, DaemonAction::GiveUp)
        },
        (DaemonState::Running, _) => (DaemonState::Running, DaemonAction::Up),
        (DaemonState::Failed, _) => (DaemonState::Failed, DaemonAction::GiveUp),
        (_, _) => (DaemonState::Failed, DaemonAction::GiveUp),
    }
}

/// The counters of a state stay within their limits: an attempt is one of
/// the three, and the probe and look counts stay below theirs.
pub open spec fn daemon_state_ok(s: DaemonState) -> bool {
    match s {
        DaemonState::StoppingOld { checks } => checks < OLD_PROCESS_CHECKS,
        DaemonState::Launching { attempt } => 1 <= attempt <= SPAWN_ATTEMPTS,
        DaemonState::Polling { attempt, polls } => 1 <= attempt <= SPAWN_ATTEMPTS && polls < POLLS_PER_ATTEMPT,
        DaemonState::Kicking { polls } => polls < KICK_POLLS,
        _ => true,
    }
}

/// An action that stops, launches or replaces an engine process.
pub open spec fn touches_engine(a: DaemonAction) -> bool {
    match a {
        DaemonAction::StopOld => true,
        DaemonAction::Spawn { .. } => true,
        DaemonAction::StopAndRespawn { .. } => true,
        DaemonAction::Kick { .. } => true,
        _ => false,
    }
}

/// The actions that a run of events gives from a state, in order.
pub open spec fn daemon_actions(s: DaemonState, events: Seq<DaemonEvent>) -> Seq<DaemonAction>
    decreases events.len(),
{
    if events.len() == 0 {
        Seq::empty()
    } else {
        let (next, a) = daemon_step_spec(s, events[0]);
        seq![a] + daemon_actions(next, events.drop_first())
    }
}

proof fn lemma_running_touches_nothing(events: Seq<DaemonEvent>)
    ensures
        forall|i: int|
            0 <= i < daemon_actions(DaemonState::Running, events).len() ==> daemon_actions(
                DaemonState::Running,
                events,
            )[i] == DaemonAction::Up,
        daemon_actions(DaemonState::Running, events).len() == events.len(),
    decreases events.len(),
{
    if events.len() > 0 {
        lemma_running_touches_nothing(events.drop_first());
        let rest = daemon_actions(DaemonState::Running, events.drop_first());
        assert(daemon_actions(DaemonState::Running, events) == seq![DaemonAction::Up] + rest);
    }
}

/// Start never takes down an engine that already answers: when the first
/// probe sees the endpoint, the answer is to leave it running, and whatever
/// the host reports afterwards, no stop, launch or scheduled task follows.
pub proof fn start_leaves_answering_engine(events: Seq<DaemonEvent>)
    ensures
        daemon_step_spec(DaemonState::Checking, DaemonEvent::Probed { active: true }) == (
            DaemonState::Running,
            DaemonAction::LeaveRunning,
        ),
        forall|i: int|
            0 <= i < daemon_actions(DaemonState::Running, events).len() ==> !touches_engine(
                #[trigger] daemon_actions(DaemonState::Running, events)[i],
            ),
{
    lemma_running_touches_nothing(events);
}

/// The engine is stopped only after a probe found it silent: the first step
/// touches an engine process exactly when the probe did not see it answer.
pub proof fn stop_only_after_silent_probe(e: DaemonEvent)
    ensures
        touches_engine(daemon_step_spec(DaemonState::Checking, e).1) ==> e == (DaemonEvent::Probed {
            active: false,
        }),
{
}

/// Every step keeps the counters within their limits, and no launch is
/// ever numbered beyond the third.
pub proof fn launches_stay_within_three(s: DaemonState, e: DaemonEvent)
    requires
        daemon_state_ok(s),
    ensures
        daemon_state_ok(daemon_step_spec(s, e).0),
        daemon_step_spec(s, e).1 matches DaemonAction::Spawn { attempt, .. } ==> 1 <= attempt <= SPAWN_ATTEMPTS,
        daemon_step_spec(s, e).1 matches DaemonAction::StopAndRespawn { attempt, .. } ==> 2 <= attempt
            <= SPAWN_ATTEMPTS,
{
}

} // verus!
