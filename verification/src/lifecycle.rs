//! The life cycle of the running system and the record of its transitions.
use vstd::prelude::*;
use crate::clock::{unix_time_nanos, unix_time_secs};
use crate::node::Config;

verus! {

/// A stage of the system's life.
#[derive(Debug, Clone, Copy, PartialEq, Eq, Structural)]
pub enum LifecycleState {
    Uninitialized,
    Initializing,
    Starting,
    Running,
    Stopping,
    Stopped,
    Error,
}

/// One entry of the record: the state entered or held, when, why, and which component
/// reported it, if one did.
#[derive(Debug, Clone)]
pub struct LifecycleEvent {
    pub state: LifecycleState,
    pub timestamp: u64,
    pub message: String,
    pub component: Option<String>,
}

/// How many entries the record keeps; the oldest go first.
pub const MAX_HISTORY: usize = 50;

/// The record after `e` is added to `h`: the oldest entry goes where more than
/// `MAX_HISTORY` would remain.
pub open spec fn history_after(h: Seq<LifecycleEvent>, e: LifecycleEvent) -> Seq<LifecycleEvent> {
    if h.len() + 1 > MAX_HISTORY {
        h.push(e).drop_first()
    } else {
        h.push(e)
    }
}

/// That `e` records `state`, `message` and `component`, at some time.
pub open spec fn records(
    e: LifecycleEvent,
    state: LifecycleState,
    message: Seq<char>,
    component: Option<Seq<char>>,
) -> bool {
    &&& e.state == state
    &&& e.message@ == message
    &&& match (e.component, component) {
        (Some(c), Some(d)) => c@ == d,
        (None, None) => true,
        _ => false,
    }
}

/// The life cycle of the system: its state, a bounded record of transitions and when it came
/// up.
pub struct LifecycleManager {
    config: Config,
    current_state: LifecycleState,
    event_history: Vec<LifecycleEvent>,
    start_time: Option<u128>,
}

impl LifecycleManager {
    /// The current state.
    pub closed spec fn spec_state(&self) -> LifecycleState {
        self.current_state
    }

    /// The record of transitions, oldest first.
    pub closed spec fn spec_history(&self) -> Seq<LifecycleEvent> {
        self.event_history@
    }

    /// When the system came up, in nanoseconds since the Unix epoch.
    pub closed spec fn spec_start_time(&self) -> Option<u128> {
        self.start_time
    }

    /// The settings the system runs with.
    pub closed spec fn spec_config(&self) -> Config {
        self.config
    }

    /// The record holds at most `MAX_HISTORY` entries, and the current state is that of its
    /// newest entry, or `Uninitialized` while it is empty.
    pub open spec fn wf(&self) -> bool {
        &&& self.spec_history().len() <= MAX_HISTORY
        &&& self.spec_history().len() == 0 ==> self.spec_state() == LifecycleState::Uninitialized
        &&& self.spec_history().len() > 0 ==> self.spec_state() == self.spec_history().last().state
    }

    /// That only the state and the record may have changed.
    pub open spec fn keeps_setup(&self, other: &Self) -> bool {
        &&& self.spec_start_time() == other.spec_start_time()
        &&& self.spec_config() == other.spec_config()
    }

    /// A system not yet initialized, with an empty record.
    pub fn new(config: Config) -> (res: Self)
        ensures
            res.wf(),
            res.spec_state() == LifecycleState::Uninitialized,
            res.spec_history().len() == 0,
            res.spec_start_time() is None,
            res.spec_config() == config,
    {
        LifecycleManager {
            config,
            current_state: LifecycleState::Uninitialized,
            event_history: Vec::new(),
            start_time: None,
        }
    }

    /// Adds `e` to the record, dropping the oldest entry where the record would grow beyond
    /// `MAX_HISTORY`.
    fn push_event(&mut self, e: LifecycleEvent)
        requires
            old(self).spec_history().len() <= MAX_HISTORY,
        ensures
            final(self).spec_history().len() <= MAX_HISTORY,
            final(self).spec_history().len() > 0 && final(self).spec_history().last() == e,
            final(self).spec_history() == history_after(old(self).spec_history(), e),
            final(self).spec_state() == old(self).spec_state(),
            final(self).keeps_setup(old(self)),
    {
        let ghost h = self.event_history@;
        proof {
            lemma_history_bounded(h, e);
        }
        self.event_history.push(e);
        if self.event_history.len() > MAX_HISTORY {
            self.event_history.remove(0);
            assert(self.event_history@ =~= h.push(e).drop_first());
        }
    }

    /// Enters `new_state` at `timestamp`, recording `message`.
    pub fn transition_at(&mut self, new_state: LifecycleState, message: String, timestamp: u64)
        requires
            old(self).wf(),
        ensures
            final(self).wf(),
            final(self).spec_state() == new_state,
            final(self).spec_history() == history_after(
                old(self).spec_history(),
                LifecycleEvent { state: new_state, timestamp, message, component: None },
            ),
            final(self).keeps_setup(old(self)),
    {
        let event = LifecycleEvent { state: new_state, timestamp, message, component: None };
        self.push_event(event);
        self.current_state = new_state;
    }

    /// Enters `new_state` now, recording `message`.
    fn transition_to(&mut self, new_state: LifecycleState, message: String)
        requires
            old(self).wf(),
        ensures
            final(self).wf(),
            final(self).spec_state() == new_state,
            exists|e: LifecycleEvent|
                #![trigger history_after(old(self).spec_history(), e)]
                records(e, new_state, message@, None) && final(self).spec_history()
                    == history_after(old(self).spec_history(), e),
            final(self).keeps_setup(old(self)),
    {
        let timestamp = unix_time_secs();
        let ghost e = LifecycleEvent { state: new_state, timestamp, message, component: None };
        self.transition_at(new_state, message, timestamp);
        assert(records(e, new_state, e.message@, None));
    }

    /// The first half of initialization: the system enters `Initializing`.
    pub fn begin_initialize(&mut self)
        requires
            old(self).wf(),
        ensures
            final(self).wf(),
            final(self).spec_state() == LifecycleState::Initializing,
            exists|e: LifecycleEvent|
                #![trigger history_after(old(self).spec_history(), e)]
                records(e, LifecycleState::Initializing, "System initialization started"@, None)
                    && final(self).spec_history() == history_after(old(self).spec_history(), e),
            final(self).keeps_setup(old(self)),
    {
        self.transition_to(LifecycleState::Initializing, "System initialization started".to_string());
    }

    /// The second half of initialization: the system is `Running` and notes when it came up.
    pub fn complete_initialize(&mut self)
        requires
            old(self).wf(),
        ensures
            final(self).wf(),
            final(self).spec_state() == LifecycleState::Running,
            exists|e: LifecycleEvent|
                #![trigger history_after(old(self).spec_history(), e)]
                records(e, LifecycleState::Running, "System initialized successfully"@, None)
                    && final(self).spec_history() == history_after(old(self).spec_history(), e),
            final(self).spec_start_time() is Some,
            final(self).spec_config() == old(self).spec_config(),
    {
        self.transition_to(LifecycleState::Running, "System initialized successfully".to_string());
        self.start_time = Some(unix_time_nanos());
    }

    /// The first half of a start: allowed only while `Running`; the system enters `Starting`.
    pub fn begin_start(&mut self) -> (res: Result<(), String>)
        requires
            old(self).wf(),
        ensures
            final(self).wf(),
            final(self).keeps_setup(old(self)),
            old(self).spec_state() != LifecycleState::Running ==> (res matches Err(m) && m@
                == "System must be initialized before starting"@ && final(self).spec_state()
                == old(self).spec_state() && final(self).spec_history() == old(self).spec_history()),
            old(self).spec_state() == LifecycleState::Running ==> (res is Ok && final(self).spec_state()
                == LifecycleState::Starting && exists|e: LifecycleEvent|
                #![trigger history_after(old(self).spec_history(), e)]
                records(e, LifecycleState::Starting, "System startup initiated"@, None)
                    && final(self).spec_history() == history_after(old(self).spec_history(), e)),
    {
        if self.current_state != LifecycleState::Running {
            return Err("System must be initialized before starting".to_string());
        }
        self.transition_to(LifecycleState::Starting, "System startup initiated".to_string());
        Ok(())
    }

    /// The second half of a start: the system is `Running`.
    pub fn complete_start(&mut self)
        requires
            old(self).wf(),
        ensures
            final(self).wf(),
            final(self).keeps_setup(old(self)),
            final(self).spec_state() == LifecycleState::Running,
            exists|e: LifecycleEvent|
                #![trigger history_after(old(self).spec_history(), e)]
                records(e, LifecycleState::Running, "System fully operational"@, None)
                    && final(self).spec_history() == history_after(old(self).spec_history(), e),
    {
        self.transition_to(LifecycleState::Running, "System fully operational".to_string());
    }

    /// The first half of a stop: the system enters `Stopping`.
    pub fn begin_stop(&mut self)
        requires
            old(self).wf(),
        ensures
            final(self).wf(),
            final(self).keeps_setup(old(self)),
            final(self).spec_state() == LifecycleState::Stopping,
            exists|e: LifecycleEvent|
                #![trigger history_after(old(self).spec_history(), e)]
                records(e, LifecycleState::Stopping, "System shutdown initiated"@, None)
                    && final(self).spec_history() == history_after(old(self).spec_history(), e),
    {
        self.transition_to(LifecycleState::Stopping, "System shutdown initiated".to_string());
    }

    /// The second half of a stop: the system is `Stopped`.
    pub fn complete_stop(&mut self)
        requires
            old(self).wf(),
        ensures
            final(self).wf(),
            final(self).keeps_setup(old(self)),
            final(self).spec_state() == LifecycleState::Stopped,
            exists|e: LifecycleEvent|
                #![trigger history_after(old(self).spec_history(), e)]
                records(e, LifecycleState::Stopped, "System stopped successfully"@, None)
                    && final(self).spec_history() == history_after(old(self).spec_history(), e),
    {
        self.transition_to(LifecycleState::Stopped, "System stopped successfully".to_string());
    }

    /// Enters `Error` at once, recording the reason.
    pub fn emergency_stop(&mut self, reason: String) -> (res: Result<(), String>)
        requires
            old(self).wf(),
        ensures
            res is Ok,
            final(self).wf(),
            final(self).keeps_setup(old(self)),
            final(self).spec_state() == LifecycleState::Error,
            exists|e: LifecycleEvent|
                #![trigger history_after(old(self).spec_history(), e)]
                records(e, LifecycleState::Error, "Emergency stop: "@ + reason@, None)
                    && final(self).spec_history() == history_after(old(self).spec_history(), e),
    {
        let mut message = "Emergency stop: ".to_string();
        message.append(reason.as_str());
        self.transition_to(LifecycleState::Error, message);
        Ok(())
    }

    /// Records an entry of `component` at `timestamp`, in the current state.
    pub fn record_component_event_at(&mut self, component: String, message: String, timestamp: u64)
        requires
            old(self).wf(),
        ensures
            final(self).wf(),
            final(self).keeps_setup(old(self)),
            final(self).spec_state() == old(self).spec_state(),
            final(self).spec_history() == history_after(
                old(self).spec_history(),
                LifecycleEvent {
                    state: old(self).spec_state(),
                    timestamp,
                    message,
                    component: Some(component),
                },
            ),
    {
        let event = LifecycleEvent {
            state: self.current_state,
            timestamp,
            message,
            component: Some(component),
        };
        self.push_event(event);
    }

    /// Records an entry of `component` now, in the current state.
    pub fn record_component_event(&mut self, component: String, message: String) -> (res: Result<(), String>)
        requires
            old(self).wf(),
        ensures
            res is Ok,
            final(self).wf(),
            final(self).keeps_setup(old(self)),
            final(self).spec_state() == old(self).spec_state(),
            exists|e: LifecycleEvent|
                #![trigger history_after(old(self).spec_history(), e)]
                records(e, old(self).spec_state(), message@, Some(component@))
                    && final(self).spec_history() == history_after(old(self).spec_history(), e),
    {
        let timestamp = unix_time_secs();
        let ghost e = LifecycleEvent {
            state: self.current_state,
            timestamp,
            message,
            component: Some(component),
        };
        self.record_component_event_at(component, message, timestamp);
        assert(records(e, e.state, e.message@, Some(component@)));
        Ok(())
    }

    /// The current state.
    pub fn get_current_state(&self) -> (res: LifecycleState)
        ensures
            res == self.spec_state(),
    {
        self.current_state
    }

    /// The record of transitions, oldest first.
    pub fn get_event_history(&self) -> (res: &Vec<LifecycleEvent>)
        ensures
            res@ == self.spec_history(),
    {
        &self.event_history
    }

    /// How long the system has been up at `now`, in nanoseconds since the Unix epoch: none
    /// before it came up, or where `now` precedes the moment it came up.
    pub fn uptime_at(&self, now: u128) -> (res: Option<u128>)
        ensures
            res == self.uptime_at_spec(now),
    {
        match self.start_time {
            Some(s) => if now >= s { Some(now - s) } else { None },
            None => None,
        }
    }

    /// How long the system has been up, in nanoseconds by the machine's clock; none before it
    /// came up or where the clock now reads earlier than it did then.
    pub fn get_uptime(&self) -> (res: Option<u128>)
        ensures
            self.spec_start_time() is None ==> res is None,
            exists|now: u128| #![trigger self.uptime_at_spec(now)] res == self.uptime_at_spec(now),
    {
        let now = unix_time_nanos();
        let res = self.uptime_at(now);
        assert(self.uptime_at_spec(now) == res);
        res
    }

    /// What `uptime_at` gives at `now`.
    pub open spec fn uptime_at_spec(&self, now: u128) -> Option<u128> {
        match self.spec_start_time() {
            Some(s) => if now >= s { Some((now - s) as u128) } else { None },
            None => None,
        }
    }

    /// Whether the system is running.
    pub fn is_running(&self) -> (res: bool)
        ensures
            res == (self.spec_state() == LifecycleState::Running),
    {
        self.current_state == LifecycleState::Running
    }

    /// Whether the system has stopped, normally or on an error.
    pub fn is_stopped(&self) -> (res: bool)
        ensures
            res == (self.spec_state() == LifecycleState::Stopped || self.spec_state()
                == LifecycleState::Error),
    {
        matches!(self.current_state, LifecycleState::Stopped | LifecycleState::Error)
    }

    /// Whether a start may be asked for.
    pub fn can_start(&self) -> (res: bool)
        ensures
            res == (self.spec_state() == LifecycleState::Running || self.spec_state()
                == LifecycleState::Stopped),
    {
        matches!(self.current_state, LifecycleState::Running | LifecycleState::Stopped)
    }

    /// Whether a stop may be asked for.
    pub fn can_stop(&self) -> (res: bool)
        ensures
            res == (self.spec_state() == LifecycleState::Running),
    {
        self.current_state == LifecycleState::Running
    }

    /// The seconds from the last entry of the record to `now`, in seconds since the Unix
    /// epoch; zero while the record is empty. `now` must not precede the last entry.
    pub fn state_duration_at(&self, now: u64) -> (res: u64)
        requires
            self.spec_history().len() > 0 ==> now >= self.spec_history().last().timestamp,
        ensures
            self.spec_history().len() == 0 ==> res == 0,
            self.spec_history().len() > 0 ==> res == now - self.spec_history().last().timestamp,
    {
        let n = self.event_history.len();
        if n > 0 {
            now - self.event_history[n - 1].timestamp
        } else {
            0
        }
    }

    /// The seconds spent since the last entry of the record, by the machine's clock: what
    /// `duration_since_last` gives at the clock's reading.
    pub fn get_state_duration(&self) -> (res: u64)
        ensures
            self.spec_history().len() == 0 ==> res == 0,
            self.spec_history().len() > 0 ==> res <= u64::MAX - self.spec_history().last().timestamp,
            exists|now: u64| #![trigger self.duration_since_last(now)] res == self.duration_since_last(now),
    {
        let now = unix_time_secs();
        let n = self.event_history.len();
        if n > 0 && now < self.event_history[n - 1].timestamp {
            assert(0 == self.duration_since_last(now));
            return 0;
        }
        let res = self.state_duration_at(now);
        assert(res == self.duration_since_last(now));
        res
    }

    /// The seconds from the last entry of the record to `now`; zero while the record is empty
    /// or where `now` precedes that entry.
    pub open spec fn duration_since_last(&self, now: u64) -> u64 {
        if self.spec_history().len() == 0 || now < self.spec_history().last().timestamp {
            0
        } else {
            (now - self.spec_history().last().timestamp) as u64
        }
    }
}

/// The record never holds more than `MAX_HISTORY` entries, and an entry added to it is its
/// newest.
pub proof fn lemma_history_bounded(h: Seq<LifecycleEvent>, e: LifecycleEvent)
    requires
        h.len() <= MAX_HISTORY,
    ensures
        history_after(h, e).len() <= MAX_HISTORY,
        history_after(h, e).last() == e,
        h.len() < MAX_HISTORY ==> history_after(h, e).drop_last() == h,
        h.len() == MAX_HISTORY ==> history_after(h, e).drop_last() == h.drop_first(),
{
    if h.len() == MAX_HISTORY {
        assert(h.push(e).drop_first().drop_last() =~= h.drop_first());
    } else {
        assert(h.push(e).drop_last() =~= h);
    }
}

/// The record after each of `events` is added in turn to an empty one.
pub open spec fn history_of(events: Seq<LifecycleEvent>) -> Seq<LifecycleEvent>
    decreases events.len(),
{
    if events.len() == 0 {
        Seq::empty()
    } else {
        history_after(history_of(events.drop_last()), events.last())
    }
}

/// After any number of entries, the record holds the newest `MAX_HISTORY` of them, or all of
/// them where there are fewer, oldest first.
pub proof fn lemma_history_keeps_newest(events: Seq<LifecycleEvent>)
    ensures
        history_of(events) == events.subrange(
            if events.len() > MAX_HISTORY { events.len() - MAX_HISTORY } else { 0 },
            events.len() as int,
        ),
    decreases events.len(),
{
    if events.len() > 0 {
        let p = events.drop_last();
        lemma_history_keeps_newest(p);
        let n = events.len() as int;
        if p.len() >= MAX_HISTORY {
            assert(p.subrange(p.len() - MAX_HISTORY, p.len() as int).push(events.last()).drop_first()
                =~= events.subrange(n - MAX_HISTORY, n));
        } else {
            assert(p.subrange(0, p.len() as int).push(events.last()) =~= events.subrange(0, n));
        }
    }
}

/// The current state of a well-formed manager is that of the newest entry of its record, or
/// `Uninitialized` while the record is empty.
pub proof fn lemma_state_is_newest(m: LifecycleManager)
    requires
        m.wf(),
    ensures
        m.spec_history().len() == 0 ==> m.spec_state() == LifecycleState::Uninitialized,
        m.spec_history().len() > 0 ==> m.spec_state() == m.spec_history().last().state,
{
}

} // verus!
