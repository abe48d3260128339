//! A time lock for administrative actions: an action is queued with a
//! delay, can be executed by anyone once the delay has passed, and can be
//! cancelled by the administrator until then.

use crate::address::Address;
use vstd::prelude::*;

verus! {

/// Shortest delay of any action: one day, in seconds.
pub const MIN_DELAY: u64 = 86400;

/// Longest delay that is accepted: thirty days, in seconds.
pub const MAX_DELAY: u64 = 2592000;

/// The kinds of action, each with its own shortest delay.
#[derive(Clone, Copy, Debug, PartialEq, Eq, Structural)]
pub enum ActionType {
    AdminChange,
    ParameterChange,
    Upgrade,
    FeeChange,
}

impl ActionType {
    /// The shortest delay of this kind of action, in seconds: two days for
    /// a change of administrator, three for an upgrade, one for a change of
    /// a parameter or of a fee.
    pub open spec fn spec_get_delay(&self) -> u64 {
        match *self {
            ActionType::AdminChange => 172800,
            ActionType::ParameterChange => 86400,
            ActionType::Upgrade => 259200,
            ActionType::FeeChange => 86400,
        }
    }

    /// The shortest delay of this kind of action, in seconds.
    pub fn get_delay(&self) -> (delay: u64)
        ensures
            delay == self.spec_get_delay(),
            MIN_DELAY <= delay <= MAX_DELAY,
    {
        match self {
            ActionType::AdminChange => 172800,
            ActionType::ParameterChange => 86400,
            ActionType::Upgrade => 259200,
            ActionType::FeeChange => 86400,
        }
    }
}

/// An action in the queue.
#[derive(Debug, PartialEq, Eq)]
pub struct QueuedAction {
    pub id: u64,
    pub action_type: ActionType,
    pub target: Address,
    pub data: String,
    pub queued_at: u64,
    pub executable_at: u64,
    pub executed: bool,
    pub cancelled: bool,
}

impl Clone for QueuedAction {
    fn clone(&self) -> (copy: Self)
        ensures
            copy == *self,
    {
        QueuedAction {
            id: self.id,
            action_type: self.action_type,
            target: self.target.clone(),
            data: self.data.clone(),
            queued_at: self.queued_at,
            executable_at: self.executable_at,
            executed: self.executed,
            cancelled: self.cancelled,
        }
    }
}

impl QueuedAction {
    /// Neither executed nor cancelled.
    pub open spec fn pending(&self) -> bool {
        !self.executed && !self.cancelled
    }

    /// Pending, and its delay has passed at `now`.
    pub open spec fn executable(&self, now: u64) -> bool {
        self.pending() && now >= self.executable_at
    }
}

/// Why the time lock refuses a call. A refused call changes nothing.
#[derive(Clone, Copy, Debug, PartialEq, Eq, Structural)]
pub enum Error {
    Unauthorized,
    ActionNotFound,
    ActionAlreadyExecuted,
    ActionCancelled,
    DelayNotMet,
    DelayTooShort,
    DelayTooLong,
    ActionAlreadyCancelled,
    CannotCancelExecutedAction,
    AlreadyInitialized,
    NotInitialized,
    ArithmeticOverflow,
}

/// A notification that the time lock has queued for publication.
#[derive(Debug, PartialEq, Eq)]
pub enum TimelockEvent {
    Queued { action_id: u64, action_type: ActionType, target: Address, data: String, executable_at: u64 },
    Executed { action_id: u64, action_type: ActionType, target: Address, timestamp: u64 },
    Cancelled { action_id: u64, action_type: ActionType, target: Address },
}

/// The queue of one time lock.
pub struct TimelockContract {
    admin: Option<Address>,
    actions: Vec<QueuedAction>,
    events: Vec<TimelockEvent>,
}

/// What the time lock holds. The action with identifier `n` stands at
/// position `n - 1`.
pub struct TimelockView {
    pub admin: Option<Address>,
    pub actions: Seq<QueuedAction>,
    pub events: Seq<TimelockEvent>,
}

impl TimelockView {
    /// Whether `action_id` names a queued action.
    pub open spec fn has(&self, action_id: u64) -> bool {
        1 <= action_id <= self.actions.len()
    }

    /// The action named `action_id`.
    pub open spec fn action(&self, action_id: u64) -> QueuedAction {
        self.actions[action_id - 1]
    }

    /// Identifiers count from one in the order of queuing; every action
    /// becomes executable no sooner than the shortest delay of its kind
    /// after it was queued and no later than the longest delay; and none is
    /// both executed and cancelled.
    pub open spec fn wf(&self) -> bool {
        &&& self.actions.len() <= u64::MAX
        &&& forall|i: int|
            0 <= i < self.actions.len() ==> {
                let a = #[trigger] self.actions[i];
                &&& a.id == i + 1
                &&& a.queued_at + a.action_type.spec_get_delay() <= a.executable_at
                &&& a.executable_at <= a.queued_at + MAX_DELAY
                &&& !(a.executed && a.cancelled)
            }
    }
}

/// The identifiers of the actions that satisfy `keep`, in the order of
/// queuing.
pub open spec fn ids_where(actions: Seq<QueuedAction>, keep: spec_fn(QueuedAction) -> bool) -> Seq<u64>
    decreases actions.len(),
{
    if actions.len() == 0 {
        Seq::empty()
    } else if keep(actions.last()) {
        ids_where(actions.drop_last(), keep).push(actions.last().id)
    } else {
        ids_where(actions.drop_last(), keep)
    }
}

/// Whether `caller` is the administrator, and if not, why.
pub open spec fn spec_require_admin(s: TimelockView, caller: Address) -> Option<Error> {
    match s.admin {
        None => Some(Error::NotInitialized),
        Some(admin) => if admin@ == caller@ {
            None
        } else {
            Some(Error::Unauthorized)
        },
    }
}

/// The time lock after `initialize`.
pub open spec fn spec_initialize(s: TimelockView, admin: Address) -> Result<TimelockView, Error> {
    if s.admin is Some {
        Err(Error::AlreadyInitialized)
    } else {
        Ok(TimelockView { admin: Some(admin), ..s })
    }
}

/// The time lock after `queue_action`. The new action gets the next
/// identifier and becomes executable `delay` seconds after `now`.
pub open spec fn spec_queue_action(
    s: TimelockView,
    caller: Address,
    action_type: ActionType,
    target: Address,
    data: String,
    delay: u64,
    now: u64,
) -> Result<TimelockView, Error> {
    if spec_require_admin(s, caller) is Some {
        Err(spec_require_admin(s, caller).unwrap())
    } else if delay < action_type.spec_get_delay() {
        Err(Error::DelayTooShort)
    } else if delay > MAX_DELAY {
        Err(Error::DelayTooLong)
    } else if s.actions.len() >= u64::MAX || now + delay > u64::MAX {
        Err(Error::ArithmeticOverflow)
    } else {
        let id = (s.actions.len() + 1) as u64;
        let executable_at = (now + delay) as u64;
        Ok(
            TimelockView {
                actions: s.actions.push(
                    QueuedAction {
                        id,
                        action_type,
                        target,
                        data,
                        queued_at: now,
                        executable_at,
                        executed: false,
                        cancelled: false,
                    },
                ),
                events: s.events.push(
                    TimelockEvent::Queued { action_id: id, action_type, target, data, executable_at },
                ),
                ..s
            },
        )
    }
}

/// The time lock after `execute_action`.
pub open spec fn spec_execute_action(s: TimelockView, action_id: u64, now: u64) -> Result<TimelockView, Error> {
    if !s.has(action_id) {
        Err(Error::ActionNotFound)
    } else {
        let a = s.action(action_id);
        if a.executed {
            Err(Error::ActionAlreadyExecuted)
        } else if a.cancelled {
            Err(Error::ActionCancelled)
        } else if now < a.executable_at {
            Err(Error::DelayNotMet)
        } else {
            Ok(
                TimelockView {
                    actions: s.actions.update(action_id - 1, QueuedAction { executed: true, ..a }),
                    events: s.events.push(
                        TimelockEvent::Executed {
                            action_id,
                            action_type: a.action_type,
                            target: a.target,
                            timestamp: now,
                        },
                    ),
                    ..s
                },
            )
        }
    }
}

/// The time lock after `cancel_action`.
pub open spec fn spec_cancel_action(s: TimelockView, caller: Address, action_id: u64) -> Result<
    TimelockView,
    Error,
> {
    if spec_require_admin(s, caller) is Some {
        Err(spec_require_admin(s, caller).unwrap())
    } else if !s.has(action_id) {
        Err(Error::ActionNotFound)
    } else {
        let a = s.action(action_id);
        if a.executed {
            Err(Error::CannotCancelExecutedAction)
        } else if a.cancelled {
            Err(Error::ActionAlreadyCancelled)
        } else {
            Ok(
                TimelockView {
                    actions: s.actions.update(action_id - 1, QueuedAction { cancelled: true, ..a }),
                    events: s.events.push(
                        TimelockEvent::Cancelled { action_id, action_type: a.action_type, target: a.target },
                    ),
                    ..s
                },
            )
        }
    }
}

/// What a time lock holds, as plain lists: the form in which it is stored
/// and restored.
#[derive(Debug, PartialEq, Eq)]
pub struct TimelockParts {
    pub admin: Option<Address>,
    pub actions: Vec<QueuedAction>,
    pub events: Vec<TimelockEvent>,
}

impl TimelockParts {
    /// The time lock that these lists describe.
    pub open spec fn view(&self) -> TimelockView {
        TimelockView { admin: self.admin, actions: self.actions@, events: self.events@ }
    }

    /// The time lock that these lists describe is well formed.
    pub open spec fn wf(&self) -> bool {
        self.view().wf()
    }
}

impl View for TimelockContract {
    type V = TimelockView;

    closed spec fn view(&self) -> TimelockView {
        TimelockView { admin: self.admin, actions: self.actions@, events: self.events@ }
    }
}

impl TimelockContract {
    /// What the time lock holds is well formed.
    pub closed spec fn wf(&self) -> bool {
        self@.wf()
    }

    /// A time lock with an empty queue, not yet initialized.
    pub fn new() -> (lock: Self)
        ensures
            lock.wf(),
            lock@.admin is None,
            lock@.actions == Seq::<QueuedAction>::empty(),
            lock@.events == Seq::<TimelockEvent>::empty(),
    {
        TimelockContract { admin: None, actions: Vec::new(), events: Vec::new() }
    }

    /// Names the administrator. Refused once done.
    pub fn initialize(&mut self, admin: Address) -> (done: Result<(), Error>)
        requires
            old(self).wf(),
        ensures
            final(self).wf(),
            match spec_initialize(old(self)@, admin) {
                Ok(s) => done is Ok && final(self)@ == s,
                Err(e) => done == Err::<(), Error>(e) && final(self)@ == old(self)@,
            },
    {
        if self.admin.is_some() {
            return Err(Error::AlreadyInitialized);
        }
        self.admin = Some(admin);
        Ok(())
    }

    fn require_admin(&self, caller: &Address) -> (outcome: Result<(), Error>)
        ensures
            match spec_require_admin(self@, *caller) {
                Some(e) => outcome == Err::<(), Error>(e),
                None => outcome is Ok,
            },
    {
        match &self.admin {
            None => Err(Error::NotInitialized),
            Some(admin) => if *admin == *caller {
                Ok(())
            } else {
                Err(Error::Unauthorized)
            },
        }
    }

    fn position(&self, action_id: u64) -> (index: Option<usize>)
        ensures
            self@.has(action_id) ==> index == Some((action_id - 1) as usize) && (action_id - 1) as usize
                == action_id - 1,
            !self@.has(action_id) ==> index is None,
    {
        let count: u64 = self.actions.len() as u64;
        if 1 <= action_id && action_id <= count {
            Some((action_id - 1) as usize)
        } else {
            None
        }
    }

    /// Queues an action of `action_type` against `target`, to become
    /// executable `delay` seconds from `now`. Only the administrator may,
    /// and only with a delay between the shortest of the kind and the
    /// longest of all. Answers the identifier of the action.
    pub fn queue_action(
        &mut self,
        caller: &Address,
        action_type: ActionType,
        target: Address,
        data: String,
        delay: u64,
        now: u64,
    ) -> (queued: Result<u64, Error>)
        requires
            old(self).wf(),
        ensures
            final(self).wf(),
            match spec_queue_action(old(self)@, *caller, action_type, target, data, delay, now) {
                Ok(s) => queued == Ok::<u64, Error>((old(self)@.actions.len() + 1) as u64) && final(self)@ == s,
                Err(e) => queued == Err::<u64, Error>(e) && final(self)@ == old(self)@,
            },
    {
        match self.require_admin(caller) {
            Err(e) => {
                return Err(e);
            },
            Ok(()) => {},
        }
        let min_delay = action_type.get_delay();
        if delay < min_delay {
            return Err(Error::DelayTooShort);
        }
        if delay > MAX_DELAY {
            return Err(Error::DelayTooLong);
        }
        let count: u64 = self.actions.len() as u64;
        if count == u64::MAX {
            return Err(Error::ArithmeticOverflow);
        }
        let executable_at = match now.checked_add(delay) {
            Some(t) => t,
            None => {
                return Err(Error::ArithmeticOverflow);
            },
        };
        let id = count + 1;
        let event = TimelockEvent::Queued {
            action_id: id,
            action_type,
            target: target.clone(),
            data: data.clone(),
            executable_at,
        };
        self.actions.push(
            QueuedAction {
                id,
                action_type,
                target,
                data,
                queued_at: now,
                executable_at,
                executed: false,
                cancelled: false,
            },
        );
        self.events.push(event);
        Ok(id)
    }

    /// Executes a pending action whose delay has passed. Anyone may.
    pub fn execute_action(&mut self, action_id: u64, now: u64) -> (done: Result<(), Error>)
        requires
            old(self).wf(),
        ensures
            final(self).wf(),
            match spec_execute_action(old(self)@, action_id, now) {
                Ok(s) => done is Ok && final(self)@ == s,
                Err(e) => done == Err::<(), Error>(e) && final(self)@ == old(self)@,
            },
    {
        let i = match self.position(action_id) {
            Some(i) => i,
            None => {
                return Err(Error::ActionNotFound);
            },
        };
        if self.actions[i].executed {
            return Err(Error::ActionAlreadyExecuted);
        }
        if self.actions[i].cancelled {
            return Err(Error::ActionCancelled);
        }
        if now < self.actions[i].executable_at {
            return Err(Error::DelayNotMet);
        }
        let ghost before = self.actions@;
        let event = TimelockEvent::Executed {
            action_id,
            action_type: self.actions[i].action_type,
            target: self.actions[i].target.clone(),
            timestamp: now,
        };
        self.actions[i].executed = true;
        self.events.push(event);
        proof {
            assert(self.actions@ =~= before.update(i as int, QueuedAction { executed: true, ..before[i as int] }));
        }
        Ok(())
    }

    /// Cancels a pending action. Only the administrator may.
    pub fn cancel_action(&mut self, caller: &Address, action_id: u64) -> (done: Result<(), Error>)
        requires
            old(self).wf(),
        ensures
            final(self).wf(),
            match spec_cancel_action(old(self)@, *caller, action_id) {
                Ok(s) => done is Ok && final(self)@ == s,
                Err(e) => done == Err::<(), Error>(e) && final(self)@ == old(self)@,
            },
    {
        match self.require_admin(caller) {
            Err(e) => {
                return Err(e);
            },
            Ok(()) => {},
        }
        let i = match self.position(action_id) {
            Some(i) => i,
            None => {
                return Err(Error::ActionNotFound);
            },
        };
        if self.actions[i].executed {
            return Err(Error::CannotCancelExecutedAction);
        }
        if self.actions[i].cancelled {
            return Err(Error::ActionAlreadyCancelled);
        }
        let ghost before = self.actions@;
        let event = TimelockEvent::Cancelled {
            action_id,
            action_type: self.actions[i].action_type,
            target: self.actions[i].target.clone(),
        };
        self.actions[i].cancelled = true;
        self.events.push(event);
        proof {
            assert(self.actions@ =~= before.update(i as int, QueuedAction { cancelled: true, ..before[i as int] }));
        }
        Ok(())
    }

    /// The action named `action_id`.
    pub fn get_action(&self, action_id: u64) -> (found: Result<QueuedAction, Error>)
        ensures
            self@.has(action_id) ==> found == Ok::<QueuedAction, Error>(self@.action(action_id)),
            !self@.has(action_id) ==> found == Err::<QueuedAction, Error>(Error::ActionNotFound),
    {
        match self.position(action_id) {
            Some(i) => Ok(self.actions[i].clone()),
            None => Err(Error::ActionNotFound),
        }
    }

    /// The identifiers of all actions, in the order of queuing.
    pub fn get_all_actions(&self) -> (ids: Vec<u64>)
        ensures
            ids@ == ids_where(self@.actions, |a: QueuedAction| true),
    {
        let mut ids: Vec<u64> = Vec::new();
        let mut i: usize = 0;
        while i < self.actions.len()
            invariant
                i <= self.actions.len(),
                ids@ == ids_where(self.actions@.take(i as int), |a: QueuedAction| true),
            decreases self.actions.len() - i,
        {
            proof {
                assert(self.actions@.take(i + 1).drop_last() =~= self.actions@.take(i as int));
            }
            ids.push(self.actions[i].id);
            i += 1;
        }
        proof {
            assert(self.actions@.take(i as int) =~= self.actions@);
        }
        ids
    }

    /// The identifiers of the actions that are neither executed nor
    /// cancelled, in the order of queuing.
    pub fn get_pending_actions(&self) -> (ids: Vec<u64>)
        ensures
            ids@ == ids_where(self@.actions, |a: QueuedAction| a.pending()),
    {
        let mut ids: Vec<u64> = Vec::new();
        let mut i: usize = 0;
        while i < self.actions.len()
            invariant
                i <= self.actions.len(),
                ids@ == ids_where(self.actions@.take(i as int), |a: QueuedAction| a.pending()),
            decreases self.actions.len() - i,
        {
            proof {
                assert(self.actions@.take(i + 1).drop_last() =~= self.actions@.take(i as int));
            }
            if !self.actions[i].executed && !self.actions[i].cancelled {
                ids.push(self.actions[i].id);
            }
            i += 1;
        }
        proof {
            assert(self.actions@.take(i as int) =~= self.actions@);
        }
        ids
    }

    /// The identifiers of the pending actions whose delay has passed at
    /// `now`, in the order of queuing.
    pub fn get_executable_actions(&self, now: u64) -> (ids: Vec<u64>)
        ensures
            ids@ == ids_where(self@.actions, |a: QueuedAction| a.executable(now)),
    {
        let mut ids: Vec<u64> = Vec::new();
        let mut i: usize = 0;
        while i < self.actions.len()
            invariant
                i <= self.actions.len(),
                ids@ == ids_where(self.actions@.take(i as int), |a: QueuedAction| a.executable(now)),
            decreases self.actions.len() - i,
        {
            proof {
                assert(self.actions@.take(i + 1).drop_last() =~= self.actions@.take(i as int));
            }
            if !self.actions[i].executed && !self.actions[i].cancelled && now >= self.actions[i].executable_at {
                ids.push(self.actions[i].id);
            }
            i += 1;
        }
        proof {
            assert(self.actions@.take(i as int) =~= self.actions@);
        }
        ids
    }

    /// The administrator.
    pub fn get_admin(&self) -> (admin: Result<Address, Error>)
        ensures
            match self@.admin {
                Some(a) => admin == Ok::<Address, Error>(a),
                None => admin == Err::<Address, Error>(Error::NotInitialized),
            },
    {
        match &self.admin {
            Some(a) => Ok(a.clone()),
            None => Err(Error::NotInitialized),
        }
    }

    /// The shortest delay of `action_type`, in seconds.
    pub fn get_min_delay(&self, action_type: ActionType) -> (delay: u64)
        ensures
            delay == action_type.spec_get_delay(),
    {
        action_type.get_delay()
    }

    /// The longest delay that is accepted, in seconds.
    pub fn get_max_delay(&self) -> (delay: u64)
        ensures
            delay == MAX_DELAY,
    {
        MAX_DELAY
    }

    /// How many actions have been queued.
    pub fn get_action_count(&self) -> (count: u64)
        requires
            self.wf(),
        ensures
            count == self@.actions.len(),
    {
        self.actions.len() as u64
    }

    /// The notifications queued so far, oldest first.
    pub fn events(&self) -> (events: &Vec<TimelockEvent>)
        ensures
            events@ == self@.events,
    {
        &self.events
    }

    /// Takes the time lock apart into the lists that it holds.
    pub fn into_parts(self) -> (parts: TimelockParts)
        requires
            self.wf(),
        ensures
            parts.wf(),
            parts.view() == self@,
    {
        TimelockParts { admin: self.admin, actions: self.actions, events: self.events }
    }

    /// The time lock that `parts` describe, if they are well formed.
    pub fn from_parts(parts: TimelockParts) -> (lock: Option<Self>)
        ensures
            parts.wf() <==> lock is Some,
            lock matches Some(l) ==> l.wf() && l@ == parts.view(),
    {
        let mut i: usize = 0;
        while i < parts.actions.len()
            invariant
                i <= parts.actions.len(),
                forall|j: int|
                    0 <= j < i ==> {
                        let a = #[trigger] parts.actions@[j];
                        &&& a.id == j + 1
                        &&& a.queued_at + a.action_type.spec_get_delay() <= a.executable_at
                        &&& a.executable_at <= a.queued_at + MAX_DELAY
                        &&& !(a.executed && a.cancelled)
                    },
            decreases parts.actions.len() - i,
        {
            let a = &parts.actions[i];
            let ok = a.id >= 1 && a.id - 1 == i as u64 && a.executable_at >= a.queued_at && a.executable_at
                - a.queued_at >= a.action_type.get_delay() && a.executable_at - a.queued_at <= MAX_DELAY && !(
            a.executed && a.cancelled);
            if !ok {
                return None;
            }
            i += 1;
        }
        Some(TimelockContract { admin: parts.admin, actions: parts.actions, events: parts.events })
    }
}

/// An action can be executed only once the shortest delay of its kind has
/// passed since it was queued, and only while it is neither executed nor
/// cancelled.
pub proof fn law_execution_waits_for_delay(s: TimelockView, action_id: u64, now: u64)
    requires
        s.wf(),
        spec_execute_action(s, action_id, now) is Ok,
    ensures
        s.action(action_id).pending(),
        now >= s.action(action_id).queued_at + s.action(action_id).action_type.spec_get_delay(),
        now >= s.action(action_id).queued_at + MIN_DELAY,
{
    let a = s.actions[action_id - 1];
    assert(a.queued_at + a.action_type.spec_get_delay() <= a.executable_at);
}

/// An action is executable exactly from the instant its delay has passed:
/// at `executable_at` a pending action is executed, one second earlier it
/// is refused.
pub proof fn law_delay_boundary(s: TimelockView, action_id: u64)
    requires
        s.wf(),
        s.has(action_id),
        s.action(action_id).pending(),
    ensures
        spec_execute_action(s, action_id, s.action(action_id).executable_at) is Ok,
        spec_execute_action(s, action_id, (s.action(action_id).executable_at - 1) as u64) == Err::<
            TimelockView,
            Error,
        >(Error::DelayNotMet),
{
    let a = s.actions[action_id - 1];
    assert(a.executable_at >= a.queued_at + a.action_type.spec_get_delay());
}

/// An executed action can be neither executed again nor cancelled, and a
/// cancelled one can be neither executed nor cancelled again.
pub proof fn law_closed_actions_stay_closed(s: TimelockView, caller: Address, action_id: u64, now: u64)
    requires
        s.wf(),
        s.has(action_id),
        !s.action(action_id).pending(),
    ensures
        spec_execute_action(s, action_id, now) is Err,
        spec_cancel_action(s, caller, action_id) is Err,
{
}

/// Every call keeps the time lock well formed.
pub proof fn law_calls_keep_well_formed(
    s: TimelockView,
    caller: Address,
    action_type: ActionType,
    target: Address,
    data: String,
    delay: u64,
    action_id: u64,
    now: u64,
)
    requires
        s.wf(),
    ensures
        spec_queue_action(s, caller, action_type, target, data, delay, now) matches Ok(t) ==> t.wf(),
        spec_execute_action(s, action_id, now) matches Ok(t) ==> t.wf(),
        spec_cancel_action(s, caller, action_id) matches Ok(t) ==> t.wf(),
{
}

} // verus!
