//! Main-thread timers: create, pause, resume and destroy.
//!
//! A timer's identifier is the index of its slot. Times are nanoseconds on one
//! monotonic clock, in 128 bits: no sum of a time and a duration that a clock can give
//! comes near their end, where deadlines stop. Threads, sleeping and the callbacks themselves are left to the
//! caller: the client queues registrations and worker commands, the worker functions
//! decide what a waiting thread does next, and `TimerService::tick` says which
//! callback to run.

use std::collections::HashMap;
use vstd::prelude::*;
use vstd::std_specs::hash::*;

use crate::slot_map::{replaced_keeps_wf, slot_number, SlotMap, SlotTable, SLOT_LIMIT};

verus! {

/// The longest a worker sleeps before it looks at its timer again: 50 ms.
pub const SLEEP_CHUNK: u128 = 50_000_000;

/// What the clients and the workers share about one timer.
#[derive(Clone, Copy, Debug, PartialEq, Eq, Structural)]
pub struct TimerState {
    pub alive: bool,
    pub paused: bool,
    pub remaining: u128,
    pub group: Option<u32>,
}

/// Asks a worker to wait for `deadline`.
#[derive(Clone, Copy, Debug, PartialEq, Eq, Structural)]
pub struct WorkerCmd {
    pub id: u32,
    pub deadline: u128,
}

/// How a timer is to be created. `C` is the callback, which only the caller runs.
pub struct TimerParams<C> {
    pub delay: u128,
    pub interval: Option<u128>,
    pub exec_immediately: bool,
    pub group_id: Option<u32>,
    pub callback: C,
}

/// A registration on its way from a client to the service.
pub struct RegMsg<C> {
    pub id: u32,
    pub group_id: Option<u32>,
    pub params: TimerParams<C>,
    pub deadline: u128,
}

/// The index of the timer's slot.
pub type TimerId = u32;

/// The side that panels hold: the shared timer states and the two outgoing queues.
pub struct TimerClient<C> {
    state: SlotMap<TimerState>,
    commands: Vec<WorkerCmd>,
    registrations: Vec<RegMsg<C>>,
}

/// The state of a timer that has just been created.
pub open spec fn fresh_state(delay: u128, group: Option<u32>) -> TimerState {
    TimerState { alive: true, paused: false, remaining: delay, group }
}

/// `st` may fire: it is alive and not paused.
pub open spec fn may_fire(st: Option<TimerState>) -> bool {
    st matches Some(s) && s.alive && !s.paused
}

/// The slot holds a timer of `group`.
pub open spec fn in_group(st: Option<TimerState>, group: u32) -> bool {
    st matches Some(s) && s.group == Some(group)
}

/// The slots below `n` whose timer is in `group`, in index order.
pub open spec fn group_members(slots: Seq<Option<TimerState>>, group: u32, n: nat) -> Seq<u32>
    decreases n,
{
    if n == 0 {
        Seq::empty()
    } else {
        let below = group_members(slots, group, (n - 1) as nat);
        if in_group(slots[n - 1], group) {
            below.push(slot_number(n - 1))
        } else {
            below
        }
    }
}

impl<C> TimerClient<C> {
    /// The shared timer states.
    pub closed spec fn state(&self) -> SlotMap<TimerState> {
        self.state
    }

    /// Worker commands that have not been handed to a worker yet.
    pub closed spec fn commands(&self) -> Seq<WorkerCmd> {
        self.commands@
    }

    /// Registrations that the service has not seen yet.
    pub closed spec fn registrations(&self) -> Seq<RegMsg<C>> {
        self.registrations@
    }

    pub open spec fn wf(&self) -> bool {
        self.state().wf()
    }

    /// Timer `id` is alive and not paused.
    pub open spec fn may_fire(&self, id: u32) -> bool {
        may_fire(self.state().at(id))
    }

    /// A registration of timer `id` is still on its way.
    pub open spec fn awaits(&self, id: u32) -> bool {
        exists|k: int|
            0 <= k < self.registrations().len() && (#[trigger] self.registrations()[k]).id == id
    }

    /// `after` holds the same timers and the same queues.
    pub open spec fn unchanged(&self, after: &Self) -> bool {
        &&& after.state().slots() == self.state().slots()
        &&& after.state().free() == self.state().free()
        &&& after.commands() == self.commands()
        &&& after.registrations() == self.registrations()
    }

    /// Timer `id` has been created with `params` at `now`: it takes the next slot, and
    /// its registration and its first deadline are queued.
    pub open spec fn created(
        &self,
        params: TimerParams<C>,
        now: u128,
        id: u32,
        after: &Self,
    ) -> bool {
        let deadline = now.saturating_add(params.delay);
        &&& id == self.state().next_id()
        &&& self.state().inserted(fresh_state(params.delay, params.group_id), &after.state())
        &&& after.registrations() == self.registrations().push(
            RegMsg { id, group_id: params.group_id, params, deadline },
        )
        &&& after.commands() == self.commands().push(WorkerCmd { id, deadline })
    }

    /// Timer `id` has been destroyed.
    pub open spec fn destroyed(&self, id: u32, after: &Self) -> bool {
        &&& self.state().removed(id, &after.state())
        &&& after.commands() == self.commands()
        &&& after.registrations() == self.registrations()
    }

    /// Timer `id` has been paused, if it was running.
    pub open spec fn paused(&self, id: u32, after: &Self) -> bool {
        match self.state().at(id) {
            Some(st) if st.alive && !st.paused => {
                &&& self.state().replaced(id, (TimerState { paused: true, ..st }), &after.state())
                &&& after.commands() == self.commands()
                &&& after.registrations() == self.registrations()
            },
            _ => self.unchanged(after),
        }
    }

    /// Timer `id` has been resumed at `now`, if it was paused.
    pub open spec fn resumed(&self, id: u32, now: u128, after: &Self) -> bool {
        match self.state().at(id) {
            Some(st) if st.paused => {
                &&& self.state().replaced(id, (TimerState { paused: false, ..st }), &after.state())
                &&& after.commands() == self.commands().push(
                    WorkerCmd { id, deadline: now.saturating_add(st.remaining) },
                )
                &&& after.registrations() == self.registrations()
            },
            _ => self.unchanged(after),
        }
    }

    /// The timers `ids` have been destroyed, one after the other.
    pub open spec fn cleared(&self, ids: Seq<u32>, after: &Self) -> bool {
        &&& after.state().slots() == slots_without(self.state().slots(), ids)
        &&& after.state().free() == self.state().free() + freed_by(
            self.state().slots(),
            ids,
            ids.len(),
        )
        &&& after.commands() == self.commands()
        &&& after.registrations() == self.registrations()
    }

    /// No timers and empty queues.
    pub fn new() -> (r: Self)
        ensures
            r.wf(),
            r.state().slots() == Seq::<Option<TimerState>>::empty(),
            r.state().free() == Seq::<u32>::empty(),
            r.commands() == Seq::<WorkerCmd>::empty(),
            r.registrations() == Seq::<RegMsg<C>>::empty(),
    {
        TimerClient { state: SlotMap::new(), commands: Vec::new(), registrations: Vec::new() }
    }

    /// Creates a timer that is due `params.delay` after `now`.
    pub fn create_timer(&mut self, params: TimerParams<C>, now: u128) -> (id: TimerId)
        requires
            old(self).wf(),
        ensures
            final(self).wf(),
            old(self).state().has_room() ==> !old(self).state().holds(id),
            old(self).created(params, now, id, final(self)),
    {
        let id: u32 = self.state.insert(
            TimerState { alive: true, paused: false, remaining: params.delay, group: params.group_id },
        );
        let deadline: u128 = now.saturating_add(params.delay);
        let group_id: Option<u32> = params.group_id;
        self.registrations.push(RegMsg { id, group_id, params, deadline });
        self.commands.push(WorkerCmd { id, deadline });
        id
    }

    /// Forgets timer `id`; a pending deadline of it no longer fires, and the next tick
    /// drops its callback.
    pub fn destroy(&mut self, id: TimerId)
        requires
            old(self).wf(),
        ensures
            final(self).wf(),
            !final(self).may_fire(id),
            old(self).destroyed(id, final(self)),
    {
        self.state.remove(id);
    }

    /// Pauses timer `id`; nothing happens where it is gone or paused already.
    pub fn pause(&mut self, id: TimerId)
        requires
            old(self).wf(),
        ensures
            final(self).wf(),
            !final(self).may_fire(id),
            old(self).paused(id, final(self)),
    {
        let ghost before = self.state;
        match self.state.get_mut(id) {
            Some(st) => {
                if st.alive && !st.paused {
                    st.paused = true;
                }
            },
            None => {},
        }
        proof {
            if before.holds(id) {
                let st = before.at(id)->Some_0;
                let after = if st.alive && !st.paused {
                    TimerState { paused: true, ..st }
                } else {
                    st
                };
                assert(before.replaced(id, after, &self.state));
                replaced_keeps_wf(before, id, after, self.state);
                assert(before.slots().update(id as int, Some(st)) =~= before.slots());
            }
        }
    }

    /// Resumes timer `id` if it is paused: it is then due when the time that was left
    /// has passed. Nothing happens where it is gone or running.
    pub fn resume(&mut self, id: TimerId, now: u128)
        requires
            old(self).wf(),
        ensures
            final(self).wf(),
            old(self).resumed(id, now, final(self)),
    {
        let ghost before = self.state;
        let mut remaining: Option<u128> = None;
        match self.state.get_mut(id) {
            Some(st) => {
                if st.paused {
                    st.paused = false;
                    remaining = Some(st.remaining);
                }
            },
            None => {},
        }
        proof {
            if before.holds(id) {
                let st = before.at(id)->Some_0;
                let after = TimerState { paused: false, ..st };
                assert(before.replaced(id, after, &self.state));
                replaced_keeps_wf(before, id, after, self.state);
                if !st.paused {
                    assert(before.slots().update(id as int, Some(st)) =~= before.slots());
                }
            }
        }
        if let Some(left) = remaining {
            self.commands.push(WorkerCmd { id, deadline: now.saturating_add(left) });
        }
    }

    /// Destroys every timer of `group`, in slot order. The next tick drops their callbacks.
    pub fn destroy_group(&mut self, group: u32)
        requires
            old(self).wf(),
        ensures
            final(self).wf(),
            final(self).state().slots() == old(self).state().slots().map_values(
                |st: Option<TimerState>|
                    if in_group(st, group) {
                        None
                    } else {
                        st
                    },
            ),
            final(self).state().free() == old(self).state().free() + group_members(
                old(self).state().slots(),
                group,
                old(self).state().slots().len(),
            ),
            final(self).commands() == old(self).commands(),
            final(self).registrations() == old(self).registrations(),
    {
        let ghost before = self.state;
        let n: usize = self.state.len();
        let mut i: usize = 0;
        while i < n
            invariant
                i <= n,
                n == before.slots().len(),
                self.state.wf(),
                self.state.slots().len() == n,
                forall|k: int|
                    0 <= k < n ==> #[trigger] self.state.slots()[k] == (if k < i && in_group(
                        before.slots()[k],
                        group,
                    ) {
                        None
                    } else {
                        before.slots()[k]
                    }),
                self.state.free() == before.free() + group_members(before.slots(), group, i as nat),
                self.commands@ == old(self).commands@,
                self.registrations@ == old(self).registrations@,
            decreases n - i,
        {
            let member: bool = match self.state.slot(i) {
                Some(st) => match st.group {
                    Some(g) => g == group,
                    None => false,
                },
                None => false,
            };
            assert(member == in_group(before.slots()[i as int], group));
            if member {
                self.state.empty_slot(i);
                assert(self.state.free() =~= before.free() + group_members(
                    before.slots(),
                    group,
                    (i + 1) as nat,
                ));
            }
            i = i + 1;
        }
    }

    /// Takes the commands that are waiting for a worker, oldest first.
    pub fn take_commands(&mut self) -> (r: Vec<WorkerCmd>)
        ensures
            r@ == old(self).commands(),
            final(self).commands() == Seq::<WorkerCmd>::empty(),
            final(self).state() == old(self).state(),
            final(self).registrations() == old(self).registrations(),
    {
        let mut taken: Vec<WorkerCmd> = Vec::new();
        std::mem::swap(&mut taken, &mut self.commands);
        taken
    }
}

/// What a worker thread does before it looks at its timer.
#[derive(Clone, Copy, Debug, PartialEq, Eq, Structural)]
pub enum WorkerWait {
    /// Sleep for so long, then call `TimerClient::worker_check`.
    Sleep(u128),
    /// The deadline has come: call `TimerClient::worker_expired`.
    Expired,
}

/// What a worker that waits for `deadline` does at `now`.
pub open spec fn wait_at(deadline: u128, now: u128) -> WorkerWait {
    if now >= deadline {
        WorkerWait::Expired
    } else if deadline - now <= SLEEP_CHUNK {
        WorkerWait::Sleep((deadline - now) as u128)
    } else {
        WorkerWait::Sleep(SLEEP_CHUNK)
    }
}

/// How long a worker sleeps at `now`: up to the deadline, one chunk at a time.
pub fn worker_wait(cmd: WorkerCmd, now: u128) -> (r: WorkerWait)
    ensures
        r == wait_at(cmd.deadline, now),
{
    if now >= cmd.deadline {
        WorkerWait::Expired
    } else {
        let left: u128 = cmd.deadline - now;
        if left <= SLEEP_CHUNK {
            WorkerWait::Sleep(left)
        } else {
            WorkerWait::Sleep(SLEEP_CHUNK)
        }
    }
}

/// The time from `now` to `deadline`, none if it has passed.
pub open spec fn time_left(deadline: u128, now: u128) -> u128 {
    if now >= deadline {
        0
    } else {
        (deadline - now) as u128
    }
}

impl<C> TimerClient<C> {
    /// A worker that waits for `cmd` has looked at its timer at `now`.
    pub open spec fn looked_at(&self, cmd: WorkerCmd, now: u128, stop: bool, after: &Self) -> bool {
        &&& stop == !self.may_fire(cmd.id)
        &&& match self.state().at(cmd.id) {
            Some(st) if st.alive && st.paused => self.state().replaced(
                cmd.id,
                (TimerState { remaining: time_left(cmd.deadline, now), ..st }),
                &after.state(),
            ),
            _ => after.state().slots() == self.state().slots() && after.state().free()
                == self.state().free(),
        }
        &&& after.commands() == self.commands()
        &&& after.registrations() == self.registrations()
    }

    /// What a worker does after each sleep: it stops (`true`) when its timer is gone
    /// or paused, and for a paused timer it first records the time that is left.
    pub fn worker_check(&mut self, cmd: WorkerCmd, now: u128) -> (stop: bool)
        requires
            old(self).wf(),
        ensures
            final(self).wf(),
            old(self).looked_at(cmd, now, stop, final(self)),
    {
        let ghost before = self.state;
        let mut stop: bool = true;
        match self.state.get_mut(cmd.id) {
            Some(st) => {
                if st.alive {
                    if st.paused {
                        st.remaining = if now >= cmd.deadline {
                            0
                        } else {
                            cmd.deadline - now
                        };
                    } else {
                        stop = false;
                    }
                }
            },
            None => {},
        }
        proof {
            if before.holds(cmd.id) {
                let st = before.at(cmd.id)->Some_0;
                let after = if st.alive && st.paused {
                    TimerState { remaining: time_left(cmd.deadline, now), ..st }
                } else {
                    st
                };
                assert(before.replaced(cmd.id, after, &self.state));
                replaced_keeps_wf(before, cmd.id, after, self.state);
                assert(before.slots().update(cmd.id as int, Some(st)) =~= before.slots());
            }
        }
        stop
    }

    /// Whether timer `id` is alive and not paused.
    pub fn is_running(&self, id: TimerId) -> (r: bool)
        ensures
            r == self.may_fire(id),
    {
        match self.state.get(id) {
            Some(st) => st.alive && !st.paused,
            None => false,
        }
    }

    /// Whether a worker whose deadline has come reports its timer as due.
    pub fn worker_expired(&self, cmd: WorkerCmd) -> (fire: bool)
        ensures
            fire == self.may_fire(cmd.id),
    {
        self.is_running(cmd.id)
    }

    /// The time left of a paused timer, as last recorded.
    pub fn paused_remaining(&self, id: TimerId) -> (r: Option<u128>)
        ensures
            r == (match self.state().at(id) {
                Some(st) if st.paused => Some(st.remaining),
                _ => None,
            }),
    {
        match self.state.get(id) {
            Some(st) => if st.paused {
                Some(st.remaining)
            } else {
                None
            },
            None => None,
        }
    }
}

/// Where a tick stands.
#[derive(Clone, Copy, Debug, PartialEq, Eq, Structural)]
pub enum TickPhase {
    /// Taking in registrations.
    Registering,
    /// Dispatching the timers that are due.
    Dispatching,
    /// The callback of the first due timer has been handed out to be run.
    Finishing,
}

/// What the caller does after one step of a tick.
#[derive(Clone, Copy, Debug, PartialEq, Eq, Structural)]
pub enum TickAction {
    /// Run the callback of this timer, then step again.
    Run(u32),
    /// Step again.
    Continue,
    /// The tick is over.
    Done,
}

/// The side of the main loop: the callbacks, and the timers reported as due.
pub struct TimerService<C> {
    params: SlotTable<TimerParams<C>>,
    groups: HashMap<u32, Vec<u32>>,
    events: Vec<u32>,
    fired: Vec<u32>,
    phase: TickPhase,
}

/// `groups` after timer `id` has been registered.
pub open spec fn with_member(
    groups: Map<u32, Seq<u32>>,
    group: Option<u32>,
    id: u32,
) -> Map<u32, Seq<u32>> {
    match group {
        Some(g) => groups.insert(
            g,
            (if groups.contains_key(g) {
                groups[g]
            } else {
                Seq::empty()
            }).push(id),
        ),
        None => groups,
    }
}

impl<C> TimerService<C> {
    /// The parameters of the registered timers, under the timers' identifiers.
    pub closed spec fn params(&self) -> Map<u32, TimerParams<C>> {
        self.params@
    }

    /// The timers registered under each group so far.
    pub closed spec fn groups(&self) -> Map<u32, Seq<u32>> {
        self.groups@.map_values(|v: Vec<u32>| v@)
    }

    /// Timers that workers reported as due since the last tick looked.
    pub closed spec fn events(&self) -> Seq<u32> {
        self.events@
    }

    /// Timers that this tick has still to dispatch.
    pub closed spec fn fired(&self) -> Seq<u32> {
        self.fired@
    }

    pub closed spec fn phase(&self) -> TickPhase {
        self.phase
    }

    pub open spec fn wf(&self) -> bool {
        self.phase() == TickPhase::Finishing ==> {
            &&& self.fired().len() > 0
            &&& self.params().contains_key(self.fired()[0])
        }
    }

    /// The interval of the timer whose callback is being run.
    pub open spec fn running_interval(&self) -> Option<u128> {
        if self.phase() == TickPhase::Finishing {
            self.params()[self.fired()[0]].interval
        } else {
            None
        }
    }

    /// Everything but the parameters, the groups and the phase is as in `before`.
    pub open spec fn same_queues(&self, before: &Self) -> bool {
        self.events() == before.events() && self.fired() == before.fired()
    }

    /// The step of a tick that takes in one registration: the parameters are stored
    /// under the timer's identifier, in place of those of an earlier timer.
    pub open spec fn registered(
        &self,
        client: &TimerClient<C>,
        after: &Self,
        client_after: &TimerClient<C>,
        action: TickAction,
    ) -> bool {
        let msg = client.registrations()[0];
        &&& after.params() == self.params().insert(msg.id, msg.params)
        &&& after.groups() == with_member(self.groups(), msg.group_id, msg.id)
        &&& after.same_queues(self)
        &&& after.phase() == TickPhase::Registering
        &&& client_after.registrations() == client.registrations().skip(1)
        &&& client_after.state() == client.state()
        &&& client_after.commands() == client.commands()
        &&& action == (if msg.params.exec_immediately {
            TickAction::Run(msg.id)
        } else {
            TickAction::Continue
        })
    }

    /// The step that drops the parameters of destroyed timers and collects the due
    /// timers: of the reported ones, those that are still running.
    pub open spec fn collected(
        &self,
        client: &TimerClient<C>,
        after: &Self,
        client_after: &TimerClient<C>,
        action: TickAction,
    ) -> bool {
        &&& after.fired() == self.events().filter(|id: u32| client.may_fire(id))
        &&& after.events() == Seq::<u32>::empty()
        &&& after.params() == self.params().restrict(
            Set::new(|id: u32| client.state().holds(id)),
        )
        &&& after.groups() == self.groups()
        &&& after.phase() == TickPhase::Dispatching
        &&& *client_after == *client
        &&& action == TickAction::Continue
    }

    /// The step that hands out the callback of the first due timer, if it is still
    /// running and registered, and passes over it otherwise.
    pub open spec fn dispatched(
        &self,
        client: &TimerClient<C>,
        after: &Self,
        client_after: &TimerClient<C>,
        action: TickAction,
    ) -> bool {
        let id = self.fired()[0];
        &&& after.params() == self.params()
        &&& after.groups() == self.groups()
        &&& after.events() == self.events()
        &&& *client_after == *client
        &&& if client.may_fire(id) && self.params().contains_key(id) {
            &&& after.fired() == self.fired()
            &&& after.phase() == TickPhase::Finishing
            &&& action == TickAction::Run(id)
        } else {
            &&& after.fired() == self.fired().skip(1)
            &&& after.phase() == TickPhase::Dispatching
            &&& action == TickAction::Continue
        }
    }

    /// The step after a due timer's callback has run: a repeating timer is scheduled
    /// again, another one is forgotten. Both go by the identifier: where the callback
    /// destroyed its timer and created one that took the slot, that one is meant.
    pub open spec fn finished(
        &self,
        client: &TimerClient<C>,
        now: u128,
        after: &Self,
        client_after: &TimerClient<C>,
        action: TickAction,
    ) -> bool {
        let id = self.fired()[0];
        &&& after.fired() == self.fired().skip(1)
        &&& after.events() == self.events()
        &&& after.groups() == self.groups()
        &&& after.phase() == TickPhase::Dispatching
        &&& client_after.registrations() == client.registrations()
        &&& action == TickAction::Continue
        &&& match self.running_interval() {
            Some(period) => {
                &&& after.params() == self.params()
                &&& client_after.commands() == client.commands().push(
                    WorkerCmd { id, deadline: now.saturating_add(period) },
                )
                &&& match client.state().at(id) {
                    Some(st) => client.state().replaced(
                        id,
                        (TimerState { remaining: period, ..st }),
                        &client_after.state(),
                    ),
                    None => client_after.state().slots() == client.state().slots()
                        && client_after.state().free() == client.state().free(),
                }
            },
            None => {
                &&& after.params() == self.params().remove(id)
                &&& client.state().removed(id, &client_after.state())
                &&& client_after.commands() == client.commands()
            },
        }
    }

    /// One step of a tick, as the phase has it.
    pub open spec fn stepped(
        &self,
        client: &TimerClient<C>,
        now: u128,
        after: &Self,
        client_after: &TimerClient<C>,
        action: TickAction,
    ) -> bool {
        match self.phase() {
            TickPhase::Registering => if client.registrations().len() > 0 {
                self.registered(client, after, client_after, action)
            } else {
                self.collected(client, after, client_after, action)
            },
            TickPhase::Dispatching => if self.fired().len() > 0 {
                self.dispatched(client, after, client_after, action)
            } else {
                &&& after.params() == self.params()
                &&& after.groups() == self.groups()
                &&& after.same_queues(self)
                &&& after.phase() == TickPhase::Registering
                &&& *client_after == *client
                &&& action == TickAction::Done
            },
            TickPhase::Finishing => self.finished(client, now, after, client_after, action),
        }
    }

    /// A service without timers.
    pub fn new() -> (r: Self)
        ensures
            r.wf(),
            r.params() == Map::<u32, TimerParams<C>>::empty(),
            r.groups() == Map::<u32, Seq<u32>>::empty(),
            r.events() == Seq::<u32>::empty(),
            r.fired() == Seq::<u32>::empty(),
            r.phase() == TickPhase::Registering,
    {
        broadcast use group_hash_axioms;

        let r = TimerService {
            params: SlotTable::new(),
            groups: HashMap::new(),
            events: Vec::new(),
            fired: Vec::new(),
            phase: TickPhase::Registering,
        };
        assert(r.groups() =~= Map::<u32, Seq<u32>>::empty());
        r
    }

    /// Takes a worker's report that timer `id` is due.
    pub fn report(&mut self, id: u32)
        requires
            old(self).wf(),
        ensures
            final(self).wf(),
            final(self).events() == old(self).events().push(id),
            final(self).fired() == old(self).fired(),
            final(self).params() == old(self).params(),
            final(self).groups() == old(self).groups(),
            final(self).phase() == old(self).phase(),
    {
        self.events.push(id);
    }

    /// The callback of timer `id`.
    pub fn callback(&mut self, id: u32) -> (r: Option<&mut C>)
        requires
            old(self).wf(),
        ensures
            match r {
                Some(c) => {
                    &&& old(self).params().contains_key(id)
                    &&& old(self).params()[id].callback == *c
                    &&& final(self).params() == old(self).params().insert(
                        id,
                        (TimerParams { callback: *final(c), ..old(self).params()[id] }),
                    )
                },
                None => {
                    &&& !old(self).params().contains_key(id)
                    &&& final(self).params() == old(self).params()
                },
            },
            final(self).wf(),
            final(self).groups() == old(self).groups(),
            final(self).same_queues(old(self)),
            final(self).phase() == old(self).phase(),
    {
        match self.params.get_mut(id) {
            Some(p) => Some(&mut p.callback),
            None => None,
        }
    }

    /// The interval of the timer whose callback is being run, which the next step
    /// adds to the time.
    pub fn pending_interval(&self) -> (r: Option<u128>)
        requires
            self.wf(),
        ensures
            r == self.running_interval(),
    {
        match self.phase {
            TickPhase::Finishing => match self.params.get(self.fired[0]) {
                Some(p) => p.interval,
                None => None,
            },
            _ => None,
        }
    }

    /// One step of a tick. The caller steps until it is told `Done`, and runs the
    /// callback of each timer that it is handed on the way.
    pub fn tick(&mut self, client: &mut TimerClient<C>, now: u128) -> (action: TickAction)
        requires
            old(self).wf(),
            old(client).wf(),
        ensures
            final(self).wf(),
            final(client).wf(),
            old(self).stepped(old(client), now, final(self), final(client), action),
    {
        match self.phase {
            TickPhase::Registering => if client.registrations.len() > 0 {
                self.register(client)
            } else {
                self.collect(client);
                TickAction::Continue
            },
            TickPhase::Dispatching => if self.fired.len() > 0 {
                let id: u32 = self.fired[0];
                if client.is_running(id) && self.params.get(id).is_some() {
                    self.phase = TickPhase::Finishing;
                    TickAction::Run(id)
                } else {
                    self.fired.remove(0);
                    assert(self.fired@ =~= old(self).fired@.skip(1));
                    TickAction::Continue
                }
            } else {
                self.phase = TickPhase::Registering;
                TickAction::Done
            },
            TickPhase::Finishing => {
                self.finish(client, now);
                TickAction::Continue
            },
        }
    }

    /// Takes in the oldest registration.
    fn register(&mut self, client: &mut TimerClient<C>) -> (action: TickAction)
        requires
            old(self).wf(),
            old(client).wf(),
            old(self).phase() == TickPhase::Registering,
            old(client).registrations().len() > 0,
        ensures
            final(self).wf(),
            final(client).wf(),
            old(self).registered(old(client), final(self), final(client), action),
    {
        broadcast use group_hash_axioms;

        let msg = client.registrations.remove(0);
        assert(client.registrations@ =~= old(client).registrations@.skip(1));
        let id: u32 = msg.id;
        if let Some(g) = msg.group_id {
            let mut members: Vec<u32> = match self.groups.remove(&g) {
                Some(v) => v,
                None => Vec::new(),
            };
            members.push(id);
            self.groups.insert(g, members);
            assert(self.groups() =~= with_member(old(self).groups(), msg.group_id, msg.id));
        }
        let exec: bool = msg.params.exec_immediately;
        self.params.put(id, msg.params);
        if exec {
            TickAction::Run(id)
        } else {
            TickAction::Continue
        }
    }

    /// Drops the parameters of destroyed timers and turns the reports into the list of
    /// timers to dispatch.
    fn collect(&mut self, client: &TimerClient<C>)
        requires
            old(self).wf(),
            old(self).phase() == TickPhase::Registering,
        ensures
            final(self).wf(),
            old(self).collected(client, final(self), client, TickAction::Continue),
    {
        let ghost due = |id: u32| client.may_fire(id);
        let mut fired: Vec<u32> = Vec::new();
        let mut i: usize = 0;
        while i < self.events.len()
            invariant
                i <= self.events.len(),
                due == (|id: u32| client.may_fire(id)),
                *self == *old(self),
                fired@ == self.events@.take(i as int).filter(due),
            decreases self.events.len() - i,
        {
            let id: u32 = self.events[i];
            proof {
                let seen = self.events@.take(i as int);
                assert(self.events@.take(i + 1) =~= seen.push(id));
                seen.lemma_filter_push(id, due);
            }
            if client.is_running(id) {
                fired.push(id);
            }
            i = i + 1;
        }
        assert(self.events@.take(i as int) =~= self.events@);
        self.params.keep_owned(&client.state);
        self.fired = fired;
        self.events.clear();
        self.phase = TickPhase::Dispatching;
    }

    /// Reschedules or forgets the timer whose callback has just run.
    fn finish(&mut self, client: &mut TimerClient<C>, now: u128)
        requires
            old(self).wf(),
            old(client).wf(),
            old(self).phase() == TickPhase::Finishing,
        ensures
            final(self).wf(),
            final(client).wf(),
            old(self).finished(old(client), now, final(self), final(client), TickAction::Continue),
    {
        let id: u32 = self.fired[0];
        let interval: Option<u128> = self.pending_interval();
        self.fired.remove(0);
        assert(self.fired@ =~= old(self).fired@.skip(1));
        self.phase = TickPhase::Dispatching;
        match interval {
            Some(period) => {
                let ghost before = client.state;
                match client.state.get_mut(id) {
                    Some(st) => {
                        st.remaining = period;
                    },
                    None => {},
                }
                proof {
                    if before.holds(id) {
                        let after = TimerState { remaining: period, ..before.at(id)->Some_0 };
                        assert(before.replaced(id, after, &client.state));
                        replaced_keeps_wf(before, id, after, client.state);
                    }
                }
                client.commands.push(WorkerCmd { id, deadline: now.saturating_add(period) });
            },
            None => {
                client.state.remove(id);
                self.params.remove(id);
            },
        }
    }
}

/// The timers that a panel created, so that they can be destroyed together.
pub struct TimerSet {
    ids: Vec<u32>,
}

/// The slots freed when the timers `ids[..n]` are destroyed one after the other.
pub open spec fn freed_by(slots: Seq<Option<TimerState>>, ids: Seq<u32>, n: nat) -> Seq<u32>
    decreases n,
{
    if n == 0 {
        Seq::empty()
    } else {
        let before = freed_by(slots, ids, (n - 1) as nat);
        let id = ids[n - 1];
        if id < slots.len() && slots[id as int] is Some && !ids.take(n - 1).contains(id) {
            before.push(id)
        } else {
            before
        }
    }
}

/// The slots with every timer of `ids` destroyed.
pub open spec fn slots_without(slots: Seq<Option<TimerState>>, ids: Seq<u32>) -> Seq<
    Option<TimerState>,
> {
    slots.map(
        |i: int, st: Option<TimerState>|
            if i <= u32::MAX && ids.contains(i as u32) {
                None
            } else {
                st
            },
    )
}

/// Any timer but `id`.
pub open spec fn other_than(id: u32) -> spec_fn(u32) -> bool {
    |i: u32| i != id
}

impl TimerSet {
    /// The cached identifiers, in creation order.
    pub closed spec fn ids(&self) -> Seq<u32> {
        self.ids@
    }

    /// Timer `id` has been created through the set, which remembers it.
    pub open spec fn created<C>(
        &self,
        client: &TimerClient<C>,
        params: TimerParams<C>,
        now: u128,
        id: u32,
        after: &Self,
        client_after: &TimerClient<C>,
    ) -> bool {
        &&& client.created(params, now, id, client_after)
        &&& after.ids() == self.ids().push(id)
    }

    /// Timer `id` has been destroyed through the set, which forgets it.
    pub open spec fn destroyed<C>(
        &self,
        client: &TimerClient<C>,
        id: u32,
        after: &Self,
        client_after: &TimerClient<C>,
    ) -> bool {
        &&& client.destroyed(id, client_after)
        &&& after.ids() == self.ids().filter(other_than(id))
    }

    /// All timers of the set have been destroyed.
    pub open spec fn cleared<C>(
        &self,
        client: &TimerClient<C>,
        after: &Self,
        client_after: &TimerClient<C>,
    ) -> bool {
        &&& client.cleared(self.ids(), client_after)
        &&& after.ids() == Seq::<u32>::empty()
    }

    /// A set without timers.
    pub fn new() -> (r: Self)
        ensures
            r.ids() == Seq::<u32>::empty(),
    {
        TimerSet { ids: Vec::new() }
    }

    /// Creates a timer and remembers it.
    pub fn create_timer<C>(
        &mut self,
        client: &mut TimerClient<C>,
        params: TimerParams<C>,
        now: u128,
    ) -> (id: u32)
        requires
            old(client).wf(),
        ensures
            final(client).wf(),
            old(self).created(old(client), params, now, id, final(self), final(client)),
    {
        let id: u32 = client.create_timer(params, now);
        self.ids.push(id);
        id
    }

    /// Destroys timer `id` and forgets it.
    pub fn destroy<C>(&mut self, client: &mut TimerClient<C>, id: u32)
        requires
            old(client).wf(),
        ensures
            final(client).wf(),
            old(self).destroyed(old(client), id, final(self), final(client)),
    {
        client.destroy(id);
        let ghost keep = other_than(id);
        let mut kept: Vec<u32> = Vec::new();
        let mut k: usize = 0;
        while k < self.ids.len()
            invariant
                k <= self.ids.len(),
                self.ids@ == old(self).ids@,
                keep == other_than(id),
                kept@ == self.ids@.take(k as int).filter(keep),
            decreases self.ids.len() - k,
        {
            let other: u32 = self.ids[k];
            proof {
                let seen = self.ids@.take(k as int);
                assert(self.ids@.take(k + 1) =~= seen.push(other));
                seen.lemma_filter_push(other, keep);
            }
            if other != id {
                kept.push(other);
            }
            k = k + 1;
        }
        assert(self.ids@.take(k as int) =~= self.ids@);
        self.ids = kept;
    }

    /// Destroys all timers of the set. The timers of others are left alone.
    pub fn clear<C>(&mut self, client: &mut TimerClient<C>)
        requires
            old(client).wf(),
        ensures
            final(client).wf(),
            old(self).cleared(old(client), final(self), final(client)),
    {
        let ghost before = client.state();
        let mut k: usize = 0;
        while k < self.ids.len()
            invariant
                k <= self.ids.len(),
                self.ids@ == old(self).ids@,
                before == old(client).state(),
                client.wf(),
                client.commands() == old(client).commands(),
                client.registrations() == old(client).registrations(),
                client.state().slots() == slots_without(before.slots(), self.ids@.take(k as int)),
                client.state().free() == before.free() + freed_by(
                    before.slots(),
                    self.ids@,
                    k as nat,
                ),
            decreases self.ids.len() - k,
        {
            let id: u32 = self.ids[k];
            let ghost mid = client.state();
            client.destroy(id);
            proof {
                lemma_destroy_next(before, mid, client.state(), self.ids@, k as nat);
            }
            k = k + 1;
        }
        assert(self.ids@.take(k as int) =~= self.ids@);
        self.ids.clear();
    }

    /// Pauses timer `id`.
    pub fn pause<C>(&self, client: &mut TimerClient<C>, id: u32)
        requires
            old(client).wf(),
        ensures
            final(client).wf(),
            old(client).paused(id, final(client)),
    {
        client.pause(id);
    }

    /// Resumes timer `id`.
    pub fn resume<C>(&self, client: &mut TimerClient<C>, id: u32, now: u128)
        requires
            old(client).wf(),
        ensures
            final(client).wf(),
            old(client).resumed(id, now, final(client)),
    {
        client.resume(id, now);
    }
}

proof fn lemma_destroy_next(
    before: SlotMap<TimerState>,
    mid: SlotMap<TimerState>,
    after: SlotMap<TimerState>,
    ids: Seq<u32>,
    k: nat,
)
    requires
        k < ids.len(),
        mid.slots() == slots_without(before.slots(), ids.take(k as int)),
        mid.free() == before.free() + freed_by(before.slots(), ids, k),
        mid.removed(ids[k as int], &after),
    ensures
        after.slots() == slots_without(before.slots(), ids.take((k + 1) as int)),
        after.free() == before.free() + freed_by(before.slots(), ids, k + 1),
{
    let id = ids[k as int];
    let seen = ids.take(k as int);
    let next = ids.take((k + 1) as int);
    assert(next =~= seen.push(id));
    assert forall|i: u32| #[trigger] next.contains(i) == (seen.contains(i) || i == id) by {
        vstd::seq_lib::lemma_seq_contains_after_push(seen, id, i);
    }
    assert forall|i: int| 0 <= i < before.slots().len() implies #[trigger] after.slots()[i]
        == slots_without(before.slots(), next)[i] by {
        assert(mid.slots()[i] == slots_without(before.slots(), seen)[i]);
        if i == id {
            assert(next.contains(i as u32));
        } else if i <= u32::MAX {
            assert(next.contains(i as u32) == seen.contains(i as u32));
        }
    }
    assert(after.slots() =~= slots_without(before.slots(), next));
    assert(ids.take((k + 1) - 1) =~= seen);
    assert(after.free() =~= before.free() + freed_by(before.slots(), ids, k + 1));
}

// ---------------------------------------------------------------------------
// Laws
// ---------------------------------------------------------------------------

/// A pause costs a timer nothing: the time from resumption to the new deadline is
/// the time that was left when the worker noticed the pause.
pub proof fn pause_keeps_the_time_left(
    deadline: u128,
    noticed: u128,
    resumed: u128,
    st: TimerState,
    new_deadline: u128,
)
    requires
        noticed <= deadline,
        st.remaining == time_left(deadline, noticed),
        new_deadline == resumed + st.remaining,
    ensures
        new_deadline - resumed == deadline - noticed,
{
}

/// Destroying a group leaves no timer of it, and no other timer changes.
pub proof fn group_is_gone(slots: Seq<Option<TimerState>>, group: u32, id: int)
    requires
        0 <= id < slots.len(),
    ensures
        ({
            let after = slots.map_values(
                |st: Option<TimerState>|
                    if in_group(st, group) {
                        None
                    } else {
                        st
                    },
            );
            &&& !in_group(after[id], group)
            &&& !in_group(slots[id], group) ==> after[id] == slots[id]
            &&& slots[id] matches Some(st) ==> (after[id] is None <==> st.group == Some(group))
        }),
{
}

/// The slots that a group gives up are those of its timers, each of them once.
pub proof fn group_gives_up_its_slots(
    slots: Seq<Option<TimerState>>,
    group: u32,
    n: nat,
    id: u32,
)
    requires
        n <= slots.len() <= SLOT_LIMIT,
    ensures
        group_members(slots, group, n).contains(id) <==> id < n && (slots[id as int] matches Some(st)
            && st.group == Some(group)),
        group_members(slots, group, n).no_duplicates(),
    decreases n,
{
    if n > 0 {
        let below = group_members(slots, group, (n - 1) as nat);
        let top = slot_number(n - 1);
        group_gives_up_its_slots(slots, group, (n - 1) as nat, id);
        group_gives_up_its_slots(slots, group, (n - 1) as nat, top);
        assert(top == n - 1);
        if in_group(slots[n - 1], group) {
            let all = below.push(top);
            assert(all[below.len() as int] == top);
            if below.contains(id) {
                let k = choose|k: int| 0 <= k < below.len() && below[k] == id;
                assert(all[k] == id);
            }
            if all.contains(id) {
                let k = choose|k: int| 0 <= k < all.len() && all[k] == id;
                assert(k < below.len() ==> below[k] == id);
            }
        }
    }
}

/// Clearing a set stops each of its timers and changes no other.
pub proof fn cleared_timers_are_gone(slots: Seq<Option<TimerState>>, ids: Seq<u32>, id: u32)
    requires
        id < slots.len(),
    ensures
        ids.contains(id) ==> slots_without(slots, ids)[id as int] is None,
        !ids.contains(id) ==> slots_without(slots, ids)[id as int] == slots[id as int],
{
}

/// A timer of a set is made as through the client, with the same identifier and the
/// same effect, and it is gone once the set is cleared.
pub proof fn set_timer_is_a_client_timer<C>(
    set: TimerSet,
    client: TimerClient<C>,
    params: TimerParams<C>,
    now: u128,
    id: u32,
    by_client: TimerClient<C>,
    set_id: u32,
    set_after: TimerSet,
    by_set: TimerClient<C>,
    set_cleared: TimerSet,
    cleared: TimerClient<C>,
)
    requires
        client.created(params, now, id, &by_client),
        set.created(&client, params, now, set_id, &set_after, &by_set),
        set_after.cleared(&by_set, &set_cleared, &cleared),
    ensures
        set_id == id,
        by_client.unchanged(&by_set),
        set_after.ids() == set.ids().push(id),
        set_cleared.ids() == Seq::<u32>::empty(),
        !cleared.state().holds(id),
{
    let ids = set_after.ids();
    assert(ids[ids.len() - 1] == id);
    assert(ids.contains(id));
    if id < cleared.state().slots().len() {
        assert(cleared.state().slots()[id as int] == slots_without(by_set.state().slots(), ids)[id as int]);
    }
}

/// Resuming a timer undoes its pause: every timer and registration is as before, and
/// one wake-up was sent, for the time that was left. A further resumption changes and
/// sends nothing.
pub proof fn resume_undoes_pause<C>(
    before: TimerClient<C>,
    id: u32,
    stopped: TimerClient<C>,
    now: u128,
    after: TimerClient<C>,
    later: u128,
    again: TimerClient<C>,
)
    requires
        before.may_fire(id),
        before.paused(id, &stopped),
        stopped.resumed(id, now, &after),
        after.resumed(id, later, &again),
    ensures
        after.state().slots() == before.state().slots(),
        after.state().free() == before.state().free(),
        after.registrations() == before.registrations(),
        after.commands() == before.commands().push(
            WorkerCmd { id, deadline: now.saturating_add(before.state().at(id)->Some_0.remaining) },
        ),
        after.unchanged(&again),
{
    assert(after.state().slots() =~= before.state().slots());
}

/// Destroying a timer ends it and changes no other, destroying one that is gone changes
/// nothing, and so destroying twice is destroying once. Two timers made afterwards have
/// different identifiers, unless every identifier but 0 is in use.
pub proof fn destroying_twice_is_destroying_once<C>(
    before: TimerClient<C>,
    id: u32,
    once: TimerClient<C>,
    twice: TimerClient<C>,
    other: u32,
    first: TimerParams<C>,
    first_now: u128,
    a: u32,
    between: TimerClient<C>,
    second: TimerParams<C>,
    second_now: u128,
    b: u32,
    after: TimerClient<C>,
)
    requires
        before.destroyed(id, &once),
        once.destroyed(id, &twice),
        other != id,
        twice.wf(),
        twice.created(first, first_now, a, &between),
        between.created(second, second_now, b, &after),
        twice.state().addressable(),
        !(twice.state().slots().len() == SLOT_LIMIT && twice.state().free() == seq![0u32]),
    ensures
        !once.state().holds(id),
        once.state().at(other) == before.state().at(other),
        !before.state().holds(id) ==> before.unchanged(&once),
        once.unchanged(&twice),
        a != b,
{
    let free = twice.state().free();
    let n = free.len();
    if n >= 2 {
        assert(free[n - 1] != free[n - 2]);
        assert(between.state().free().last() == free[n - 2]);
    } else if n == 1 {
        assert(free =~= seq![free[0]]);
        assert(free[0] < twice.state().slots().len());
    }
}

/// A set forgets a timer that it destroyed: when the identifier has gone to another
/// owner's timer, clearing the set leaves that timer as it is.
pub proof fn set_forgets_a_destroyed_timer<C>(
    set: TimerSet,
    client: TimerClient<C>,
    params: TimerParams<C>,
    now: u128,
    id: u32,
    set_with: TimerSet,
    made: TimerClient<C>,
    set_without: TimerSet,
    destroyed: TimerClient<C>,
    others: TimerParams<C>,
    others_now: u128,
    reused: TimerClient<C>,
    set_cleared: TimerSet,
    cleared: TimerClient<C>,
)
    requires
        client.wf(),
        set.created(&client, params, now, id, &set_with, &made),
        set_with.destroyed(&made, id, &set_without, &destroyed),
        destroyed.wf(),
        destroyed.created(others, others_now, id, &reused),
        set_without.cleared(&reused, &set_cleared, &cleared),
    ensures
        !destroyed.state().holds(id),
        reused.state().at(id) == Some(fresh_state(others.delay, others.group_id)),
        cleared.state().at(id) == reused.state().at(id),
{
    let keep = other_than(id);
    let ids = set_without.ids();
    assert(!ids.contains(id)) by {
        if ids.contains(id) {
            let k = choose|k: int| 0 <= k < ids.len() && ids[k] == id;
            set_with.ids().lemma_filter_pred(keep, k);
        }
    }
    let n = client.state().slots().len() as int;
    if client.state().free().len() > 0 {
        assert(client.state().free()[client.state().free().len() - 1] == id);
        assert(made.state().holds(id));
    } else if !made.state().holds(id) {
        assert(slot_number(n) == slot_number(n + 1));
    }
    assert(destroyed.state().free().len() > 0);
    assert(reused.state().holds(id));
    assert(cleared.state().slots()[id as int] == slots_without(reused.state().slots(), ids)[
        id as int
    ]);
}

} // verus!
