//! Laws of the timers that span several calls: whose callback runs, and what a whole
//! tick does.

use vstd::prelude::*;

use crate::slot_map::insert_then_get;
use crate::timer::{
    fresh_state, wait_at, with_member, RegMsg, TickAction, TickPhase, TimerClient, TimerParams,
    TimerService, WorkerCmd, WorkerWait, SLEEP_CHUNK,
};

verus! {

/// The parameters that the newest pending registration of timer `id` carries.
pub open spec fn last_params<C>(queue: Seq<RegMsg<C>>, id: u32) -> Option<TimerParams<C>>
    decreases queue.len(),
{
    if queue.len() == 0 {
        None
    } else if queue.last().id == id {
        Some(queue.last().params)
    } else {
        last_params(queue.drop_last(), id)
    }
}

/// The service and the client at one moment.
pub ghost struct TimerWorld<C> {
    pub service: TimerService<C>,
    pub client: TimerClient<C>,
}

impl<C> TimerWorld<C> {
    /// The parameters of timer `id`: on their way to the service, or stored there.
    pub open spec fn given(self, id: u32) -> Option<TimerParams<C>> {
        match last_params(self.client.registrations(), id) {
            Some(p) => Some(p),
            None => if self.service.params().contains_key(id) {
                Some(self.service.params()[id])
            } else {
                None
            },
        }
    }
}

/// What can happen between two moments.
pub ghost enum TimerEvent<C> {
    /// A timer was created.
    Created { params: TimerParams<C>, now: u128, id: u32 },
    /// Timers were paused, resumed or destroyed, or a worker came by.
    Changed,
    /// The callback of a timer was run, and may have changed itself.
    Ran { id: u32 },
    /// The service took one step of a tick.
    Stepped { now: u128, action: TickAction },
}

/// `after` follows from `before` by `event`.
pub open spec fn follows<C>(
    before: TimerWorld<C>,
    event: TimerEvent<C>,
    after: TimerWorld<C>,
) -> bool {
    match event {
        TimerEvent::Created { params, now, id } => {
            &&& !before.client.state().holds(id)
            &&& before.client.created(params, now, id, &after.client)
            &&& after.service == before.service
        },
        TimerEvent::Changed => {
            &&& after.client.registrations() == before.client.registrations()
            &&& forall|id: u32|
                #[trigger] after.client.state().holds(id) ==> before.client.state().holds(id)
            &&& after.service.params() == before.service.params()
        },
        TimerEvent::Ran { id } => {
            &&& after.client == before.client
            &&& after.service.params().remove(id) == before.service.params().remove(id)
        },
        TimerEvent::Stepped { now, action } => before.service.stepped(
            &before.client,
            now,
            &after.service,
            &after.client,
            action,
        ),
    }
}

proof fn lemma_last_params_skip<C>(queue: Seq<RegMsg<C>>, id: u32)
    requires
        queue.len() > 0,
    ensures
        last_params(queue, id) == (match last_params(queue.skip(1), id) {
            Some(p) => Some(p),
            None => if queue[0].id == id {
                Some(queue[0].params)
            } else {
                None
            },
        }),
    decreases queue.len(),
{
    if queue.len() == 1 {
        assert(queue.skip(1) =~= Seq::empty());
        assert(queue.drop_last() =~= Seq::empty());
    } else {
        assert(queue.skip(1).last() == queue.last());
        assert(queue.skip(1).drop_last() =~= queue.drop_last().skip(1));
        assert(queue.drop_last()[0] == queue[0]);
        lemma_last_params_skip(queue.drop_last(), id);
    }
}

proof fn lemma_no_registration<C>(queue: Seq<RegMsg<C>>, id: u32)
    requires
        forall|k: int| 0 <= k < queue.len() ==> (#[trigger] queue[k]).id != id,
    ensures
        last_params(queue, id) is None,
    decreases queue.len(),
{
    if queue.len() > 0 {
        assert(queue[queue.len() - 1].id != id);
        assert forall|k: int| 0 <= k < queue.drop_last().len() implies (
        #[trigger] queue.drop_last()[k]).id != id by {
            assert(queue.drop_last()[k] == queue[k]);
        }
        lemma_no_registration(queue.drop_last(), id);
    }
}

/// A new timer is given the parameters that it was created with, and no other timer's
/// parameters change.
pub proof fn creation_gives_the_parameters<C>(
    before: TimerWorld<C>,
    params: TimerParams<C>,
    now: u128,
    id: u32,
    after: TimerWorld<C>,
    other: u32,
)
    requires
        follows(before, TimerEvent::Created { params, now, id }, after),
        other != id,
    ensures
        after.given(id) == Some(params),
        after.given(other) == before.given(other),
{
    let queue = after.client.registrations();
    assert(queue.drop_last() =~= before.client.registrations());
}

/// Whatever happens, a timer that still lives keeps the parameters that it was given;
/// only its own callback can change itself.
pub proof fn living_timer_keeps_its_parameters<C>(
    before: TimerWorld<C>,
    event: TimerEvent<C>,
    after: TimerWorld<C>,
    id: u32,
)
    requires
        follows(before, event, after),
        before.client.state().holds(id),
        after.client.state().holds(id),
        event != (TimerEvent::<C>::Ran { id }),
    ensures
        after.given(id) == before.given(id),
{
    match event {
        TimerEvent::Created { params, now, id: new } => {
            creation_gives_the_parameters(before, params, now, new, after, id);
        },
        TimerEvent::Changed => {},
        TimerEvent::Ran { id: other } => {
            let a = after.service.params();
            let b = before.service.params();
            assert(a.remove(other).contains_key(id) == b.remove(other).contains_key(id));
            if b.contains_key(id) {
                assert(a.remove(other)[id] == b.remove(other)[id]);
            }
        },
        TimerEvent::Stepped { now, action } => {
            if before.service.phase() == TickPhase::Registering
                && before.client.registrations().len() > 0 {
                lemma_last_params_skip(before.client.registrations(), id);
            }
        },
    }
}

/// The callback that runs for a due timer is the one that the timer was given. Where a
/// callback of the same tick has put a new timer into the slot, the new timer's
/// registration is still on its way, and the callback before it runs once more.
pub proof fn due_timer_runs_its_own_callback<C>(
    before: TimerWorld<C>,
    now: u128,
    action: TickAction,
    after: TimerWorld<C>,
    id: u32,
)
    requires
        before.service.phase() == TickPhase::Dispatching,
        follows(before, TimerEvent::Stepped { now, action }, after),
        action == TickAction::Run(id),
        !before.client.awaits(id),
    ensures
        after.service.params().contains_key(id),
        before.given(id) == Some(after.service.params()[id]),
{
    let queue = before.client.registrations();
    assert forall|k: int| 0 <= k < queue.len() implies (#[trigger] queue[k]).id != id by {
        assert(before.client.registrations()[k].id != id);
    }
    lemma_no_registration(queue, id);
}

/// The callback that runs when an immediate timer is registered is the one in its own
/// registration. Where that is the newest registration of the identifier, it is the one
/// that the timer was given.
pub proof fn immediate_timer_runs_its_own_callback<C>(
    before: TimerWorld<C>,
    now: u128,
    action: TickAction,
    after: TimerWorld<C>,
    id: u32,
)
    requires
        before.service.phase() == TickPhase::Registering,
        follows(before, TimerEvent::Stepped { now, action }, after),
        action == TickAction::Run(id),
    ensures
        before.client.registrations()[0].id == id,
        after.service.params().contains_key(id),
        after.service.params()[id] == before.client.registrations()[0].params,
        !after.client.awaits(id) ==> before.given(id) == Some(after.service.params()[id]),
{
    let queue = before.client.registrations();
    lemma_last_params_skip(queue, id);
    if !after.client.awaits(id) {
        let rest = after.client.registrations();
        assert forall|k: int| 0 <= k < rest.len() implies (#[trigger] rest[k]).id != id by {
            assert(after.client.registrations()[k].id != id);
        }
        lemma_no_registration(rest, id);
    }
}

/// A run of events that starts with the creation of timer `id` and through which the
/// timer lives. It may run at the last of the events, not before.
pub open spec fn life_of<C>(
    worlds: Seq<TimerWorld<C>>,
    events: Seq<TimerEvent<C>>,
    id: u32,
    params: TimerParams<C>,
    now: u128,
) -> bool {
    &&& events.len() > 0
    &&& worlds.len() == events.len() + 1
    &&& events[0] == (TimerEvent::Created { params, now, id })
    &&& forall|k: int|
        0 <= k < events.len() ==> #[trigger] follows(worlds[k], events[k], worlds[k + 1])
    &&& forall|k: int| 1 <= k < worlds.len() ==> (#[trigger] worlds[k]).client.state().holds(id)
    &&& forall|k: int|
        0 <= k < events.len() ==> #[trigger] events[k] != (TimerEvent::<C>::Ran { id })
}

/// From its creation on, through any other timers' creation, destruction and callbacks
/// and through any number of ticks, a living timer has the parameters that it was
/// created with. So the callback that runs for an identifier is the one that was given
/// when that identifier was created, once its registration has been taken in.
pub proof fn timer_has_the_callback_it_was_created_with<C>(
    worlds: Seq<TimerWorld<C>>,
    events: Seq<TimerEvent<C>>,
    id: u32,
    params: TimerParams<C>,
    now: u128,
    k: int,
)
    requires
        life_of(worlds, events, id, params, now),
        1 <= k < worlds.len(),
    ensures
        worlds[k].given(id) == Some(params),
        k < events.len() && worlds[k].service.phase() == TickPhase::Dispatching
            && !worlds[k].client.awaits(id) ==> match events[k] {
            TimerEvent::Stepped { now, action } => action == TickAction::Run(id)
                ==> worlds[k + 1].service.params()[id] == params,
            _ => true,
        },
        k < events.len() && worlds[k].service.phase() == TickPhase::Registering && !worlds[k
            + 1].client.awaits(id) ==> match events[k] {
            TimerEvent::Stepped { now, action } => action == TickAction::Run(id)
                ==> worlds[k + 1].service.params()[id] == params,
            _ => true,
        },
    decreases k,
{
    assert(follows(worlds[k - 1], events[k - 1], worlds[k - 1 + 1]));
    if k == 1 {
        let other: u32 = if id == 0 {
            1
        } else {
            0
        };
        creation_gives_the_parameters(worlds[0], params, now, id, worlds[1], other);
    } else {
        timer_has_the_callback_it_was_created_with(worlds, events, id, params, now, k - 1);
        assert(worlds[k - 1].client.state().holds(id));
        living_timer_keeps_its_parameters(worlds[k - 1], events[k - 1], worlds[k], id);
    }
    if k < events.len() {
        assert(follows(worlds[k], events[k], worlds[k + 1]));
        if let TimerEvent::Stepped { now: at, action } = events[k] {
            if worlds[k].service.phase() == TickPhase::Dispatching && !worlds[k].client.awaits(id)
                && action == TickAction::Run(id) {
                due_timer_runs_its_own_callback(worlds[k], at, action, worlds[k + 1], id);
            }
            if worlds[k].service.phase() == TickPhase::Registering && action == TickAction::Run(
                id,
            ) {
                immediate_timer_runs_its_own_callback(worlds[k], at, action, worlds[k + 1], id);
            }
        }
    }
}

/// One step of a tick: what the service and the client were before it and after it.
pub ghost struct TickStep<C> {
    pub service: TimerService<C>,
    pub client: TimerClient<C>,
    pub now: u128,
    pub action: TickAction,
    pub after: TimerService<C>,
    pub client_after: TimerClient<C>,
}

impl<C> TickStep<C> {
    pub open spec fn holds_good(self) -> bool {
        self.service.stepped(
            &self.client,
            self.now,
            &self.after,
            &self.client_after,
            self.action,
        )
    }

    /// `next` is the step after this one: the callback that was run in between, if any,
    /// has changed at most itself and, through the client, timers.
    pub open spec fn goes_on_with(self, next: Self) -> bool {
        &&& next.service.phase() == self.after.phase()
        &&& next.service.same_queues(&self.after)
        &&& next.service.groups() == self.after.groups()
        &&& next.service.params().dom() == self.after.params().dom()
    }
}

/// `steps` are the steps of a tick, from its start to the step that ends it.
pub open spec fn whole_tick<C>(steps: Seq<TickStep<C>>) -> bool {
    &&& steps.len() > 0
    &&& steps[0].service.phase() == TickPhase::Registering
    &&& forall|k: int| 0 <= k < steps.len() ==> (#[trigger] steps[k]).holds_good()
    &&& forall|k: int, n: int|
        0 <= k < steps.len() && n == k + 1 && n < steps.len()
            ==> #[trigger] steps[k].goes_on_with(#[trigger] steps[n])
    &&& forall|k: int|
        0 <= k < steps.len() ==> ((#[trigger] steps[k]).action == TickAction::Done <==> k
            == steps.len() - 1)
}

/// The callbacks that the tick runs leave the timers alone.
pub open spec fn undisturbed<C>(steps: Seq<TickStep<C>>) -> bool {
    forall|k: int, n: int|
        0 <= k < steps.len() && n == k + 1 && n < steps.len() ==> (#[trigger] steps[n]).client == (
        #[trigger] steps[k]).client_after
}

/// Timer `id` does not run at any moment of the tick.
pub open spec fn stopped_throughout<C>(steps: Seq<TickStep<C>>, id: u32) -> bool {
    forall|k: int| 0 <= k < steps.len() ==> !(#[trigger] steps[k]).client.may_fire(id)
}

proof fn lemma_tick_queues<C>(steps: Seq<TickStep<C>>, id: u32, k: int)
    requires
        whole_tick(steps),
        stopped_throughout(steps, id),
        0 <= k < steps.len(),
    ensures
        steps[k].service.phase() != TickPhase::Registering ==> steps[k].service.events()
            == Seq::<u32>::empty(),
        steps[k].service.phase() == TickPhase::Finishing ==> steps[k].service.fired()[0] != id,
    decreases k,
{
    if k > 0 {
        lemma_tick_queues(steps, id, k - 1);
        assert(steps[k - 1].holds_good());
        assert(!steps[k - 1].client.may_fire(id));
        assert(steps[k - 1].goes_on_with(steps[k]));
        assert(steps[k - 1].action != TickAction::Done);
    }
}

/// A timer that is paused or gone when a tick starts, and that no callback brings back
/// during it, is never run as due, whatever was reported. The tick leaves its state
/// alone and sends no wake-up for it, and the report is used up.
pub proof fn stopped_timer_sits_out_the_tick<C>(steps: Seq<TickStep<C>>, id: u32)
    requires
        whole_tick(steps),
        stopped_throughout(steps, id),
    ensures
        forall|k: int|
            0 <= k < steps.len() && (#[trigger] steps[k]).action == TickAction::Run(id)
                ==> steps[k].service.phase() == TickPhase::Registering,
        forall|k: int|
            0 <= k < steps.len() ==> (#[trigger] steps[k]).client_after.state().at(id)
                == steps[k].client.state().at(id),
        forall|k: int, j: int|
            0 <= k < steps.len() && steps[k].client.commands().len() <= j
                < steps[k].client_after.commands().len() ==> (
            #[trigger] steps[k].client_after.commands()[j]).id != id,
        steps.last().after.events() == Seq::<u32>::empty(),
{
    assert forall|k: int| 0 <= k < steps.len() implies {
        &&& (#[trigger] steps[k]).action == TickAction::Run(id) ==> steps[k].service.phase()
            == TickPhase::Registering
        &&& steps[k].client_after.state().at(id) == steps[k].client.state().at(id)
    } by {
        lemma_tick_queues(steps, id, k);
        assert(steps[k].holds_good());
        assert(!steps[k].client.may_fire(id));
    }
    assert forall|k: int, j: int|
        0 <= k < steps.len() && steps[k].client.commands().len() <= j
            < steps[k].client_after.commands().len() implies (
    #[trigger] steps[k].client_after.commands()[j]).id != id by {
        lemma_tick_queues(steps, id, k);
        assert(steps[k].holds_good());
    }
    let end = steps.len() - 1;
    lemma_tick_queues(steps, id, end);
    assert(steps[end].holds_good());
    assert(steps[end].action == TickAction::Done);
}

/// No timer has number `id` at any moment of the tick, and none is about to be registered
/// under it.
pub open spec fn absent_throughout<C>(steps: Seq<TickStep<C>>, id: u32) -> bool {
    forall|k: int|
        0 <= k < steps.len() ==> !(#[trigger] steps[k]).client.state().holds(id)
            && !steps[k].client.awaits(id)
}

proof fn lemma_absent_params<C>(steps: Seq<TickStep<C>>, id: u32, k: int)
    requires
        whole_tick(steps),
        absent_throughout(steps, id),
        0 <= k < steps.len(),
    ensures
        steps[k].service.phase() != TickPhase::Registering
            ==> !steps[k].service.params().contains_key(id),
    decreases k,
{
    if k > 0 {
        lemma_absent_params(steps, id, k - 1);
        assert(steps[k - 1].holds_good());
        assert(!steps[k - 1].client.state().holds(id));
        assert(steps[k - 1].goes_on_with(steps[k]));
        assert(steps[k].service.params().dom().contains(id) == steps[k
            - 1].after.params().dom().contains(id));
        assert(steps[k - 1].action != TickAction::Done);
    }
}

/// The callback of a destroyed timer is dropped by the next tick.
pub proof fn destroyed_callback_is_dropped<C>(steps: Seq<TickStep<C>>, id: u32)
    requires
        whole_tick(steps),
        absent_throughout(steps, id),
    ensures
        !steps.last().after.params().contains_key(id),
{
    let end = steps.len() - 1;
    lemma_absent_params(steps, id, end);
    assert(steps[end].holds_good());
    assert(steps[end].action == TickAction::Done);
}

/// An immediate timer runs exactly once in the tick that takes it in, and not as due:
/// the tick is its run, the look at an empty list of reports, and the end. The timer
/// lives on with its state unchanged, and no further wake-up is sent for it.
pub proof fn immediate_timer_runs_once<C>(steps: Seq<TickStep<C>>)
    requires
        whole_tick(steps),
        undisturbed(steps),
        steps[0].client.registrations().len() == 1,
        steps[0].client.registrations()[0].params.exec_immediately,
        steps[0].service.events() == Seq::<u32>::empty(),
    ensures
        steps.len() == 3,
        steps[0].action == TickAction::Run(steps[0].client.registrations()[0].id),
        steps[1].action == TickAction::Continue,
        steps[2].action == TickAction::Done,
        steps[2].client_after.state() == steps[0].client.state(),
        steps[2].client_after.commands() == steps[0].client.commands(),
        steps[2].client_after.registrations().len() == 0,
        steps[2].after.events() == Seq::<u32>::empty(),
        steps[2].after.phase() == TickPhase::Registering,
{
    assert(steps[0].holds_good());
    assert((steps[0].action == TickAction::Done) == (0 == steps.len() - 1));
    assert(steps[0].goes_on_with(steps[1]));
    assert(steps[1].client == steps[0].client_after);
    assert(steps[1].holds_good());
    lemma_quiet_collection(steps[1]);
    assert((steps[1].action == TickAction::Done) == (1 == steps.len() - 1));
    assert(steps[1].goes_on_with(steps[2]));
    assert(steps[2].client == steps[1].client_after);
    assert(steps[2].holds_good());
    assert((steps[2].action == TickAction::Done) == (2 == steps.len() - 1));
}

proof fn lemma_quiet_collection<C>(step: TickStep<C>)
    requires
        step.holds_good(),
        step.service.phase() == TickPhase::Registering,
        step.client.registrations().len() == 0,
        step.service.events() == Seq::<u32>::empty(),
    ensures
        step.action == TickAction::Continue,
        step.after.phase() == TickPhase::Dispatching,
        step.after.fired().len() == 0,
        step.after.events() == Seq::<u32>::empty(),
        step.client_after == step.client,
{
    let due = |id: u32| step.client.may_fire(id);
    assert(step.service.events().filter(due).len() == 0) by {
        reveal(Seq::filter);
    }
}

/// A tick without registrations and reports runs nothing and changes no timer: so a
/// timer does not run again before a worker reports it as due.
pub proof fn quiet_tick_runs_nothing<C>(steps: Seq<TickStep<C>>)
    requires
        whole_tick(steps),
        undisturbed(steps),
        steps[0].client.registrations().len() == 0,
        steps[0].service.events() == Seq::<u32>::empty(),
    ensures
        steps.len() == 2,
        steps[0].action == TickAction::Continue,
        steps[1].action == TickAction::Done,
        steps[1].client_after == steps[0].client,
        steps[1].after.events() == Seq::<u32>::empty(),
{
    assert(steps[0].holds_good());
    lemma_quiet_collection(steps[0]);
    assert((steps[0].action == TickAction::Done) == (0 == steps.len() - 1));
    assert(steps[0].goes_on_with(steps[1]));
    assert(steps[1].client == steps[0].client_after);
    assert(steps[1].holds_good());
    assert((steps[1].action == TickAction::Done) == (1 == steps.len() - 1));
}

// ---------------------------------------------------------------------------
// When a timer comes due
// ---------------------------------------------------------------------------

/// A worker never oversleeps: it calls its timer expired from the deadline on and not
/// before, and a sleep ends by the deadline and lasts no longer than a chunk.
pub proof fn worker_wakes_in_time(deadline: u128, now: u128)
    ensures
        match wait_at(deadline, now) {
            WorkerWait::Expired => deadline <= now,
            WorkerWait::Sleep(time) => {
                &&& 0 < time <= SLEEP_CHUNK
                &&& now + time <= deadline
                &&& now + time < deadline ==> time == SLEEP_CHUNK
            },
        },
{
}

/// A new timer runs, and its worker calls it expired as soon as the delay has passed and
/// not before.
pub proof fn new_timer_comes_due_after_its_delay<C>(
    client: TimerClient<C>,
    params: TimerParams<C>,
    now: u128,
    id: u32,
    after: TimerClient<C>,
    then: u128,
)
    requires
        client.wf(),
        client.state().has_room(),
        client.created(params, now, id, &after),
        now + params.delay <= u128::MAX,
    ensures
        after.may_fire(id),
        after.state().at(id)->Some_0.remaining == params.delay,
        after.state().at(id)->Some_0.group == params.group_id,
        after.commands().len() == client.commands().len() + 1,
        after.commands().last().id == id,
        wait_at(after.commands().last().deadline, then) is Expired <==> now + params.delay <= then,
{
    insert_then_get(client.state(), fresh_state(params.delay, params.group_id), after.state(), 0);
}

/// A worker goes on for a running timer and stops for another one. What a paused timer
/// has left is recorded: up to the deadline it is the time that is missing to it.
pub proof fn worker_records_what_is_missing<C>(
    client: TimerClient<C>,
    cmd: WorkerCmd,
    now: u128,
    stop: bool,
    after: TimerClient<C>,
)
    requires
        client.wf(),
        client.looked_at(cmd, now, stop, &after),
    ensures
        client.may_fire(cmd.id) ==> !stop && client.unchanged(&after),
        client.state().at(cmd.id) is None ==> stop && client.unchanged(&after),
        match (client.state().at(cmd.id), after.state().at(cmd.id)) {
            (Some(st), Some(left)) => {
                &&& left.alive == st.alive
                &&& left.paused == st.paused
                &&& left.group == st.group
                &&& st.alive && st.paused && now <= cmd.deadline ==> stop && now + left.remaining
                    == cmd.deadline
                &&& st.alive && st.paused && cmd.deadline < now ==> stop && left.remaining == 0
            },
            (None, None) => true,
            _ => false,
        },
{
}

// ---------------------------------------------------------------------------
// What a step does
// ---------------------------------------------------------------------------

/// The reports are taken one by one: a running timer's report is kept, another one's is
/// dropped, and of two lists the earlier comes out first.
pub proof fn reports_are_taken_one_by_one<C>(
    first: TimerService<C>,
    second: TimerService<C>,
    both: TimerService<C>,
    client: TimerClient<C>,
    after_first: TimerService<C>,
    after_second: TimerService<C>,
    after_both: TimerService<C>,
    id: u32,
)
    requires
        first.collected(&client, &after_first, &client, TickAction::Continue),
        second.collected(&client, &after_second, &client, TickAction::Continue),
        both.collected(&client, &after_both, &client, TickAction::Continue),
        both.events() == first.events() + second.events(),
    ensures
        after_both.fired() == after_first.fired() + after_second.fired(),
        first.events() == Seq::<u32>::empty() ==> after_first.fired() == Seq::<u32>::empty(),
        first.events() == seq![id] && client.may_fire(id) ==> after_first.fired() == seq![id],
        first.events() == seq![id] && !client.may_fire(id) ==> after_first.fired() == Seq::<
            u32,
        >::empty(),
        after_first.events() == Seq::<u32>::empty(),
{
    let runs = |id: u32| client.may_fire(id);
    Seq::filter_distributes_over_add(first.events(), second.events(), runs);
    reveal(Seq::filter);
    reveal_with_fuel(Seq::filter, 2);
    assert(seq![id].drop_last() =~= Seq::<u32>::empty());
    assert(seq![id].last() == id);
    assert(Seq::<u32>::empty().push(id) =~= seq![id]);
}

/// Looking at the reports drops the parameters of the timers that are gone, and changes
/// those of no other timer.
pub proof fn parameters_of_gone_timers_are_dropped<C>(
    before: TimerService<C>,
    client: TimerClient<C>,
    after: TimerService<C>,
    id: u32,
)
    requires
        before.collected(&client, &after, &client, TickAction::Continue),
    ensures
        after.params().contains_key(id) <==> before.params().contains_key(id)
            && client.state().holds(id),
        after.params().contains_key(id) ==> after.params()[id] == before.params()[id],
        after.groups() == before.groups(),
        after.phase() == TickPhase::Dispatching,
{
}

/// The first due timer runs where it is still running and registered, and it leaves the
/// list either way: at once, or with the step after its run.
pub proof fn due_timer_runs_once<C>(
    before: TimerService<C>,
    client: TimerClient<C>,
    now: u128,
    middle: TimerService<C>,
    client_middle: TimerClient<C>,
    action: TickAction,
    later: u128,
    after: TimerService<C>,
    client_after: TimerClient<C>,
    next: TickAction,
)
    requires
        before.phase() == TickPhase::Dispatching,
        before.fired().len() > 0,
        before.stepped(&client, now, &middle, &client_middle, action),
        action is Run ==> middle.stepped(&client_middle, later, &after, &client_after, next),
    ensures
        action == TickAction::Run(before.fired()[0]) <==> client.may_fire(before.fired()[0])
            && before.params().contains_key(before.fired()[0]),
        action is Run ==> after.fired() == before.fired().skip(1) && next == TickAction::Continue
            && after.phase() == TickPhase::Dispatching,
        !(action is Run) ==> middle.fired() == before.fired().skip(1) && middle.phase()
            == TickPhase::Dispatching,
        client_middle == client,
{
}

/// After its run a repeating timer comes due again once its period has passed and not
/// before, keeps its parameters and whether it is paused; another timer is gone.
pub proof fn timer_that_ran_repeats_or_goes<C>(
    before: TimerService<C>,
    client: TimerClient<C>,
    now: u128,
    after: TimerService<C>,
    client_after: TimerClient<C>,
    action: TickAction,
    then: u128,
)
    requires
        before.wf(),
        client.wf(),
        before.phase() == TickPhase::Finishing,
        before.stepped(&client, now, &after, &client_after, action),
    ensures
        ({
            let id = before.fired()[0];
            match before.params()[id].interval {
                Some(period) => {
                    &&& now + period <= u128::MAX ==> {
                        &&& client_after.commands().len() == client.commands().len() + 1
                        &&& client_after.commands().last().id == id
                        &&& wait_at(client_after.commands().last().deadline, then) is Expired
                            <==> now + period <= then
                    }
                    &&& client_after.may_fire(id) == client.may_fire(id)
                    &&& client.state().holds(id) ==> client_after.state().holds(id)
                        && client_after.state().at(id)->Some_0.remaining == period
                    &&& after.params().contains_key(id)
                    &&& after.params()[id] == before.params()[id]
                },
                None => {
                    &&& !client_after.state().holds(id)
                    &&& !after.params().contains_key(id)
                    &&& client_after.commands() == client.commands()
                },
            }
        }),
{
}

/// A registered timer is the last of its group, behind those that were in it, and no
/// other group changes.
pub proof fn registered_timer_joins_its_group(
    groups: Map<u32, Seq<u32>>,
    group: u32,
    other: u32,
    id: u32,
)
    requires
        other != group,
    ensures
        with_member(groups, None, id) == groups,
        ({
            let after = with_member(groups, Some(group), id);
            &&& after.contains_key(group)
            &&& after[group].len() > 0
            &&& after[group].last() == id
            &&& groups.contains_key(group) ==> after[group].drop_last() == groups[group]
            &&& !groups.contains_key(group) ==> after[group].len() == 1
            &&& after.contains_key(other) == groups.contains_key(other)
            &&& groups.contains_key(other) ==> after[other] == groups[other]
        }),
{
    if groups.contains_key(group) {
        assert(groups[group].push(id).drop_last() =~= groups[group]);
    }
}

} // verus!
