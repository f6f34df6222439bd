//! What every UI panel owns: its timers, its children and whether it is shown.

use vstd::prelude::*;

use crate::timer::{
    fresh_state, set_forgets_a_destroyed_timer, set_timer_is_a_client_timer, TimerClient, TimerId,
    TimerParams, TimerSet,
};

verus! {

/// The base of a panel whose children are of type `P`.
pub struct PanelBase<P> {
    /// The timers created through this panel.
    pub timers: TimerSet,
    /// Child panels.
    pub children: Vec<P>,
    /// Whether the panel is shown and active.
    pub visible: bool,
}

impl<P> PanelBase<P> {
    /// The panel shows the same children as before.
    pub open spec fn looks_like(&self, before: &Self) -> bool {
        self.children == before.children && self.visible == before.visible
    }

    /// Timer `id` has been created through the panel.
    pub open spec fn created<C>(
        &self,
        client: &TimerClient<C>,
        params: TimerParams<C>,
        now: u128,
        id: u32,
        after: &Self,
        client_after: &TimerClient<C>,
    ) -> bool {
        &&& self.timers.created(client, params, now, id, &after.timers, client_after)
        &&& after.looks_like(self)
    }

    /// Timer `id` has been destroyed through the panel.
    pub open spec fn destroyed<C>(
        &self,
        client: &TimerClient<C>,
        id: u32,
        after: &Self,
        client_after: &TimerClient<C>,
    ) -> bool {
        &&& self.timers.destroyed(client, id, &after.timers, client_after)
        &&& after.looks_like(self)
    }

    /// All timers of the panel have been destroyed.
    pub open spec fn cleared<C>(
        &self,
        client: &TimerClient<C>,
        after: &Self,
        client_after: &TimerClient<C>,
    ) -> bool {
        &&& self.timers.cleared(client, &after.timers, client_after)
        &&& after.looks_like(self)
    }

    /// A visible panel without timers or children.
    pub fn new() -> (r: Self)
        ensures
            r.timers.ids() == Seq::<u32>::empty(),
            r.children@ == Seq::<P>::empty(),
            r.visible,
    {
        PanelBase { timers: TimerSet::new(), children: Vec::new(), visible: true }
    }

    /// Creates a timer that `clear_timers` will destroy.
    pub fn create_timer<C>(
        &mut self,
        client: &mut TimerClient<C>,
        params: TimerParams<C>,
        now: u128,
    ) -> (id: TimerId)
        requires
            old(client).wf(),
        ensures
            final(client).wf(),
            old(self).created(old(client), params, now, id, final(self), final(client)),
    {
        self.timers.create_timer(client, params, now)
    }

    /// Destroys timer `id`.
    pub fn destroy_timer<C>(&mut self, client: &mut TimerClient<C>, id: TimerId)
        requires
            old(client).wf(),
        ensures
            final(client).wf(),
            old(self).destroyed(old(client), id, final(self), final(client)),
    {
        self.timers.destroy(client, id);
    }

    /// Pauses timer `id`.
    pub fn pause_timer<C>(&self, client: &mut TimerClient<C>, id: TimerId)
        requires
            old(client).wf(),
        ensures
            final(client).wf(),
            old(client).paused(id, final(client)),
    {
        self.timers.pause(client, id);
    }

    /// Resumes timer `id`.
    pub fn resume_timer<C>(&self, client: &mut TimerClient<C>, id: TimerId, now: u128)
        requires
            old(client).wf(),
        ensures
            final(client).wf(),
            old(client).resumed(id, now, final(client)),
    {
        self.timers.resume(client, id, now);
    }

    /// Destroys all timers of this panel; called when the panel closes.
    pub fn clear_timers<C>(&mut self, client: &mut TimerClient<C>)
        requires
            old(client).wf(),
        ensures
            final(client).wf(),
            old(self).cleared(old(client), final(self), final(client)),
    {
        self.timers.clear(client);
    }
}

/// A panel's timer is made as through the client, with the same identifier and the same
/// effect, the panel looks as before, and the timer is gone once the panel's timers are
/// cleared.
pub proof fn panel_timer_is_a_client_timer<P, C>(
    panel: PanelBase<P>,
    client: TimerClient<C>,
    params: TimerParams<C>,
    now: u128,
    id: u32,
    by_client: TimerClient<C>,
    panel_id: u32,
    panel_after: PanelBase<P>,
    by_panel: TimerClient<C>,
    panel_closed: PanelBase<P>,
    cleared: TimerClient<C>,
)
    requires
        client.created(params, now, id, &by_client),
        panel.created(&client, params, now, panel_id, &panel_after, &by_panel),
        panel_after.cleared(&by_panel, &panel_closed, &cleared),
    ensures
        panel_id == id,
        by_client.unchanged(&by_panel),
        panel_after.looks_like(&panel),
        panel_closed.looks_like(&panel),
        !cleared.state().holds(id),
{
    set_timer_is_a_client_timer(
        panel.timers,
        client,
        params,
        now,
        id,
        by_client,
        panel_id,
        panel_after.timers,
        by_panel,
        panel_closed.timers,
        cleared,
    );
}

/// A timer destroyed through a panel is gone, every other timer keeps its state, those of
/// the panel too, and the panel has forgotten it: when the identifier has gone to another
/// owner's timer, clearing the panel's timers leaves that timer as it is.
pub proof fn panel_forgets_a_destroyed_timer<P, C>(
    panel: PanelBase<P>,
    client: TimerClient<C>,
    params: TimerParams<C>,
    now: u128,
    id: u32,
    panel_with: PanelBase<P>,
    made: TimerClient<C>,
    panel_without: PanelBase<P>,
    destroyed: TimerClient<C>,
    other: u32,
    others: TimerParams<C>,
    others_now: u128,
    reused: TimerClient<C>,
    panel_cleared: PanelBase<P>,
    cleared: TimerClient<C>,
)
    requires
        client.wf(),
        panel.created(&client, params, now, id, &panel_with, &made),
        panel_with.destroyed(&made, id, &panel_without, &destroyed),
        other != id,
        destroyed.wf(),
        destroyed.created(others, others_now, id, &reused),
        panel_without.cleared(&reused, &panel_cleared, &cleared),
    ensures
        !destroyed.state().holds(id),
        destroyed.state().at(other) == made.state().at(other),
        reused.state().at(id) == Some(fresh_state(others.delay, others.group_id)),
        cleared.state().at(id) == reused.state().at(id),
        panel_cleared.looks_like(&panel),
{
    set_forgets_a_destroyed_timer(
        panel.timers,
        client,
        params,
        now,
        id,
        panel_with.timers,
        made,
        panel_without.timers,
        destroyed,
        others,
        others_now,
        reused,
        panel_cleared.timers,
        cleared,
    );
}

} // verus!
