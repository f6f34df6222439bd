//! In which order elements are laid out, and against what.

use vstd::prelude::*;

verus! {

/// Size of the screen where none is known.
pub const DEFAULT_SCREEN_WIDTH: u32 = 1920;

pub const DEFAULT_SCREEN_HEIGHT: u32 = 1080;

/// An element to lay out: its number, and that of the element it stands in.
#[derive(Clone, Copy, Debug, PartialEq, Eq, Structural)]
pub struct LayoutEntry {
    pub entity: u32,
    pub parent: Option<u32>,
}

/// What an element is laid out against.
#[derive(Clone, Copy, Debug, PartialEq, Eq, Structural)]
pub enum Container {
    /// The whole screen.
    Screen,
    /// The rectangle that another element has at that moment.
    Element(u32),
}

/// One element to lay out.
#[derive(Clone, Copy, Debug, PartialEq, Eq, Structural)]
pub struct LayoutStep {
    pub entity: u32,
    pub container: Container,
}

/// The element can be laid out: it stands on the screen, or in an element that has a
/// rectangle.
pub open spec fn can_be_laid_out(entry: LayoutEntry, with_rect: Seq<u32>) -> bool {
    match entry.parent {
        Some(parent) => with_rect.contains(parent),
        None => true,
    }
}

/// What laying out an element does.
pub open spec fn step_of(entry: LayoutEntry) -> LayoutStep {
    LayoutStep {
        entity: entry.entity,
        container: match entry.parent {
            Some(parent) => Container::Element(parent),
            None => Container::Screen,
        },
    }
}

/// The elements that can be laid out, in the order of the queue.
pub open spec fn placed(queue: Seq<LayoutEntry>, with_rect: Seq<u32>) -> Seq<LayoutEntry> {
    queue.filter(|entry: LayoutEntry| can_be_laid_out(entry, with_rect))
}

/// `entity` is among the elements of `list`.
pub open spec fn lists_entity(list: Seq<LayoutEntry>, entity: u32) -> bool {
    exists|k: int| 0 <= k < list.len() && (#[trigger] list[k]).entity == entity
}

/// The element stands in one of the elements of `list`.
pub open spec fn waits(entry: LayoutEntry, list: Seq<LayoutEntry>) -> bool {
    entry.parent matches Some(parent) && lists_entity(list, parent)
}

/// The elements of `list` that stand in none of its elements, in their order.
pub open spec fn ready(list: Seq<LayoutEntry>) -> Seq<LayoutEntry> {
    list.filter(|entry: LayoutEntry| !waits(entry, list))
}

/// The elements of `list` that stand in one of its elements, in their order.
pub open spec fn waiting(list: Seq<LayoutEntry>) -> Seq<LayoutEntry> {
    list.filter(|entry: LayoutEntry| waits(entry, list))
}

/// The order in which the elements of `list` are laid out: first those that stand in none
/// of the others, then those that stand in the first ones, and so on. Elements that stand
/// in each other in a ring come last, in the order of the list.
pub open spec fn parents_first(list: Seq<LayoutEntry>) -> Seq<LayoutEntry>
    decreases list.len(),
    via parents_first_ends
{
    if ready(list).len() == 0 {
        list
    } else {
        ready(list) + parents_first(waiting(list))
    }
}

#[via_fn]
proof fn parents_first_ends(list: Seq<LayoutEntry>) {
    lemma_split_ready(list);
}

proof fn lemma_split_ready(list: Seq<LayoutEntry>)
    ensures
        ready(list).len() + waiting(list).len() == list.len(),
        ready(list).to_multiset().add(waiting(list).to_multiset()) == list.to_multiset(),
{
    let free = |entry: LayoutEntry| !waits(entry, list);
    lemma_split(list, free);
    lemma_same_filter(list, |entry: LayoutEntry| waits(entry, list), |e: LayoutEntry| !free(e));
}

proof fn lemma_same_filter(
    list: Seq<LayoutEntry>,
    p: spec_fn(LayoutEntry) -> bool,
    q: spec_fn(LayoutEntry) -> bool,
)
    requires
        forall|e: LayoutEntry| #[trigger] p(e) == q(e),
    ensures
        list.filter(p) == list.filter(q),
    decreases list.len(),
{
    reveal(Seq::filter);
    if list.len() > 0 {
        lemma_same_filter(list.drop_last(), p, q);
        assert(p(list.last()) == q(list.last()));
    }
}

proof fn lemma_split(list: Seq<LayoutEntry>, p: spec_fn(LayoutEntry) -> bool)
    ensures
        ({
            let yes = list.filter(p);
            let no = list.filter(|e: LayoutEntry| !p(e));
            &&& yes.len() + no.len() == list.len()
            &&& yes.to_multiset().add(no.to_multiset()) == list.to_multiset()
        }),
    decreases list.len(),
{
    broadcast use vstd::seq_lib::group_to_multiset_ensures;

    reveal(Seq::filter);
    let not_p = |e: LayoutEntry| !p(e);
    if list.len() > 0 {
        let last = list.last();
        let front = list.drop_last();
        lemma_split(front, p);
        assert(list =~= front.push(last));
        assert(list.to_multiset() =~= front.to_multiset().insert(last));
        if p(last) {
            assert(list.filter(p) == front.filter(p).push(last));
            assert(list.filter(not_p) == front.filter(not_p));
        } else {
            assert(list.filter(p) == front.filter(p));
            assert(list.filter(not_p) == front.filter(not_p).push(last));
        }
        assert(list.filter(p).to_multiset().add(list.filter(not_p).to_multiset())
            =~= list.to_multiset());
    } else {
        assert(list.filter(p).to_multiset().add(list.filter(not_p).to_multiset())
            =~= list.to_multiset());
    }
}

/// What laying out the elements of `list` in their order does.
pub open spec fn steps_of(list: Seq<LayoutEntry>) -> Seq<LayoutStep> {
    list.map_values(|entry: LayoutEntry| step_of(entry))
}

/// The elements to lay out in a frame, in the order in which it is done.
pub open spec fn layout_order(queue: Seq<LayoutEntry>, with_rect: Seq<u32>) -> Seq<LayoutEntry> {
    parents_first(placed(queue, with_rect))
}

fn has_rect(with_rect: &Vec<u32>, entity: u32) -> (r: bool)
    ensures
        r == with_rect@.contains(entity),
{
    let mut i: usize = 0;
    while i < with_rect.len()
        invariant
            i <= with_rect.len(),
            forall|k: int| 0 <= k < i ==> with_rect@[k] != entity,
        decreases with_rect.len() - i,
    {
        if with_rect[i] == entity {
            return true;
        }
        i = i + 1;
    }
    false
}

fn is_listed(list: &Vec<LayoutEntry>, entity: u32) -> (r: bool)
    ensures
        r == lists_entity(list@, entity),
{
    let mut i: usize = 0;
    while i < list.len()
        invariant
            i <= list.len(),
            forall|k: int| 0 <= k < i ==> (#[trigger] list@[k]).entity != entity,
        decreases list.len() - i,
    {
        if list[i].entity == entity {
            return true;
        }
        i = i + 1;
    }
    false
}

fn can_place(entry: LayoutEntry, with_rect: &Vec<u32>) -> (r: bool)
    ensures
        r == can_be_laid_out(entry, with_rect@),
{
    match entry.parent {
        Some(parent) => has_rect(with_rect, parent),
        None => true,
    }
}

fn is_waiting(entry: LayoutEntry, list: &Vec<LayoutEntry>) -> (r: bool)
    ensures
        r == waits(entry, list@),
{
    match entry.parent {
        Some(parent) => is_listed(list, parent),
        None => false,
    }
}

/// Splits a list into the elements that stand in none of its elements and the others.
fn split_ready(list: &Vec<LayoutEntry>) -> (r: (Vec<LayoutEntry>, Vec<LayoutEntry>))
    ensures
        r.0@ == ready(list@),
        r.1@ == waiting(list@),
{
    let ghost free = |entry: LayoutEntry| !waits(entry, list@);
    let ghost bound = |entry: LayoutEntry| waits(entry, list@);
    let mut first: Vec<LayoutEntry> = Vec::new();
    let mut rest: Vec<LayoutEntry> = Vec::new();
    let mut i: usize = 0;
    proof {
        reveal(Seq::filter);
    }
    while i < list.len()
        invariant
            i <= list.len(),
            free == (|entry: LayoutEntry| !waits(entry, list@)),
            bound == (|entry: LayoutEntry| waits(entry, list@)),
            first@ == list@.take(i as int).filter(free),
            rest@ == list@.take(i as int).filter(bound),
        decreases list.len() - i,
    {
        let entry = list[i];
        proof {
            let seen = list@.take(i as int);
            assert(list@.take(i + 1) =~= seen.push(entry));
            seen.lemma_filter_push(entry, free);
            seen.lemma_filter_push(entry, bound);
        }
        if is_waiting(entry, list) {
            rest.push(entry);
        } else {
            first.push(entry);
        }
        i = i + 1;
    }
    assert(list@.take(i as int) =~= list@);
    (first, rest)
}

/// Plans the layout of a frame: every element that can be laid out, parents before
/// their children.
pub fn ui_layout_system(queue: &Vec<LayoutEntry>, with_rect: &Vec<u32>) -> (r: Vec<LayoutStep>)
    ensures
        r@ == steps_of(layout_order(queue@, with_rect@)),
{
    let ghost fits = |entry: LayoutEntry| can_be_laid_out(entry, with_rect@);
    let mut remaining: Vec<LayoutEntry> = Vec::new();
    let mut i: usize = 0;
    proof {
        reveal(Seq::filter);
    }
    while i < queue.len()
        invariant
            i <= queue.len(),
            fits == (|entry: LayoutEntry| can_be_laid_out(entry, with_rect@)),
            remaining@ == queue@.take(i as int).filter(fits),
        decreases queue.len() - i,
    {
        let entry = queue[i];
        proof {
            let seen = queue@.take(i as int);
            assert(queue@.take(i + 1) =~= seen.push(entry));
            seen.lemma_filter_push(entry, fits);
        }
        if can_place(entry, with_rect) {
            remaining.push(entry);
        }
        i = i + 1;
    }
    assert(queue@.take(i as int) =~= queue@);
    let ghost order = layout_order(queue@, with_rect@);
    let mut steps: Vec<LayoutStep> = Vec::new();
    let ghost mut done: Seq<LayoutEntry> = Seq::empty();
    assert(order =~= done + parents_first(remaining@));
    loop
        invariant
            order == done + parents_first(remaining@),
            steps@ == steps_of(done),
        ensures
            order == done + remaining@,
            steps@ == steps_of(done),
        decreases remaining@.len(),
    {
        let (first, rest) = split_ready(&remaining);
        if first.len() == 0 {
            break;
        }
        proof {
            lemma_split_ready(remaining@);
            assert(order =~= (done + first@) + parents_first(rest@));
        }
        push_steps(&mut steps, &first);
        proof {
            assert(steps@ =~= steps_of(done + first@));
            done = done + first@;
        }
        remaining = rest;
    }
    push_steps(&mut steps, &remaining);
    assert(steps@ =~= steps_of(order));
    steps
}

/// Appends what laying out the elements of `list` does.
fn push_steps(steps: &mut Vec<LayoutStep>, list: &Vec<LayoutEntry>)
    ensures
        final(steps)@ == old(steps)@ + steps_of(list@),
{
    let ghost before = steps@;
    let mut i: usize = 0;
    assert(steps@ =~= before + steps_of(list@).take(0));
    while i < list.len()
        invariant
            i <= list.len(),
            steps@ == before + steps_of(list@).take(i as int),
        decreases list.len() - i,
    {
        let entry = list[i];
        let container = match entry.parent {
            Some(parent) => Container::Element(parent),
            None => Container::Screen,
        };
        steps.push(LayoutStep { entity: entry.entity, container });
        i = i + 1;
        assert(steps@ =~= before + steps_of(list@).take(i as int));
    }
    assert(steps_of(list@).take(i as int) =~= steps_of(list@));
}

/// Every element that can be laid out is laid out, as often as it stands in the queue,
/// and nothing else is.
pub proof fn every_placed_element_is_laid_out(queue: Seq<LayoutEntry>, with_rect: Seq<u32>)
    ensures
        layout_order(queue, with_rect).to_multiset() == placed(queue, with_rect).to_multiset(),
        steps_of(layout_order(queue, with_rect)).len() == placed(queue, with_rect).len(),
{
    lemma_order_is_complete(placed(queue, with_rect));
}

proof fn lemma_order_is_complete(list: Seq<LayoutEntry>)
    ensures
        parents_first(list).to_multiset() == list.to_multiset(),
        parents_first(list).len() == list.len(),
    decreases list.len(),
{
    broadcast use vstd::seq_lib::group_to_multiset_ensures;

    if ready(list).len() > 0 {
        lemma_split_ready(list);
        lemma_order_is_complete(waiting(list));
        vstd::seq_lib::lemma_multiset_commutative(ready(list), parents_first(waiting(list)));
    }
}

/// The parents of the elements lead up to one that stands in none of the others: `rank`
/// says how far each is from there.
pub open spec fn ranked(list: Seq<LayoutEntry>, rank: spec_fn(u32) -> nat) -> bool {
    forall|k: int|
        0 <= k < list.len() && waits(#[trigger] list[k], list) ==> rank(list[k].parent->Some_0)
            < rank(list[k].entity)
}

proof fn lemma_filter_within(list: Seq<LayoutEntry>, p: spec_fn(LayoutEntry) -> bool, k: int)
    requires
        0 <= k < list.filter(p).len(),
    ensures
        list.contains(list.filter(p)[k]),
    decreases list.len(),
{
    reveal(Seq::filter);
    let front = list.drop_last();
    if k < front.filter(p).len() {
        lemma_filter_within(front, p, k);
        let at = choose|j: int| 0 <= j < front.len() && front[j] == front.filter(p)[k];
        assert(list[at] == list.filter(p)[k]);
    } else {
        assert(list[list.len() - 1] == list.filter(p)[k]);
    }
}

proof fn lemma_filter_keeps(list: Seq<LayoutEntry>, p: spec_fn(LayoutEntry) -> bool, k: int)
    requires
        0 <= k < list.filter(p).len(),
    ensures
        p(list.filter(p)[k]),
        list.contains(list.filter(p)[k]),
{
    list.lemma_filter_pred(p, k);
    lemma_filter_within(list, p, k);
}

proof fn lemma_someone_is_ready(list: Seq<LayoutEntry>, rank: spec_fn(u32) -> nat, k: int)
    requires
        ranked(list, rank),
        0 <= k < list.len(),
    ensures
        ready(list).len() > 0,
    decreases rank(list[k].entity),
{
    let free = |entry: LayoutEntry| !waits(entry, list);
    if waits(list[k], list) {
        let parent = list[k].parent->Some_0;
        let up = choose|j: int| 0 <= j < list.len() && (#[trigger] list[j]).entity == parent;
        lemma_someone_is_ready(list, rank, up);
    } else {
        list.lemma_filter_contains(free, k);
        assert(ready(list).contains(list[k]));
    }
}

proof fn lemma_waiting_is_ranked(list: Seq<LayoutEntry>, rank: spec_fn(u32) -> nat)
    requires
        ranked(list, rank),
    ensures
        ranked(waiting(list), rank),
{
    let bound = |entry: LayoutEntry| waits(entry, list);
    let rest = waiting(list);
    assert forall|k: int| 0 <= k < rest.len() && waits(#[trigger] rest[k], rest) implies rank(
        rest[k].parent->Some_0,
    ) < rank(rest[k].entity) by {
        lemma_filter_keeps(list, bound, k);
        let at = choose|j: int| 0 <= j < list.len() && list[j] == rest[k];
        assert(waits(list[at], list));
    }
}

proof fn lemma_order_within(list: Seq<LayoutEntry>, k: int)
    requires
        0 <= k < parents_first(list).len(),
    ensures
        list.contains(parents_first(list)[k]),
    decreases list.len(),
{
    if ready(list).len() > 0 {
        let n = ready(list).len();
        if k < n {
            lemma_filter_keeps(list, |entry: LayoutEntry| !waits(entry, list), k);
        } else {
            lemma_split_ready(list);
            lemma_order_within(waiting(list), k - n);
            let e = parents_first(list)[k];
            let at = choose|j: int| 0 <= j < waiting(list).len() && waiting(list)[j] == e;
            lemma_filter_keeps(list, |entry: LayoutEntry| waits(entry, list), at);
        }
    }
}

proof fn lemma_parent_first(
    list: Seq<LayoutEntry>,
    rank: spec_fn(u32) -> nat,
    parent: int,
    child: int,
)
    requires
        ranked(list, rank),
        0 <= parent < parents_first(list).len(),
        0 <= child < parents_first(list).len(),
        parents_first(list)[child].parent == Some(parents_first(list)[parent].entity),
    ensures
        parent < child,
    decreases list.len(),
{
    let order = parents_first(list);
    lemma_order_within(list, child);
    let any = choose|j: int| 0 <= j < list.len() && list[j] == order[child];
    lemma_someone_is_ready(list, rank, any);
    let n = ready(list).len();
    if child < n {
        lemma_filter_keeps(list, |entry: LayoutEntry| !waits(entry, list), child);
        lemma_order_within(list, parent);
        let at = choose|j: int| 0 <= j < list.len() && list[j] == order[parent];
        assert(list[at].entity == order[parent].entity);
        assert(waits(order[child], list));
    } else if parent >= n {
        lemma_split_ready(list);
        lemma_waiting_is_ranked(list, rank);
        lemma_parent_first(waiting(list), rank, parent - n, child - n);
    }
}

/// Every child whose parent is laid out in the same frame is laid out after it, wherever
/// the two stand in the queue, and so against the rectangle that the parent gets in that
/// frame. Elements that stand in each other in a ring have no such order.
pub proof fn parents_are_laid_out_first(
    queue: Seq<LayoutEntry>,
    with_rect: Seq<u32>,
    rank: spec_fn(u32) -> nat,
    parent: int,
    child: int,
)
    requires
        ranked(placed(queue, with_rect), rank),
        0 <= parent < layout_order(queue, with_rect).len(),
        0 <= child < layout_order(queue, with_rect).len(),
        layout_order(queue, with_rect)[child].parent == Some(
            layout_order(queue, with_rect)[parent].entity,
        ),
    ensures
        parent < child,
        steps_of(layout_order(queue, with_rect))[child].container == Container::Element(
            layout_order(queue, with_rect)[parent].entity,
        ),
{
    lemma_parent_first(placed(queue, with_rect), rank, parent, child);
}

/// An element is laid out exactly where it stands in the queue and either on the screen or
/// in an element that has a rectangle, and against just that.
pub proof fn element_is_laid_out_for_a_reason(
    queue: Seq<LayoutEntry>,
    with_rect: Seq<u32>,
    entry: LayoutEntry,
    i: int,
)
    requires
        0 <= i < layout_order(queue, with_rect).len(),
    ensures
        layout_order(queue, with_rect).contains(entry) <==> queue.contains(entry) && (entry.parent
            is None || with_rect.contains(entry.parent->Some_0)),
        ({
            let placed_as = steps_of(layout_order(queue, with_rect))[i];
            let own = layout_order(queue, with_rect)[i];
            &&& placed_as.entity == own.entity
            &&& own.parent is None ==> placed_as.container == Container::Screen
            &&& own.parent matches Some(parent) ==> placed_as.container == Container::Element(
                parent,
            )
        }),
{
    let list = placed(queue, with_rect);
    let order = layout_order(queue, with_rect);
    let fits = |e: LayoutEntry| can_be_laid_out(e, with_rect);
    lemma_order_is_complete(list);
    order.to_multiset_ensures();
    list.to_multiset_ensures();
    assert(order.contains(entry) <==> order.to_multiset().contains(entry));
    assert(list.contains(entry) <==> list.to_multiset().contains(entry));
    if list.contains(entry) {
        let k = choose|k: int| 0 <= k < list.len() && list[k] == entry;
        lemma_filter_keeps(queue, fits, k);
    }
    if queue.contains(entry) && fits(entry) {
        let k = choose|k: int| 0 <= k < queue.len() && queue[k] == entry;
        queue.lemma_filter_contains(fits, k);
    }
}

} // verus!
