//! Screen-space particles: how many are born, and the random numbers that they are born
//! with.

use vstd::prelude::*;

use crate::float_order::{is_less, less};

verus! {

/// How particles move.
#[derive(Clone, Copy, Debug, PartialEq, Eq, Structural)]
pub enum SpawnKind {
    /// Fast and slanted, with a trail.
    Rain,
    /// Slow and swaying.
    Snow,
    /// In all directions.
    Spark,
}

impl Default for SpawnKind {
    fn default() -> (r: Self)
        ensures
            r == SpawnKind::Rain,
    {
        SpawnKind::Rain
    }
}

/// Where the random numbers of rain begin.
pub const RAIN_SEED: u64 = 0x9e37_79b9_7f4a_7c15;

/// Where the random numbers of snow begin.
pub const SNOW_SEED: u64 = 0x1b87_3d5e_9c2a_4f11;

/// One more than the largest random numerator.
pub const RANDOM_RANGE: u32 = 0x100_0000;

/// The next state of the generator.
pub open spec fn next_state(x: u64) -> u64 {
    let a = x ^ (x << 13);
    let b = a ^ (a >> 7);
    b ^ (b << 17)
}

/// The random number of a state, as the numerator of a fraction in units of 2 to the
/// power of -24.
pub open spec fn numerator(x: u64) -> u32 {
    (x >> 40) as u32
}

/// The state after `n` random numbers.
pub open spec fn state_after(x: u64, n: nat) -> u64
    decreases n,
{
    if n == 0 {
        x
    } else {
        next_state(state_after(x, (n - 1) as nat))
    }
}

/// Takes the next random number.
pub fn rand(state: &mut u64) -> (r: u32)
    ensures
        *final(state) == next_state(*old(state)),
        r == numerator(next_state(*old(state))),
        r < RANDOM_RANGE,
{
    let x: u64 = *state;
    let a: u64 = x ^ (x << 13);
    let b: u64 = a ^ (a >> 7);
    let c: u64 = b ^ (b << 17);
    *state = c;
    assert((c >> 40) < 0x100_0000u64) by (bit_vector);
    (c >> 40) as u32
}

/// How many random numbers a particle is born with: its place, its speed, its drift and
/// trail or its direction and second speed, its width and its opacity.
pub open spec fn draws_of(kind: SpawnKind) -> nat {
    match kind {
        SpawnKind::Rain => 7,
        SpawnKind::Snow => 5,
        SpawnKind::Spark => 7,
    }
}

/// The random numbers that a particle is born with, in the order in which they are used.
pub fn spawn_draws(kind: SpawnKind, state: &mut u64) -> (r: Vec<u32>)
    ensures
        *final(state) == state_after(*old(state), draws_of(kind)),
        r@ == Seq::new(
            draws_of(kind),
            |i: int| numerator(state_after(*old(state), (i + 1) as nat)),
        ),
{
    let n: usize = match kind {
        SpawnKind::Rain => 7,
        SpawnKind::Snow => 5,
        SpawnKind::Spark => 7,
    };
    let ghost start = *state;
    let mut list: Vec<u32> = Vec::new();
    let mut i: usize = 0;
    while i < n
        invariant
            i <= n,
            n == draws_of(kind),
            *state == state_after(start, i as nat),
            list@ == Seq::new(i as nat, |k: int| numerator(state_after(start, (k + 1) as nat))),
        decreases n - i,
    {
        let v: u32 = rand(state);
        list.push(v);
        i = i + 1;
        assert(list@ =~= Seq::new(i as nat, |k: int| numerator(state_after(start, (k + 1) as nat))));
    }
    list
}

/// How many particles are born: as many as are due, while there are fewer than the most
/// that there may be.
pub open spec fn born(due: i32, live: usize, most: usize) -> int {
    let room = if live < most {
        most - live
    } else {
        0
    };
    if due <= 0 {
        0
    } else if due < room {
        due as int
    } else {
        room as int
    }
}

/// How many particles are born.
pub fn spawn_count(due: i32, live: usize, most: usize) -> (r: usize)
    ensures
        r == born(due, live, most),
{
    let room: usize = if live < most {
        most - live
    } else {
        0
    };
    if due <= 0 {
        0
    } else if (due as u64) < (room as u64) {
        due as usize
    } else {
        room
    }
}

/// Births never take the particles beyond the most that there may be.
pub proof fn births_respect_the_limit(due: i32, live: usize, most: usize)
    ensures
        live <= most ==> live + born(due, live, most) <= most,
        live >= most ==> born(due, live, most) == 0,
{
}

/// A particle on the screen, in pixels and seconds. All numbers are bit patterns of
/// single-precision numbers.
#[derive(Clone, Copy, Debug, PartialEq, Eq, Structural)]
pub struct Particle2D {
    pub x: u32,
    pub y: u32,
    pub vx: u32,
    pub vy: u32,
    pub age: u32,
    pub life: u32,
    pub len: u32,
    pub width: u32,
    pub alpha: u32,
}

/// Where particles leave the screen: at either side and at the bottom, never at the top.
/// The edges are bit patterns of single-precision numbers.
#[derive(Clone, Copy, Debug, PartialEq, Eq, Structural)]
pub struct ParticleField {
    pub left: u32,
    pub right: u32,
    pub bottom: u32,
}

/// The particle stays: it has not lived out, nor left the screen.
pub open spec fn stays_in(p: Particle2D, field: ParticleField) -> bool {
    &&& less(p.age, p.life)
    &&& less(p.y, field.bottom)
    &&& less(field.left, p.x)
    &&& less(p.x, field.right)
}

/// Whether a particle stays.
pub fn survives(p: Particle2D, field: ParticleField) -> (r: bool)
    ensures
        r == stays_in(p, field),
{
    is_less(p.age, p.life) && is_less(p.y, field.bottom) && is_less(field.left, p.x) && is_less(
        p.x,
        field.right,
    )
}

/// The particles that stay, in their order.
pub open spec fn kept<P>(particles: Seq<P>, stays: Seq<bool>, n: nat) -> Seq<P>
    decreases n,
{
    if n == 0 {
        Seq::empty()
    } else {
        let before = kept(particles, stays, (n - 1) as nat);
        if stays[n - 1] {
            before.push(particles[n - 1])
        } else {
            before
        }
    }
}

/// Drops the particles that have left the screen or lived out.
pub fn retain<P: Copy>(particles: &Vec<P>, stays: &Vec<bool>) -> (r: Vec<P>)
    requires
        stays@.len() == particles@.len(),
    ensures
        r@ == kept(particles@, stays@, particles@.len()),
{
    let mut list: Vec<P> = Vec::new();
    let mut i: usize = 0;
    while i < particles.len()
        invariant
            i <= particles.len(),
            stays@.len() == particles@.len(),
            list@ == kept(particles@, stays@, i as nat),
        decreases particles.len() - i,
    {
        if stays[i] {
            list.push(particles[i]);
        }
        i = i + 1;
    }
    list
}

/// The generator never gets stuck: from a state other than zero it never reaches zero.
pub proof fn generator_stays_alive(x: u64, n: nat)
    requires
        x != 0,
    ensures
        state_after(x, n) != 0,
    decreases n,
{
    if n > 0 {
        generator_stays_alive(x, (n - 1) as nat);
        let s = state_after(x, (n - 1) as nat);
        lemma_next_is_not_zero(s);
    }
}

proof fn lemma_next_is_not_zero(s: u64)
    requires
        s != 0,
    ensures
        next_state(s) != 0,
{
    let a = s ^ (s << 13);
    let b = a ^ (a >> 7);
    assert(a != 0) by (bit_vector)
        requires
            s != 0,
            a == s ^ (s << 13),
    ;
    assert(b != 0) by (bit_vector)
        requires
            a != 0,
            b == a ^ (a >> 7),
    ;
    assert(b ^ (b << 17) != 0) by (bit_vector)
        requires
            b != 0,
    ;
}

/// The generator visits no state from two others: each state has one before it at most.
pub proof fn generator_does_not_merge(x: u64, y: u64)
    requires
        next_state(x) == next_state(y),
    ensures
        x == y,
{
    let a = x ^ (x << 13);
    let c = y ^ (y << 13);
    let b = a ^ (a >> 7);
    let d = c ^ (c >> 7);
    assert(b == d) by (bit_vector)
        requires
            b ^ (b << 17) == d ^ (d << 17),
    ;
    assert(a == c) by (bit_vector)
        requires
            b == d,
            b == a ^ (a >> 7),
            d == c ^ (c >> 7),
    ;
    assert(x == y) by (bit_vector)
        requires
            a == c,
            a == x ^ (x << 13),
            c == y ^ (y << 13),
    ;
}

/// As many particles are born as are due, unless there is no room for all of them; then as
/// many as there is room for.
pub proof fn due_particles_are_born(due: i32, live: usize, most: usize)
    ensures
        due >= 0 && live + due <= most ==> born(due, live, most) == due,
        due >= 0 && live <= most < live + due ==> live + born(due, live, most) == most,
        due <= 0 ==> born(due, live, most) == 0,
{
}

/// A particle goes once it has lived out, or once it is at a side or at the bottom, and for
/// no other reason: it may be above the screen.
pub proof fn particle_goes_for_a_reason(p: Particle2D, field: ParticleField)
    ensures
        !less(p.age, p.life) ==> !stays_in(p, field),
        !less(field.left, p.x) ==> !stays_in(p, field),
        !less(p.x, field.right) ==> !stays_in(p, field),
        !less(p.y, field.bottom) ==> !stays_in(p, field),
        less(p.age, p.life) && less(field.left, p.x) && less(p.x, field.right) && less(
            p.y,
            field.bottom,
        ) ==> stays_in(p, field),
{
}

/// How many of the first `n` stay.
pub open spec fn staying(stays: Seq<bool>, n: nat) -> nat
    decreases n,
{
    if n == 0 {
        0
    } else {
        staying(stays, (n - 1) as nat) + (if stays[n - 1] {
            1nat
        } else {
            0
        })
    }
}

/// Every particle that stays is kept, in its place among those that do, and no other is.
pub proof fn staying_particles_are_kept<P>(particles: Seq<P>, stays: Seq<bool>, n: nat, i: int)
    requires
        0 <= i < n <= particles.len(),
        stays.len() == particles.len(),
    ensures
        kept(particles, stays, n).len() == staying(stays, n),
        stays[i] ==> staying(stays, i as nat) < kept(particles, stays, n).len() && kept(
            particles,
            stays,
            n,
        )[staying(stays, i as nat) as int] == particles[i],
    decreases n,
{
    lemma_staying(particles, stays, (n - 1) as nat);
    if i < n - 1 {
        staying_particles_are_kept(particles, stays, (n - 1) as nat, i);
    }
}

proof fn lemma_staying<P>(particles: Seq<P>, stays: Seq<bool>, n: nat)
    ensures
        kept(particles, stays, n).len() == staying(stays, n),
    decreases n,
{
    if n > 0 {
        lemma_staying(particles, stays, (n - 1) as nat);
    }
}

} // verus!
