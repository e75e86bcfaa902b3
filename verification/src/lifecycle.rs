//! The lifecycle of short-lived bodies: a repeating timer spawns them, and
//! each is destroyed once, when its own timer has run its course.

use crate::timer::{total, RepeatingTimer, NANOS_PER_SECOND};
use vstd::prelude::*;

verus! {

/// Time between two spawns, in nanoseconds.
pub const SPAWN_INTERVAL: u64 = 3 * NANOS_PER_SECOND;

/// Time a body lives, in nanoseconds.
pub const BALL_LIFETIME: u64 = 5 * NANOS_PER_SECOND;

/// Where a spawn slot stands.
#[derive(Clone, Copy, Debug, PartialEq, Eq, Structural)]
pub enum BodyState {
    /// No body has been spawned in the slot yet.
    Idle,
    /// The body exists and its timer runs.
    Alive,
    /// The body has been destroyed. Nothing follows this state.
    Destroyed,
}

/// A spawn slot and the body in it.
#[derive(Clone, Copy, Debug, PartialEq, Eq, Structural)]
pub struct Ball {
    /// Where the slot stands.
    pub state: BodyState,
    /// The timer that ends the body's life. It runs only while the body is
    /// alive.
    pub lifetime: RepeatingTimer,
}

impl Ball {
    /// A body that has just been spawned and lives for `lifetime`
    /// nanoseconds.
    pub open spec fn fresh(lifetime: u64) -> Ball {
        Ball { state: BodyState::Alive, lifetime: RepeatingTimer { duration: lifetime, elapsed: 0 } }
    }

    /// Whether a tick by `delta` destroys the body: it is alive and its timer
    /// fires.
    pub open spec fn dies(self, delta: u64) -> bool {
        self.state is Alive && self.lifetime.fires(delta)
    }

    /// The slot after a tick by `delta`. Only a live body is affected.
    pub open spec fn after_tick(self, delta: u64) -> Ball {
        if self.state is Alive {
            Ball {
                state: if self.lifetime.fires(delta) {
                    BodyState::Destroyed
                } else {
                    BodyState::Alive
                },
                lifetime: self.lifetime.after(delta),
            }
        } else {
            self
        }
    }

    /// The slot after a spawn. Only an idle slot can be spawned into.
    pub open spec fn after_spawn(self) -> Ball {
        if self.state is Idle {
            Ball::fresh(self.lifetime.duration)
        } else {
            self
        }
    }

    /// The slot after one tick for each of `deltas`, in order.
    pub open spec fn after_ticks(self, deltas: Seq<u64>) -> Ball
        decreases deltas.len(),
    {
        if deltas.len() == 0 {
            self
        } else {
            self.after_ticks(deltas.drop_last()).after_tick(deltas.last())
        }
    }

    /// How many of the ticks by `deltas` destroy the body.
    pub open spec fn deaths(self, deltas: Seq<u64>) -> nat
        decreases deltas.len(),
    {
        if deltas.len() == 0 {
            0
        } else {
            self.deaths(deltas.drop_last()) + if self.after_ticks(deltas.drop_last()).dies(
                deltas.last(),
            ) {
                1nat
            } else {
                0nat
            }
        }
    }

    /// An idle slot for a body that will live for `lifetime` nanoseconds.
    pub fn new(lifetime: u64) -> (ball: Ball)
        ensures
            ball.state is Idle,
            ball.lifetime == (RepeatingTimer { duration: lifetime, elapsed: 0 }),
    {
        Ball { state: BodyState::Idle, lifetime: RepeatingTimer::new(lifetime) }
    }

    /// Spawns the body if the slot is idle, and tells whether it did. A slot
    /// whose body is alive or destroyed is never used again.
    pub fn spawn(&mut self) -> (spawned: bool)
        ensures
            spawned == (old(self).state is Idle),
            *final(self) == old(self).after_spawn(),
    {
        match self.state {
            BodyState::Idle => {
                self.state = BodyState::Alive;
                self.lifetime = RepeatingTimer::new(self.lifetime.duration);
                true
            },
            _ => false,
        }
    }

    /// Ticks the body's timer if the body is alive, and tells whether this
    /// tick destroyed it. A destroyed body stays as it is, so it cannot be
    /// destroyed again.
    pub fn tick(&mut self, delta: u64) -> (destroyed: bool)
        ensures
            destroyed == old(self).dies(delta),
            *final(self) == old(self).after_tick(delta),
    {
        match self.state {
            BodyState::Alive => {
                let fired = self.lifetime.tick(delta);
                if fired {
                    self.state = BodyState::Destroyed;
                }
                fired
            },
            _ => false,
        }
    }
}

/// Ticks do not change the duration of a body's timer.
pub proof fn lemma_ticks_keep_duration(ball: Ball, deltas: Seq<u64>)
    ensures
        ball.after_ticks(deltas).lifetime.duration == ball.lifetime.duration,
    decreases deltas.len(),
{
    if deltas.len() > 0 {
        lemma_ticks_keep_duration(ball, deltas.drop_last());
    }
}

/// A destroyed body stays destroyed, and no further tick destroys it.
pub proof fn lemma_destroyed_is_terminal(ball: Ball, deltas: Seq<u64>)
    requires
        ball.state is Destroyed,
    ensures
        ball.after_ticks(deltas) == ball,
        ball.deaths(deltas) == 0,
    decreases deltas.len(),
{
    if deltas.len() > 0 {
        lemma_destroyed_is_terminal(ball, deltas.drop_last());
    }
}

/// No run of ticks destroys a body twice, and one that destroys it leaves it
/// destroyed.
pub proof fn lemma_dies_at_most_once(ball: Ball, deltas: Seq<u64>)
    ensures
        ball.deaths(deltas) <= 1,
        ball.deaths(deltas) == 1 ==> ball.after_ticks(deltas).state is Destroyed,
        ball.state is Alive && ball.deaths(deltas) == 0 ==> ball.after_ticks(deltas).state is Alive,
    decreases deltas.len(),
{
    if deltas.len() > 0 {
        lemma_dies_at_most_once(ball, deltas.drop_last());
    }
}

/// A body that is spawned with a lifetime above zero is alive as long as the
/// ticks since its spawn add up to less than its lifetime, and destroyed from
/// the tick on at which they reach it. It is destroyed once, by that tick.
pub proof fn lemma_ball_lives_its_lifetime(lifetime: u64, deltas: Seq<u64>)
    requires
        lifetime > 0,
    ensures
        total(deltas) < lifetime ==> {
            &&& Ball::fresh(lifetime).after_ticks(deltas).state is Alive
            &&& Ball::fresh(lifetime).after_ticks(deltas).lifetime.elapsed == total(deltas)
            &&& Ball::fresh(lifetime).deaths(deltas) == 0
        },
        total(deltas) >= lifetime ==> {
            &&& Ball::fresh(lifetime).after_ticks(deltas).state is Destroyed
            &&& Ball::fresh(lifetime).deaths(deltas) == 1
        },
    decreases deltas.len(),
{
    if deltas.len() > 0 {
        lemma_ball_lives_its_lifetime(lifetime, deltas.drop_last());
        let before = Ball::fresh(lifetime).after_ticks(deltas.drop_last());
        assert(Ball::fresh(lifetime).after_ticks(deltas) == before.after_tick(deltas.last()));
        assert(before.lifetime.duration == lifetime) by {
            lemma_ticks_keep_duration(Ball::fresh(lifetime), deltas.drop_last());
        }
    }
}

/// How many of `balls` are in `state`.
pub open spec fn count_in(balls: Seq<Ball>, state: BodyState) -> nat
    decreases balls.len(),
{
    if balls.len() == 0 {
        0
    } else {
        count_in(balls.drop_last(), state) + if balls.last().state == state {
            1nat
        } else {
            0nat
        }
    }
}

/// The slots after each has been ticked by `delta`.
pub open spec fn ticked(balls: Seq<Ball>, delta: u64) -> Seq<Ball> {
    Seq::new(balls.len(), |i: int| balls[i].after_tick(delta))
}

/// The slots whose bodies a tick by `delta` destroys, in rising order.
pub open spec fn dying(balls: Seq<Ball>, delta: u64) -> Seq<usize>
    decreases balls.len(),
{
    if balls.len() == 0 {
        Seq::empty()
    } else if balls.last().dies(delta) {
        dying(balls.drop_last(), delta).push((balls.len() - 1) as usize)
    } else {
        dying(balls.drop_last(), delta)
    }
}

/// The lifecycle manager as a mathematical value.
pub struct LifecycleState {
    /// The timer that spawns.
    pub spawner: RepeatingTimer,
    /// Lifetime of the bodies it spawns, in nanoseconds.
    pub lifetime: u64,
    /// All slots used so far, in the order of their spawns. A slot's place is
    /// its identifier, which is never given to another body.
    pub balls: Seq<Ball>,
}

impl LifecycleState {
    /// A manager that has not spawned anything.
    pub open spec fn start(interval: u64, lifetime: u64) -> LifecycleState {
        LifecycleState {
            spawner: RepeatingTimer { duration: interval, elapsed: 0 },
            lifetime,
            balls: Seq::empty(),
        }
    }

    /// Every slot used so far holds a body that is alive or destroyed.
    pub open spec fn wf(self) -> bool {
        forall|i: int| 0 <= i < self.balls.len() ==> !((#[trigger] self.balls[i]).state is Idle)
    }

    /// Number of bodies spawned so far.
    pub open spec fn spawn_count(self) -> nat {
        self.balls.len()
    }

    /// Number of bodies destroyed so far.
    pub open spec fn despawn_count(self) -> nat {
        count_in(self.balls, BodyState::Destroyed)
    }

    /// Number of bodies alive.
    pub open spec fn alive_count(self) -> nat {
        count_in(self.balls, BodyState::Alive)
    }

    /// Where `slot` stands. A slot that was never spawned into is idle.
    pub open spec fn state_of(self, slot: int) -> BodyState {
        if 0 <= slot < self.balls.len() {
            self.balls[slot].state
        } else {
            BodyState::Idle
        }
    }

    /// The manager after the timers of all bodies have been ticked by `delta`.
    pub open spec fn after_despawn(self, delta: u64) -> LifecycleState {
        LifecycleState { balls: ticked(self.balls, delta), ..self }
    }

    /// The slot that a tick of the spawn timer by `delta` spawns into, if the
    /// timer fires: the next unused one.
    pub open spec fn spawned_by(self, delta: u64) -> Option<usize> {
        if self.spawner.fires(delta) {
            Some(self.balls.len() as usize)
        } else {
            None
        }
    }

    /// The manager after the spawn timer has been ticked by `delta`. When it
    /// fires, one body is spawned, whatever the number of periods in `delta`.
    pub open spec fn after_spawn(self, delta: u64) -> LifecycleState {
        LifecycleState {
            spawner: self.spawner.after(delta),
            balls: if self.spawner.fires(delta) {
                self.balls.push(Ball::fresh(self.lifetime))
            } else {
                self.balls
            },
            ..self
        }
    }

    /// The manager after one step of `delta`: first the bodies that exist
    /// are ticked, then the spawn timer. A body is not ticked in the step
    /// that spawns it.
    pub open spec fn after_step(self, delta: u64) -> LifecycleState {
        self.after_despawn(delta).after_spawn(delta)
    }

    /// The manager after one step for each of `deltas`, in order.
    pub open spec fn after_steps(self, deltas: Seq<u64>) -> LifecycleState
        decreases deltas.len(),
    {
        if deltas.len() == 0 {
            self
        } else {
            self.after_steps(deltas.drop_last()).after_step(deltas.last())
        }
    }
}

/// What one step of the manager asks of the world.
pub struct StepReport {
    /// The slots whose bodies are to be removed, in rising order.
    pub despawned: Vec<usize>,
    /// The slot for which a body is to be created, if any.
    pub spawned: Option<usize>,
}

/// The lifecycle manager: a spawn timer and the slots it has filled.
pub struct Lifecycle {
    spawner: RepeatingTimer,
    lifetime: u64,
    balls: Vec<Ball>,
    despawned: usize,
}

impl View for Lifecycle {
    type V = LifecycleState;

    closed spec fn view(&self) -> LifecycleState {
        LifecycleState { spawner: self.spawner, lifetime: self.lifetime, balls: self.balls@ }
    }
}

impl Lifecycle {
    #[verifier::type_invariant]
    spec fn inv(self) -> bool {
        &&& self@.wf()
        &&& self.despawned == count_in(self.balls@, BodyState::Destroyed)
    }

    /// A manager that spawns a body every `interval` nanoseconds and lets
    /// each live for `lifetime` nanoseconds.
    pub fn new(interval: u64, lifetime: u64) -> (manager: Lifecycle)
        ensures
            manager@ == LifecycleState::start(interval, lifetime),
    {
        Lifecycle {
            spawner: RepeatingTimer::new(interval),
            lifetime,
            balls: Vec::new(),
            despawned: 0,
        }
    }

    /// Moves the parts out and leaves a manager without slots behind.
    fn take(&mut self) -> (parts: (RepeatingTimer, u64, Vec<Ball>))
        ensures
            parts.0 == old(self)@.spawner,
            parts.1 == old(self)@.lifetime,
            parts.2@ == old(self)@.balls,
            old(self)@.wf(),
    {
        proof {
            use_type_invariant(&*self);
        }
        let mut taken = Lifecycle::new(0, 0);
        std::mem::swap(self, &mut taken);
        (taken.spawner, taken.lifetime, taken.balls)
    }

    /// Ticks the timer of every body by `delta` and destroys those whose
    /// timer fires. Gives the slots of the bodies destroyed by this tick.
    pub fn despawn_ball(&mut self, delta: u64) -> (gone: Vec<usize>)
        ensures
            final(self)@ == old(self)@.after_despawn(delta),
            gone@ == dying(old(self)@.balls, delta),
    {
        let (spawner, lifetime, balls) = self.take();
        let mut next: Vec<Ball> = Vec::new();
        let mut gone: Vec<usize> = Vec::new();
        let mut dead: usize = 0;
        let mut i: usize = 0;
        while i < balls.len()
            invariant
                i <= balls.len(),
                forall|j: int| 0 <= j < balls.len() ==> !((#[trigger] balls[j]).state is Idle),
                next@ == ticked(balls@.take(i as int), delta),
                gone@ == dying(balls@.take(i as int), delta),
                dead == count_in(next@, BodyState::Destroyed),
                dead <= i,
            decreases balls.len() - i,
        {
            let mut ball = balls[i];
            let died = ball.tick(delta);
            if died {
                gone.push(i);
            }
            if let BodyState::Destroyed = ball.state {
                dead = dead + 1;
            }
            proof {
                assert(balls@.take(i + 1).drop_last() == balls@.take(i as int));
                assert(next@.push(ball).drop_last() == next@);
                assert(next@.push(ball) == ticked(balls@.take(i + 1), delta));
            }
            next.push(ball);
            i = i + 1;
        }
        assert(balls@.take(i as int) == balls@);
        *self = Lifecycle { spawner, lifetime, balls: next, despawned: dead };
        gone
    }

    /// Ticks the spawn timer by `delta` and, when it fires, spawns one body
    /// into the next unused slot. Gives that slot.
    pub fn spawn_ball(&mut self, delta: u64) -> (slot: Option<usize>)
        ensures
            final(self)@ == old(self)@.after_spawn(delta),
            slot == old(self)@.spawned_by(delta),
    {
        proof {
            use_type_invariant(&*self);
        }
        let dead = self.despawned;
        let (mut spawner, lifetime, mut balls) = self.take();
        let fired = spawner.tick(delta);
        let slot = if fired {
            let slot = balls.len();
            let mut ball = Ball::new(lifetime);
            ball.spawn();
            assert(balls@.push(ball).drop_last() == balls@);
            balls.push(ball);
            Some(slot)
        } else {
            None
        };
        *self = Lifecycle { spawner, lifetime, balls, despawned: dead };
        slot
    }

    /// Runs one step of `delta` nanoseconds: the bodies that exist are
    /// ticked and those that are due destroyed, then the spawn timer is
    /// ticked.
    pub fn step(&mut self, delta: u64) -> (report: StepReport)
        ensures
            final(self)@ == old(self)@.after_step(delta),
            report.despawned@ == dying(old(self)@.balls, delta),
            report.spawned == old(self)@.after_despawn(delta).spawned_by(delta),
    {
        let despawned = self.despawn_ball(delta);
        let spawned = self.spawn_ball(delta);
        StepReport { despawned, spawned }
    }

    /// Number of bodies spawned so far.
    pub fn spawn_count(&self) -> (count: usize)
        ensures
            count == self@.spawn_count(),
    {
        self.balls.len()
    }

    /// Number of bodies destroyed so far.
    pub fn despawn_count(&self) -> (count: usize)
        ensures
            count == self@.despawn_count(),
    {
        proof {
            use_type_invariant(self);
        }
        self.despawned
    }

    /// Number of bodies alive: those spawned less those destroyed.
    pub fn alive_count(&self) -> (count: usize)
        ensures
            count == self@.alive_count(),
            count == self@.spawn_count() - self@.despawn_count(),
    {
        proof {
            use_type_invariant(self);
            lemma_counts_add_up(self@);
        }
        self.balls.len() - self.despawned
    }

    /// Where `slot` stands.
    pub fn state_of(&self, slot: usize) -> (state: BodyState)
        ensures
            state == self@.state_of(slot as int),
            self@.wf(),
    {
        proof {
            use_type_invariant(self);
        }
        if slot < self.balls.len() {
            self.balls[slot].state
        } else {
            BodyState::Idle
        }
    }
}

/// The manager of the game: a body every three seconds, each living for five.
pub fn setup_ball_spawning() -> (manager: Lifecycle)
    ensures
        manager@ == LifecycleState::start(SPAWN_INTERVAL, BALL_LIFETIME),
{
    Lifecycle::new(SPAWN_INTERVAL, BALL_LIFETIME)
}

/// The bodies spawned so far are those alive and those destroyed.
pub proof fn lemma_counts_add_up(state: LifecycleState)
    requires
        state.wf(),
    ensures
        state.spawn_count() == state.alive_count() + state.despawn_count(),
    decreases state.balls.len(),
{
    if state.balls.len() > 0 {
        lemma_counts_add_up(LifecycleState { balls: state.balls.drop_last(), ..state });
    }
}

/// A step keeps every used slot alive or destroyed.
pub proof fn lemma_step_keeps_wf(state: LifecycleState, delta: u64)
    requires
        state.wf(),
    ensures
        state.after_despawn(delta).wf(),
        state.after_spawn(delta).wf(),
        state.after_step(delta).wf(),
{
    assert(state.after_despawn(delta).wf());
    assert(state.after_despawn(delta).after_spawn(delta).wf());
}

/// The bodies that a tick destroys are those that were alive and whose timer
/// fires. Each is reported once, the reports are in rising order, and the
/// number of destroyed bodies grows by the number of reports.
pub proof fn lemma_dying_are_the_due(balls: Seq<Ball>, delta: u64)
    requires
        balls.len() <= usize::MAX,
    ensures
        forall|slot: int|
            0 <= slot < balls.len() ==> (dying(balls, delta).contains(slot as usize)
                <==> #[trigger] balls[slot].dies(delta)),
        forall|k: int|
            0 <= k < dying(balls, delta).len() ==> #[trigger] dying(balls, delta)[k] < balls.len(),
        forall|k: int, l: int|
            0 <= k < l < dying(balls, delta).len() ==> dying(balls, delta)[k] < dying(
                balls,
                delta,
            )[l],
        count_in(ticked(balls, delta), BodyState::Destroyed) == count_in(
            balls,
            BodyState::Destroyed,
        ) + dying(balls, delta).len(),
        count_in(ticked(balls, delta), BodyState::Alive) + dying(balls, delta).len() == count_in(
            balls,
            BodyState::Alive,
        ),
    decreases balls.len(),
{
    if balls.len() > 0 {
        let front = balls.drop_last();
        let last = (balls.len() - 1) as usize;
        lemma_dying_are_the_due(front, delta);
        assert(ticked(balls, delta).drop_last() == ticked(front, delta));
        let due = dying(balls, delta);
        let front_due = dying(front, delta);
        assert forall|k: int| 0 <= k < due.len() implies #[trigger] due[k] < balls.len() by {
            if k < front_due.len() {
                assert(due[k] == front_due[k]);
            }
        }
        assert forall|k: int, l: int| 0 <= k < l < due.len() implies due[k] < due[l] by {
            assert(due[k] == front_due[k]);
            if l < front_due.len() {
                assert(due[l] == front_due[l]);
            }
        }
        assert forall|slot: int| 0 <= slot < balls.len() implies (due.contains(slot as usize)
            <==> #[trigger] balls[slot].dies(delta)) by {
            if slot < front.len() {
                assert(front[slot] == balls[slot]);
                if front[slot].dies(delta) {
                    let k = front_due.index_of(slot as usize);
                    assert(due[k] == slot as usize);
                }
                if due.contains(slot as usize) {
                    let k = due.index_of(slot as usize);
                    if k < front_due.len() {
                        assert(front_due[k] == slot as usize);
                    }
                }
            } else {
                if balls.last().dies(delta) {
                    assert(due[due.len() - 1] == last);
                }
                if due.contains(slot as usize) {
                    let k = due.index_of(slot as usize);
                    if k < front_due.len() {
                        assert(front_due[k] == due[k]);
                    }
                }
            }
        }
    }
}

/// Through any run of steps a slot keeps its place, and its body ages by the
/// ticks of those steps alone: neither the spawn timer nor what happens to
/// other bodies touches it.
pub proof fn lemma_slots_age_independently(state: LifecycleState, deltas: Seq<u64>, slot: int)
    requires
        0 <= slot < state.balls.len(),
    ensures
        slot < state.after_steps(deltas).balls.len(),
        state.after_steps(deltas).balls[slot] == state.balls[slot].after_ticks(deltas),
    decreases deltas.len(),
{
    if deltas.len() > 0 {
        lemma_slots_age_independently(state, deltas.drop_last(), slot);
    }
}

/// A body that a step spawns, with a lifetime above zero, is alive as long
/// as the steps that follow add up to less than its lifetime, and destroyed
/// from the step on at which they reach it; the step that spawns it does not
/// age it.
pub proof fn lemma_spawned_body_lives_its_lifetime(
    state: LifecycleState,
    delta: u64,
    later: Seq<u64>,
)
    requires
        state.lifetime > 0,
        state.after_despawn(delta).spawned_by(delta) is Some,
    ensures
        ({
            let slot = state.balls.len() as int;
            let end = state.after_step(delta).after_steps(later);
            &&& state.state_of(slot) is Idle
            &&& state.after_step(delta).balls[slot] == Ball::fresh(state.lifetime)
            &&& total(later) < state.lifetime ==> end.state_of(slot) is Alive
            &&& total(later) >= state.lifetime ==> end.state_of(slot) is Destroyed
            &&& Ball::fresh(state.lifetime).deaths(later) <= 1
        }),
{
    let slot = state.balls.len() as int;
    lemma_slots_age_independently(state.after_step(delta), later, slot);
    lemma_ball_lives_its_lifetime(state.lifetime, later);
}

/// The spawn timer runs on through any run of steps, independent of the
/// bodies, and every firing spawns exactly one body with the lifetime that
/// the manager was set up with.
pub proof fn lemma_spawner_runs_independently(state: LifecycleState, deltas: Seq<u64>)
    ensures
        state.after_steps(deltas).spawner == state.spawner.after_ticks(deltas),
        state.after_steps(deltas).lifetime == state.lifetime,
        state.after_steps(deltas).spawn_count() == state.spawn_count() + state.spawner.firings(
            deltas,
        ),
    decreases deltas.len(),
{
    if deltas.len() > 0 {
        lemma_spawner_runs_independently(state, deltas.drop_last());
    }
}

/// Any run of steps keeps every used slot alive or destroyed, so the bodies
/// spawned less the bodies destroyed are the bodies alive.
pub proof fn lemma_steps_keep_count(state: LifecycleState, deltas: Seq<u64>)
    requires
        state.wf(),
    ensures
        state.after_steps(deltas).wf(),
        state.after_steps(deltas).spawn_count() - state.after_steps(deltas).despawn_count()
            == state.after_steps(deltas).alive_count(),
    decreases deltas.len(),
{
    if deltas.len() > 0 {
        lemma_steps_keep_count(state, deltas.drop_last());
        lemma_step_keeps_wf(state.after_steps(deltas.drop_last()), deltas.last());
    }
    lemma_counts_add_up(state.after_steps(deltas));
}

} // verus!
