//! The ground-contact tracker: it turns the stream of contact events of one
//! physics step into the actor's grounded state.

use crate::entity::EntityId;
use vstd::prelude::*;

verus! {

/// A walkable collider, with the body that owns it where it is a part of one
/// (the sensing surface of a moving platform, say).
#[derive(Clone, Copy, Debug)]
pub struct Ground {
    /// The collider itself.
    pub entity: EntityId,
    /// The body the collider is attached to, if any.
    pub parent: Option<EntityId>,
}

/// Whether `index` is the first place in `grounds` that lists `entity`.
pub open spec fn is_first_ground(grounds: Seq<Ground>, entity: EntityId, index: int) -> bool {
    &&& 0 <= index < grounds.len()
    &&& grounds[index].entity == entity
    &&& forall|j: int| 0 <= j < index ==> (#[trigger] grounds[j]).entity != entity
}

/// Whether `entity` is tagged as ground, that is, listed in `grounds`.
pub open spec fn is_ground(grounds: Seq<Ground>, entity: EntityId) -> bool {
    exists|i: int| 0 <= i < grounds.len() && (#[trigger] grounds[i]).entity == entity
}

/// The place of the first record of `entity` in `grounds`.
pub open spec fn first_ground(grounds: Seq<Ground>, entity: EntityId) -> int {
    choose|i: int| is_first_ground(grounds, entity, i)
}

/// Looks `entity` up among the ground colliders and gives the place of its
/// first record.
pub fn find_ground(grounds: &Vec<Ground>, entity: EntityId) -> (found: Option<usize>)
    ensures
        found matches Some(index) ==> is_first_ground(grounds@, entity, index as int) && index
            == first_ground(grounds@, entity),
        found is None <==> !is_ground(grounds@, entity),
{
    let mut i: usize = 0;
    while i < grounds.len()
        invariant
            i <= grounds.len(),
            forall|j: int| 0 <= j < i ==> (#[trigger] grounds[j]).entity != entity,
        decreases grounds.len() - i,
    {
        if grounds[i].entity == entity {
            assert(is_first_ground(grounds@, entity, i as int));
            return Some(i);
        }
        i = i + 1;
    }
    None
}

/// A contact transition between two colliders, as the physics step reports it.
/// The pair is unordered.
#[derive(Clone, Copy, Debug, PartialEq, Eq, Structural)]
pub enum ContactEvent {
    /// The two colliders began to touch.
    Started(EntityId, EntityId),
    /// The two colliders ceased to touch.
    Stopped(EntityId, EntityId),
}

impl ContactEvent {
    /// The two colliders of the event, in the order they were reported.
    pub open spec fn pair(self) -> (EntityId, EntityId) {
        match self {
            ContactEvent::Started(a, b) => (a, b),
            ContactEvent::Stopped(a, b) => (a, b),
        }
    }

    /// The collider that met `sensor`: the other side of the pair when exactly
    /// one side is the sensor, and nothing otherwise.
    pub open spec fn partner(self, sensor: EntityId) -> Option<EntityId> {
        let (a, b) = self.pair();
        if a == sensor && b != sensor {
            Some(b)
        } else if b == sensor && a != sensor {
            Some(a)
        } else {
            None
        }
    }

    /// The ground that this event says `sensor` met or left, if it says so:
    /// its partner, provided the partner is tagged as ground.
    pub open spec fn ground_met(self, sensor: EntityId, grounds: Seq<Ground>) -> Option<EntityId> {
        match self.partner(sensor) {
            Some(other) => if is_ground(grounds, other) {
                Some(other)
            } else {
                None
            },
            None => None,
        }
    }

    /// Whether the event is about the pair of `a` and `b`, in either order.
    pub open spec fn joins(self, a: EntityId, b: EntityId) -> bool {
        self.pair() == (a, b) || self.pair() == (b, a)
    }

    /// Executable form of [`ContactEvent::partner`].
    pub fn partner_of(&self, sensor: EntityId) -> (other: Option<EntityId>)
        ensures
            other == self.partner(sensor),
    {
        let (a, b) = match *self {
            ContactEvent::Started(a, b) => (a, b),
            ContactEvent::Stopped(a, b) => (a, b),
        };
        if a == sensor && b != sensor {
            Some(b)
        } else if b == sensor && a != sensor {
            Some(a)
        } else {
            None
        }
    }
}

/// The grounded state as a mathematical value.
pub struct GroundedState {
    /// Number of ground contacts currently counted.
    pub count: nat,
    /// The grounds touched, oldest contact first; a ground that touches
    /// through several colliders is listed once for each.
    pub entities: Seq<EntityId>,
}

impl GroundedState {
    /// No contact at all.
    pub open spec fn empty() -> GroundedState {
        GroundedState { count: 0, entities: Seq::empty() }
    }

    /// The count never exceeds the number of listed grounds.
    pub open spec fn wf(self) -> bool {
        self.count <= self.entities.len()
    }

    /// The count equals the number of listed grounds: every contact that ended
    /// so far had been seen to start.
    pub open spec fn balanced(self) -> bool {
        self.count == self.entities.len()
    }

    /// The actor is supported by at least one ground.
    pub open spec fn is_grounded(self) -> bool {
        self.count > 0
    }

    /// The ground the actor stands on when it counts exactly one contact.
    pub open spec fn exclusive_ground(self) -> Option<EntityId> {
        if self.count == 1 {
            Some(self.entities.first())
        } else {
            None
        }
    }

    /// A contact with `ground` began.
    pub open spec fn touch(self, ground: EntityId) -> GroundedState {
        GroundedState { count: self.count + 1, entities: self.entities.push(ground) }
    }

    /// A contact with `ground` ended: the count goes down by one but not below
    /// zero, and the oldest listing of `ground`, if there is one, is dropped.
    pub open spec fn release(self, ground: EntityId) -> GroundedState {
        GroundedState {
            count: if self.count > 0 {
                (self.count - 1) as nat
            } else {
                0
            },
            entities: self.entities.remove_value(ground),
        }
    }

    /// The state after one contact event. Events that do not pair the sensor
    /// with a ground leave it as it is.
    pub open spec fn on_event(
        self,
        event: ContactEvent,
        sensor: EntityId,
        grounds: Seq<Ground>,
    ) -> GroundedState {
        match event.ground_met(sensor, grounds) {
            Some(ground) => match event {
                ContactEvent::Started(_, _) => self.touch(ground),
                ContactEvent::Stopped(_, _) => self.release(ground),
            },
            None => self,
        }
    }

    /// The state after all of `events`, applied in the order of delivery.
    pub open spec fn on_events(
        self,
        events: Seq<ContactEvent>,
        sensor: EntityId,
        grounds: Seq<Ground>,
    ) -> GroundedState
        decreases events.len(),
    {
        if events.len() == 0 {
            self
        } else {
            self.on_events(events.drop_last(), sensor, grounds).on_event(
                events.last(),
                sensor,
                grounds,
            )
        }
    }
}

/// Gives the place of the first occurrence of `entity` in `list`.
fn first_position(list: &Vec<EntityId>, entity: EntityId) -> (found: Option<usize>)
    ensures
        match found {
            Some(i) => i < list.len() && list@.index_of_first(entity) == Some(i as int),
            None => list@.index_of_first(entity) is None,
        },
{
    let mut i: usize = 0;
    while i < list.len()
        invariant
            i <= list.len(),
            forall|j: int| 0 <= j < i ==> list[j] != entity,
        decreases list.len() - i,
    {
        if list[i] == entity {
            proof {
                list@.index_of_first_ensures(entity);
            }
            return Some(i);
        }
        i = i + 1;
    }
    proof {
        list@.index_of_first_ensures(entity);
    }
    None
}

/// The grounded state of the actor: how many ground contacts it counts, and
/// which grounds it touches.
pub struct Grounded {
    count: usize,
    entities: Vec<EntityId>,
}

impl View for Grounded {
    type V = GroundedState;

    closed spec fn view(&self) -> GroundedState {
        GroundedState { count: self.count as nat, entities: self.entities@ }
    }
}

impl Grounded {
    #[verifier::type_invariant]
    spec fn inv(self) -> bool {
        self.count <= self.entities.len()
    }

    /// The state of an actor that touches nothing.
    pub fn new() -> (grounded: Grounded)
        ensures
            grounded@ == GroundedState::empty(),
    {
        Grounded { count: 0, entities: Vec::new() }
    }

    /// Number of ground contacts currently counted.
    pub fn count(&self) -> (count: usize)
        ensures
            count == self@.count,
            self@.wf(),
    {
        proof {
            use_type_invariant(self);
        }
        self.count
    }

    /// The grounds touched, oldest contact first.
    pub fn entities(&self) -> (entities: &Vec<EntityId>)
        ensures
            entities@ == self@.entities,
    {
        &self.entities
    }

    /// Whether the actor is supported.
    pub fn is_grounded(&self) -> (grounded: bool)
        ensures
            grounded == self@.is_grounded(),
    {
        self.count > 0
    }

    /// The single ground the actor stands on, when it counts exactly one
    /// contact.
    pub fn exclusive_ground(&self) -> (ground: Option<EntityId>)
        ensures
            ground == self@.exclusive_ground(),
    {
        proof {
            use_type_invariant(self);
        }
        if self.count == 1 {
            Some(self.entities[0])
        } else {
            None
        }
    }

    /// Forgets every contact. This is how the tracker answers the loss of the
    /// sensor: contacts whose end will never be reported must not keep the
    /// actor grounded.
    pub fn clear(&mut self)
        ensures
            final(self)@ == GroundedState::empty(),
    {
        *self = Grounded::new();
    }

    /// Moves the two parts out and leaves the empty state behind.
    fn take(&mut self) -> (parts: (usize, Vec<EntityId>))
        ensures
            parts.0 == old(self)@.count,
            parts.1@ == old(self)@.entities,
            old(self)@.wf(),
            final(self)@ == GroundedState::empty(),
    {
        proof {
            use_type_invariant(&*self);
        }
        let mut taken = Grounded::new();
        std::mem::swap(self, &mut taken);
        (taken.count, taken.entities)
    }

    /// Applies one contact event.
    pub fn on_event(&mut self, event: ContactEvent, sensor: EntityId, grounds: &Vec<Ground>)
        ensures
            final(self)@ == old(self)@.on_event(event, sensor, grounds@),
    {
        let Some(other) = event.partner_of(sensor) else {
            return ;
        };
        if find_ground(grounds, other).is_none() {
            return ;
        }
        let (mut count, mut entities) = self.take();
        match event {
            ContactEvent::Started(_, _) => {
                entities.push(other);
                let listed: usize = entities.len();
                assert(count < listed);
                count = count + 1;
            },
            ContactEvent::Stopped(_, _) => {
                if count > 0 {
                    count = count - 1;
                }
                if let Some(i) = first_position(&entities, other) {
                    entities.remove(i);
                }
            },
        }
        *self = Grounded { count, entities };
    }
}

/// The first of `children` that is listed in `sensors`.
pub open spec fn first_sensor(children: Seq<EntityId>, sensors: Seq<EntityId>) -> Option<EntityId>
    decreases children.len(),
{
    if children.len() == 0 {
        None
    } else if sensors.contains(children.first()) {
        Some(children.first())
    } else {
        first_sensor(children.drop_first(), sensors)
    }
}

/// Whether `entity` occurs in `list`.
fn is_listed(list: &Vec<EntityId>, entity: EntityId) -> (listed: bool)
    ensures
        listed == list@.contains(entity),
{
    let mut i: usize = 0;
    while i < list.len()
        invariant
            i <= list.len(),
            forall|j: int| 0 <= j < i ==> list[j] != entity,
        decreases list.len() - i,
    {
        if list[i] == entity {
            return true;
        }
        i = i + 1;
    }
    false
}

/// Picks the actor's ground sensor: the first of its child colliders that is
/// tagged as a sensor.
pub fn find_sensor(children: &Vec<EntityId>, sensors: &Vec<EntityId>) -> (sensor: Option<EntityId>)
    ensures
        sensor == first_sensor(children@, sensors@),
{
    let mut i: usize = 0;
    assert(children@.skip(0) == children@);
    while i < children.len()
        invariant
            i <= children.len(),
            first_sensor(children@, sensors@) == first_sensor(children@.skip(i as int), sensors@),
        decreases children.len() - i,
    {
        let child = children[i];
        assert(children@.skip(i as int).first() == child);
        if is_listed(sensors, child) {
            return Some(child);
        }
        assert(children@.skip(i as int).drop_first() == children@.skip(i + 1));
        i = i + 1;
    }
    None
}

/// The state in which one physics step leaves the tracker: with a sensor,
/// every event of the step has been applied; without one, no contact is kept.
pub open spec fn state_after_step(
    state: GroundedState,
    sensor: Option<EntityId>,
    events: Seq<ContactEvent>,
    grounds: Seq<Ground>,
) -> GroundedState {
    match sensor {
        Some(sensor) => state.on_events(events, sensor, grounds),
        None => GroundedState::empty(),
    }
}

/// Runs the tracker for one physics step. The actor's sensor is looked up
/// among its `children`; then all `events` of the step are applied, in the
/// order of delivery and none left out. An actor that has lost its sensor is
/// no longer grounded.
pub fn grounded_ungrounded_on_collision(
    grounded: &mut Grounded,
    children: &Vec<EntityId>,
    sensors: &Vec<EntityId>,
    events: &Vec<ContactEvent>,
    grounds: &Vec<Ground>,
)
    ensures
        final(grounded)@ == state_after_step(
            old(grounded)@,
            first_sensor(children@, sensors@),
            events@,
            grounds@,
        ),
{
    let Some(sensor) = find_sensor(children, sensors) else {
        grounded.clear();
        return ;
    };
    let mut i: usize = 0;
    while i < events.len()
        invariant
            i <= events.len(),
            grounded@ == old(grounded)@.on_events(events@.take(i as int), sensor, grounds@),
        decreases events.len() - i,
    {
        assert(events@.take(i + 1).drop_last() == events@.take(i as int));
        grounded.on_event(events[i], sensor, grounds);
        i = i + 1;
    }
    assert(events@.take(i as int) == events@);
}

/// What an event adds to the balance of contacts: one for a contact with a
/// ground that began, minus one for one that ended, nothing for an event that
/// the tracker ignores.
pub open spec fn contact_delta(event: ContactEvent, sensor: EntityId, grounds: Seq<Ground>) -> int {
    match event.ground_met(sensor, grounds) {
        Some(_) => match event {
            ContactEvent::Started(_, _) => 1,
            ContactEvent::Stopped(_, _) => -1,
        },
        None => 0,
    }
}

/// Contacts begun minus contacts ended over `events`.
pub open spec fn balance(events: Seq<ContactEvent>, sensor: EntityId, grounds: Seq<Ground>) -> int
    decreases events.len(),
{
    if events.len() == 0 {
        0
    } else {
        balance(events.drop_last(), sensor, grounds) + contact_delta(events.last(), sensor, grounds)
    }
}

/// The lowest balance that any prefix of `events` reaches, the empty prefix
/// included.
pub open spec fn lowest_balance(
    events: Seq<ContactEvent>,
    sensor: EntityId,
    grounds: Seq<Ground>,
) -> int
    decreases events.len(),
{
    if events.len() == 0 {
        0
    } else {
        vstd::math::min(
            lowest_balance(events.drop_last(), sensor, grounds),
            balance(events, sensor, grounds),
        )
    }
}

/// The lowest balance is at most zero and at most the final balance.
pub proof fn lemma_lowest_balance_bounds(
    events: Seq<ContactEvent>,
    sensor: EntityId,
    grounds: Seq<Ground>,
)
    ensures
        lowest_balance(events, sensor, grounds) <= 0,
        lowest_balance(events, sensor, grounds) <= balance(events, sensor, grounds),
    decreases events.len(),
{
    if events.len() > 0 {
        lemma_lowest_balance_bounds(events.drop_last(), sensor, grounds);
    }
}

/// The lowest balance is the balance of some prefix.
pub proof fn lemma_lowest_balance_is_reached(
    events: Seq<ContactEvent>,
    sensor: EntityId,
    grounds: Seq<Ground>,
) -> (k: int)
    ensures
        0 <= k <= events.len(),
        lowest_balance(events, sensor, grounds) == balance(events.take(k), sensor, grounds),
    decreases events.len(),
{
    if events.len() == 0 {
        assert(events.take(0) == events);
        0
    } else if lowest_balance(events, sensor, grounds) == balance(events, sensor, grounds) {
        assert(events.take(events.len() as int) == events);
        events.len() as int
    } else {
        let k = lemma_lowest_balance_is_reached(events.drop_last(), sensor, grounds);
        assert(events.drop_last().take(k) == events.take(k));
        k
    }
}

/// No prefix of `events` has a balance below the lowest balance.
pub proof fn lemma_lowest_balance_is_lowest(
    events: Seq<ContactEvent>,
    sensor: EntityId,
    grounds: Seq<Ground>,
    k: int,
)
    requires
        0 <= k <= events.len(),
    ensures
        lowest_balance(events, sensor, grounds) <= balance(events.take(k), sensor, grounds),
    decreases events.len(),
{
    if k == events.len() {
        assert(events.take(k) == events);
        lemma_lowest_balance_bounds(events, sensor, grounds);
    } else {
        lemma_lowest_balance_is_lowest(events.drop_last(), sensor, grounds, k);
        assert(events.drop_last().take(k) == events.take(k));
    }
}

/// The count after a run of events, whatever they are: it follows the balance
/// of contacts, lifted by as much as the floor at zero has held it up.
pub proof fn lemma_count_follows_balance(
    state: GroundedState,
    events: Seq<ContactEvent>,
    sensor: EntityId,
    grounds: Seq<Ground>,
)
    ensures
        state.on_events(events, sensor, grounds).count == state.count + balance(
            events,
            sensor,
            grounds,
        ) - vstd::math::min(0, state.count + lowest_balance(events, sensor, grounds)),
    decreases events.len(),
{
    if events.len() > 0 {
        lemma_count_follows_balance(state, events.drop_last(), sensor, grounds);
        lemma_lowest_balance_bounds(events.drop_last(), sensor, grounds);
    }
}

/// Every event keeps the count within the number of listed grounds.
pub proof fn lemma_on_event_keeps_wf(
    state: GroundedState,
    event: ContactEvent,
    sensor: EntityId,
    grounds: Seq<Ground>,
)
    requires
        state.wf(),
    ensures
        state.on_event(event, sensor, grounds).wf(),
{
    if let Some(ground) = event.ground_met(sensor, grounds) {
        state.entities.index_of_first_ensures(ground);
    }
}

/// An event keeps the count equal to the number of listed grounds unless it
/// ends a contact with a ground that is not listed.
pub proof fn lemma_on_event_keeps_balance(
    state: GroundedState,
    event: ContactEvent,
    sensor: EntityId,
    grounds: Seq<Ground>,
)
    requires
        state.balanced(),
        event is Stopped ==> match event.ground_met(sensor, grounds) {
            Some(ground) => state.entities.contains(ground),
            None => true,
        },
    ensures
        state.on_event(event, sensor, grounds).balanced(),
{
    if let Some(ground) = event.ground_met(sensor, grounds) {
        state.entities.index_of_first_ensures(ground);
    }
}

/// Whether every event of the run that ends a contact with a ground finds
/// that ground listed, the run being applied to `state`.
pub open spec fn all_matched(
    state: GroundedState,
    events: Seq<ContactEvent>,
    sensor: EntityId,
    grounds: Seq<Ground>,
) -> bool
    decreases events.len(),
{
    if events.len() == 0 {
        true
    } else {
        &&& all_matched(state, events.drop_last(), sensor, grounds)
        &&& events.last() is Stopped ==> match events.last().ground_met(sensor, grounds) {
            Some(ground) => state.on_events(
                events.drop_last(),
                sensor,
                grounds,
            ).entities.contains(ground),
            None => true,
        }
    }
}

/// Any run of events keeps the count within the number of listed grounds,
/// and a run in which every contact that ends had been seen to start keeps
/// the two equal.
pub proof fn lemma_on_events_keeps_wf(
    state: GroundedState,
    events: Seq<ContactEvent>,
    sensor: EntityId,
    grounds: Seq<Ground>,
)
    requires
        state.wf(),
    ensures
        state.on_events(events, sensor, grounds).wf(),
        state.balanced() && all_matched(state, events, sensor, grounds) ==> state.on_events(
            events,
            sensor,
            grounds,
        ).balanced(),
    decreases events.len(),
{
    if events.len() > 0 {
        let before = state.on_events(events.drop_last(), sensor, grounds);
        lemma_on_events_keeps_wf(state, events.drop_last(), sensor, grounds);
        lemma_on_event_keeps_wf(before, events.last(), sensor, grounds);
        if state.balanced() && all_matched(state, events, sensor, grounds) {
            lemma_on_event_keeps_balance(before, events.last(), sensor, grounds);
        }
    }
}

/// Number of `Started` events in `events`.
pub open spec fn started(events: Seq<ContactEvent>) -> nat
    decreases events.len(),
{
    if events.len() == 0 {
        0
    } else {
        started(events.drop_last()) + if events.last() is Started {
            1nat
        } else {
            0nat
        }
    }
}

/// Number of `Stopped` events in `events`.
pub open spec fn stopped(events: Seq<ContactEvent>) -> nat
    decreases events.len(),
{
    if events.len() == 0 {
        0
    } else {
        stopped(events.drop_last()) + if events.last() is Stopped {
            1nat
        } else {
            0nat
        }
    }
}

/// Whether every one of `events` is about the sensor and one and the same
/// `ground`.
pub open spec fn all_join(events: Seq<ContactEvent>, sensor: EntityId, ground: EntityId) -> bool {
    forall|i: int| 0 <= i < events.len() ==> (#[trigger] events[i]).joins(sensor, ground)
}

/// Over events that all join the sensor and one ground, the balance of
/// contacts is the number of `Started` minus the number of `Stopped`.
pub proof fn lemma_single_ground_balance(
    events: Seq<ContactEvent>,
    sensor: EntityId,
    ground: EntityId,
    grounds: Seq<Ground>,
)
    requires
        sensor != ground,
        is_ground(grounds, ground),
        all_join(events, sensor, ground),
    ensures
        balance(events, sensor, grounds) == started(events) - stopped(events),
    decreases events.len(),
{
    if events.len() > 0 {
        lemma_single_ground_balance(events.drop_last(), sensor, ground, grounds);
        assert(events.last().joins(sensor, ground));
        assert(events.last().ground_met(sensor, grounds) == Some(ground));
    }
}

/// Over events that all join the sensor and one ground, the tracker that
/// started empty lists that ground and nothing else, as often as it counts.
pub proof fn lemma_single_ground_listing(
    events: Seq<ContactEvent>,
    sensor: EntityId,
    ground: EntityId,
    grounds: Seq<Ground>,
)
    requires
        sensor != ground,
        is_ground(grounds, ground),
        all_join(events, sensor, ground),
    ensures
        ({
            let end = GroundedState::empty().on_events(events, sensor, grounds);
            &&& end.balanced()
            &&& forall|j: int| 0 <= j < end.entities.len() ==> end.entities[j] == ground
        }),
    decreases events.len(),
{
    if events.len() > 0 {
        lemma_single_ground_listing(events.drop_last(), sensor, ground, grounds);
        let before = GroundedState::empty().on_events(events.drop_last(), sensor, grounds);
        assert(events.last().joins(sensor, ground));
        assert(events.last().ground_met(sensor, grounds) == Some(ground));
        before.entities.index_of_first_ensures(ground);
        if before.entities.len() > 0 {
            assert(before.entities[0] == ground);
        }
    }
}

/// Over events that all join the sensor and one ground, the tracker that
/// started empty counts the number of `Started` minus the number of `Stopped`,
/// or zero where that is negative. This holds of exactly the runs in which no
/// prefix has a lower surplus of `Started` than both zero and the whole run:
/// a `Stopped` that arrives while nothing is counted takes nothing away, so a
/// `Started` after it counts in full.
pub proof fn lemma_single_ground_count(
    events: Seq<ContactEvent>,
    sensor: EntityId,
    ground: EntityId,
    grounds: Seq<Ground>,
)
    requires
        sensor != ground,
        is_ground(grounds, ground),
        all_join(events, sensor, ground),
        forall|k: int|
            0 <= k <= events.len() ==> started(#[trigger] events.take(k)) - stopped(events.take(k))
                >= vstd::math::min(0, started(events) - stopped(events)),
    ensures
        GroundedState::empty().on_events(events, sensor, grounds).count == vstd::math::max(
            0,
            started(events) - stopped(events),
        ),
{
    let k = lemma_lowest_balance_is_reached(events, sensor, grounds);
    lemma_single_ground_balance(events.take(k), sensor, ground, grounds);
    lemma_single_ground_balance(events, sensor, ground, grounds);
    lemma_lowest_balance_bounds(events, sensor, grounds);
    lemma_count_follows_balance(GroundedState::empty(), events, sensor, grounds);
}

/// The runs that [`lemma_single_ground_count`] leaves out are runs on which
/// its conclusion fails: where some prefix has a lower surplus of `Started`
/// than both zero and the whole run, the count ends above the floored surplus.
pub proof fn lemma_single_ground_count_after_unmatched_stop(
    events: Seq<ContactEvent>,
    sensor: EntityId,
    ground: EntityId,
    grounds: Seq<Ground>,
    k: int,
)
    requires
        sensor != ground,
        is_ground(grounds, ground),
        all_join(events, sensor, ground),
        0 <= k <= events.len(),
        started(events.take(k)) - stopped(events.take(k)) < vstd::math::min(
            0,
            started(events) - stopped(events),
        ),
    ensures
        GroundedState::empty().on_events(events, sensor, grounds).count > vstd::math::max(
            0,
            started(events) - stopped(events),
        ),
{
    lemma_lowest_balance_is_lowest(events, sensor, grounds, k);
    lemma_single_ground_balance(events.take(k), sensor, ground, grounds);
    lemma_single_ground_balance(events, sensor, ground, grounds);
    lemma_count_follows_balance(GroundedState::empty(), events, sensor, grounds);
}

} // verus!
