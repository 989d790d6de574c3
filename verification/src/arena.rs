//! The particles of one simulation, and what a reported collision does to
//! them.
//!
//! Every entity that can collide has a slot, found again by the handle that
//! `spawn` or `add_inert` gave out. A slot holds a heat body, or nothing for
//! an entity that takes no part in the exchange of heat, such as a wall.

use vstd::prelude::*;
use crate::color::{black_body_channels, black_body_color, rgb_of, Rgb};
use crate::conduction::heat_transfer;
use crate::guarantees::lemma_never_below_absolute_zero;
use crate::heat_body::HeatBody;
use crate::material::{Material, MaterialType};
use crate::rounding::truncate;
use crate::temperature::ThermodynamicTemperature;

verus! {

/// The time that one collision stands for, in nanoseconds: one frame at 144
/// frames per second, whatever time has really passed.
pub const FRAME_NANOS: u64 = 6_944_444;

/// The colour that an entity is to be drawn in from now on, with the
/// temperature that it stands for.
#[derive(Clone, Copy, Debug)]
pub struct ColorUpdate {
    pub entity: usize,
    pub color: Rgb,
    pub temperature: ThermodynamicTemperature,
}

/// The slots of an arena, in the order of their handles.
pub type Slots = Seq<Option<HeatBody>>;

/// The stored energy of a slot; an empty slot stores none.
pub open spec fn heat_of(slot: Option<HeatBody>) -> int {
    match slot {
        Some(body) => body.spec_heat() as int,
        None => 0,
    }
}

/// The energy that all slots store together.
pub open spec fn total_heat(slots: Slots) -> int
    decreases slots.len(),
{
    if slots.len() == 0 {
        0
    } else {
        total_heat(slots.drop_last()) + heat_of(slots.last())
    }
}

/// A body, where the slot holds one, is well formed and at or above absolute
/// zero.
pub open spec fn is_physical(slot: Option<HeatBody>) -> bool {
    slot matches Some(body) ==> body.wf() && body.spec_heat() >= 0
}

/// Every body is well formed and at or above absolute zero.
pub open spec fn all_physical(slots: Slots) -> bool {
    forall|i: int| 0 <= i < slots.len() ==> is_physical(#[trigger] slots[i])
}

/// Whether the two handles name two different entities that both hold heat.
pub open spec fn is_thermal_pair(slots: Slots, a: int, b: int) -> bool {
    &&& 0 <= a < slots.len()
    &&& 0 <= b < slots.len()
    &&& a != b
    &&& slots[a].is_some()
    &&& slots[b].is_some()
}

/// The heat that a collision of `a` and `b` moves from `a` to `b`.
pub open spec fn moved_by_collision(slots: Slots, a: int, b: int) -> int {
    heat_transfer(slots[a].unwrap(), slots[b].unwrap(), FRAME_NANOS as int)
}

/// The slots after a collision of `a` and `b`: one conduction step between
/// the two where they are a thermal pair, and no change where they are not.
pub open spec fn after_collision(slots: Slots, a: int, b: int) -> Slots {
    if is_thermal_pair(slots, a, b) {
        let moved = moved_by_collision(slots, a, b);
        let first = slots[a].unwrap();
        let second = slots[b].unwrap();
        slots.update(a, Some(first.with_heat((first.spec_heat() - moved) as i64))).update(
            b,
            Some(second.with_heat((second.spec_heat() + moved) as i64)),
        )
    } else {
        slots
    }
}

/// The slots after a batch of collisions, taken strictly one after another
/// in the order given.
pub open spec fn after_events(slots: Slots, events: Seq<(usize, usize)>) -> Slots
    decreases events.len(),
{
    if events.len() == 0 {
        slots
    } else {
        let last = events.last();
        after_collision(after_events(slots, events.drop_last()), last.0 as int, last.1 as int)
    }
}

/// The colour of a body: that of a black body at its temperature.
pub open spec fn color_of(body: HeatBody) -> Rgb {
    rgb_of(black_body_channels(truncate(body.kelvin()) as i64))
}

/// What is published for an entity that holds `body`.
pub open spec fn update_for(entity: usize, body: HeatBody) -> ColorUpdate {
    ColorUpdate { entity, color: color_of(body), temperature: body.spec_temperature() }
}

/// What one collision publishes: the new colours of both bodies of a thermal
/// pair, first `a` then `b`, and nothing otherwise.
pub open spec fn updates_by_collision(slots: Slots, a: usize, b: usize) -> Seq<ColorUpdate> {
    if is_thermal_pair(slots, a as int, b as int) {
        let after = after_collision(slots, a as int, b as int);
        seq![update_for(a, after[a as int].unwrap()), update_for(b, after[b as int].unwrap())]
    } else {
        Seq::empty()
    }
}

/// What a batch of collisions publishes, in order.
pub open spec fn updates_by_events(slots: Slots, events: Seq<(usize, usize)>) -> Seq<ColorUpdate>
    decreases events.len(),
{
    if events.len() == 0 {
        Seq::empty()
    } else {
        let last = events.last();
        updates_by_events(slots, events.drop_last()) + updates_by_collision(
            after_events(slots, events.drop_last()),
            last.0,
            last.1,
        )
    }
}

/// Replacing one slot changes the total by the difference of the two.
pub proof fn lemma_total_heat_update(slots: Slots, i: int, slot: Option<HeatBody>)
    requires
        0 <= i < slots.len(),
    ensures
        total_heat(slots.update(i, slot)) == total_heat(slots) - heat_of(slots[i]) + heat_of(slot),
    decreases slots.len(),
{
    let changed = slots.update(i, slot);
    if i == slots.len() - 1 {
        assert(changed.drop_last() =~= slots.drop_last());
    } else {
        assert(changed.drop_last() =~= slots.drop_last().update(i, slot));
        lemma_total_heat_update(slots.drop_last(), i, slot);
    }
}

/// One more slot adds its energy to the total.
pub proof fn lemma_total_heat_push(slots: Slots, slot: Option<HeatBody>)
    ensures
        total_heat(slots.push(slot)) == total_heat(slots) + heat_of(slot),
{
    assert(slots.push(slot).drop_last() =~= slots);
}

/// Where no body is below absolute zero, the total is not negative.
pub proof fn lemma_total_heat_not_negative(slots: Slots)
    requires
        all_physical(slots),
    ensures
        total_heat(slots) >= 0,
    decreases slots.len(),
{
    if slots.len() > 0 {
        assert(slots.last() == slots[slots.len() - 1]);
        assert forall|i: int| 0 <= i < slots.drop_last().len() implies is_physical(
            #[trigger] slots.drop_last()[i],
        ) by {
            assert(slots.drop_last()[i] == slots[i]);
        }
        lemma_total_heat_not_negative(slots.drop_last());
    }
}

/// Where no body is below absolute zero, two different slots hold no more
/// than the total between them.
pub proof fn lemma_pair_within_total(slots: Slots, a: int, b: int)
    requires
        all_physical(slots),
        0 <= a < slots.len(),
        0 <= b < slots.len(),
        a != b,
    ensures
        heat_of(slots[a]) + heat_of(slots[b]) <= total_heat(slots),
{
    let without_a = slots.update(a, None);
    let without_both = without_a.update(b, None);
    lemma_total_heat_update(slots, a, None);
    lemma_total_heat_update(without_a, b, None);
    assert forall|i: int| 0 <= i < without_both.len() implies is_physical(
        #[trigger] without_both[i],
    ) by {
        if i != a && i != b {
            assert(without_both[i] == slots[i]);
        }
    }
    lemma_total_heat_not_negative(without_both);
}

/// A collision moves energy between two slots and makes or loses none; it
/// leaves every body well formed and at or above absolute zero.
pub proof fn lemma_collision_keeps_total(slots: Slots, a: int, b: int)
    requires
        all_physical(slots),
        total_heat(slots) <= i64::MAX,
    ensures
        all_physical(after_collision(slots, a, b)),
        total_heat(after_collision(slots, a, b)) == total_heat(slots),
        after_collision(slots, a, b).len() == slots.len(),
{
    if is_thermal_pair(slots, a, b) {
        let first = slots[a].unwrap();
        let second = slots[b].unwrap();
        let moved = moved_by_collision(slots, a, b);
        lemma_pair_within_total(slots, a, b);
        lemma_never_below_absolute_zero(first, second, FRAME_NANOS as int);
        let new_first = first.with_heat((first.spec_heat() - moved) as i64);
        let new_second = second.with_heat((second.spec_heat() + moved) as i64);
        first.lemma_with_heat((first.spec_heat() - moved) as i64);
        second.lemma_with_heat((second.spec_heat() + moved) as i64);
        lemma_total_heat_update(slots, a, Some(new_first));
        lemma_total_heat_update(slots.update(a, Some(new_first)), b, Some(new_second));
        let after = after_collision(slots, a, b);
        assert forall|i: int| 0 <= i < after.len() implies is_physical(#[trigger] after[i]) by {
            if i != a && i != b {
                assert(after[i] == slots[i]);
            }
        }
    }
}

/// A batch of collisions keeps the total as each of its collisions does.
pub proof fn lemma_events_keep_total(slots: Slots, events: Seq<(usize, usize)>)
    requires
        all_physical(slots),
        total_heat(slots) <= i64::MAX,
    ensures
        all_physical(after_events(slots, events)),
        total_heat(after_events(slots, events)) == total_heat(slots),
        after_events(slots, events).len() == slots.len(),
    decreases events.len(),
{
    if events.len() > 0 {
        lemma_events_keep_total(slots, events.drop_last());
        lemma_collision_keeps_total(
            after_events(slots, events.drop_last()),
            events.last().0 as int,
            events.last().1 as int,
        );
    }
}

/// Collisions of pairs that share no entity do not see each other: applied
/// in either order they leave the same slots.
pub proof fn lemma_disjoint_collisions_commute(
    slots: Slots,
    a: int,
    b: int,
    c: int,
    d: int,
)
    requires
        a != c,
        a != d,
        b != c,
        b != d,
    ensures
        after_collision(after_collision(slots, a, b), c, d) == after_collision(
            after_collision(slots, c, d),
            a,
            b,
        ),
{
    let first_ab = after_collision(slots, a, b);
    let first_cd = after_collision(slots, c, d);
    assert(is_thermal_pair(first_ab, c, d) == is_thermal_pair(slots, c, d));
    assert(is_thermal_pair(first_cd, a, b) == is_thermal_pair(slots, a, b));
    assert(after_collision(first_ab, c, d) =~= after_collision(first_cd, a, b));
}

/// The slots of all entities, with the energy that they store together.
pub struct ParticleArena {
    slots: Vec<Option<HeatBody>>,
    stored: i64,
}

impl View for ParticleArena {
    type V = Slots;

    /// The slots, in the order of their handles.
    closed spec fn view(&self) -> Slots {
        self.slots@
    }
}

impl ParticleArena {
    /// The energy that the arena has on record for all slots together.
    pub closed spec fn recorded_heat(&self) -> i64 {
        self.stored
    }

    /// Every body is well formed and at or above absolute zero, and the
    /// record of the total is right. The total fits the machine, so that any
    /// two bodies can exchange heat.
    pub open spec fn wf(&self) -> bool {
        &&& all_physical(self@)
        &&& self.recorded_heat() == total_heat(self@)
    }

    /// An arena without entities.
    pub fn new() -> (arena: Self)
        ensures
            arena.wf(),
            arena@.len() == 0,
    {
        ParticleArena { slots: Vec::new(), stored: 0 }
    }

    /// The number of entities.
    pub fn len(&self) -> (len: usize)
        ensures
            len == self@.len(),
    {
        self.slots.len()
    }

    /// The body of an entity; none for an entity without heat or a handle
    /// that was never given out.
    pub fn body(&self, entity: usize) -> (body: Option<HeatBody>)
        ensures
            body == if entity < self@.len() {
                self@[entity as int]
            } else {
                None
            },
    {
        if entity < self.slots.len() {
            self.slots[entity]
        } else {
            None
        }
    }

    /// The energy that all bodies store together, in attojoule.
    #[verifier::when_used_as_spec(recorded_heat)]
    pub fn stored_heat(&self) -> (stored: i64)
        ensures
            stored == self.recorded_heat(),
    {
        self.stored
    }

    /// Makes room for an entity that takes no part in the exchange of heat,
    /// and returns its handle.
    pub fn add_inert(&mut self) -> (entity: usize)
        requires
            old(self).wf(),
        ensures
            final(self).wf(),
            final(self)@ == old(self)@.push(None),
            entity == old(self)@.len(),
            final(self).recorded_heat() == old(self).recorded_heat(),
    {
        proof {
            lemma_total_heat_push(self@, None);
        }
        let entity: usize = self.slots.len();
        self.slots.push(None);
        entity
    }

    /// Whether the arena can take a body of this volume and material at this
    /// temperature: there is such a body, and the total with it still fits
    /// the machine.
    pub open spec fn has_room_for(
        &self,
        temperature: ThermodynamicTemperature,
        volume: u64,
        material: Material,
    ) -> bool {
        &&& HeatBody::representable(temperature, volume, material)
        &&& self.recorded_heat() + crate::heat_body::heat_for(
            temperature@,
            crate::heat_body::capacity_of(volume as int, material),
        ) <= i64::MAX
    }

    /// The body that `spawn` makes.
    pub open spec fn spawned(
        temperature: ThermodynamicTemperature,
        volume: u64,
        material: Material,
        body: HeatBody,
    ) -> bool {
        &&& body.wf()
        &&& body.spec_volume() == volume
        &&& body.spec_material() == material
        &&& body.spec_heat() == crate::heat_body::heat_for(temperature@, body.spec_heat_capacity())
    }

    /// A new particle of the given temperature, volume and material: its
    /// handle and first colour. Nothing is added where the arena has no room
    /// for it.
    pub fn spawn(
        &mut self,
        temperature: ThermodynamicTemperature,
        volume: u64,
        material_type: MaterialType,
    ) -> (spawned: Option<ColorUpdate>)
        requires
            old(self).wf(),
            temperature.wf(),
        ensures
            final(self).wf(),
            spawned.is_some() <==> old(self).has_room_for(
                temperature,
                volume,
                Material::of_type(material_type),
            ),
            spawned.is_none() ==> final(self)@ == old(self)@ && final(self).recorded_heat() == old(
                self,
            ).recorded_heat(),
            spawned matches Some(update) ==> {
                &&& final(self)@.len() == old(self)@.len() + 1
                &&& final(self)@.drop_last() == old(self)@
                &&& final(self)@.last() matches Some(body)
                &&& Self::spawned(temperature, volume, Material::of_type(material_type), body)
                &&& update == update_for(old(self)@.len() as usize, body)
                &&& final(self).recorded_heat() == old(self).recorded_heat() + body.spec_heat()
            },
    {
        let material: Material = Material::from(material_type);
        match HeatBody::try_from_temperature_volume_material(temperature, volume, material) {
            None => None,
            Some(body) => {
                proof {
                    lemma_total_heat_not_negative(self@);
                }
                match self.stored.checked_add(body.heat()) {
                    None => None,
                    Some(stored) => {
                        let entity: usize = self.slots.len();
                        let update = ColorUpdate {
                            entity,
                            color: black_body_color(&body.temperature()),
                            temperature: body.temperature(),
                        };
                        proof {
                            lemma_total_heat_push(self@, Some(body));
                            assert(self@.push(Some(body)).drop_last() =~= self@);
                        }
                        self.slots.push(Some(body));
                        self.stored = stored;
                        Some(update)
                    },
                }
            },
        }
    }

    /// One reported collision of the entities `a` and `b`. Where both hold
    /// heat and are not one and the same, one conduction step runs between
    /// them and their new colours come back, first that of `a`. Any other
    /// pair is no thermal contact and changes nothing.
    pub fn collide(
        &mut self,
        a: usize,
        b: usize,
    ) -> (published: Option<(ColorUpdate, ColorUpdate)>)
        requires
            old(self).wf(),
        ensures
            final(self).wf(),
            final(self)@ == after_collision(old(self)@, a as int, b as int),
            final(self).recorded_heat() == old(self).recorded_heat(),
            published.is_some() <==> is_thermal_pair(old(self)@, a as int, b as int),
            published matches Some(pair) ==> seq![pair.0, pair.1] == updates_by_collision(
                old(self)@,
                a,
                b,
            ),
    {
        if a >= self.slots.len() || b >= self.slots.len() || a == b {
            return None;
        }
        let slot_a: Option<HeatBody> = self.slots[a];
        let slot_b: Option<HeatBody> = self.slots[b];
        match (slot_a, slot_b) {
            (Some(first), Some(second)) => {
                let mut first: HeatBody = first;
                let mut second: HeatBody = second;
                let ghost before = self@;
                let ghost old_first = first;
                let ghost old_second = second;
                proof {
                    lemma_pair_within_total(before, a as int, b as int);
                }
                let moved: i64 = first.transfer_heat(&mut second, FRAME_NANOS);
                proof {
                    old_first.lemma_with_heat(first.spec_heat());
                    old_second.lemma_with_heat(second.spec_heat());
                    lemma_total_heat_update(before, a as int, Some(first));
                    lemma_total_heat_update(
                        before.update(a as int, Some(first)),
                        b as int,
                        Some(second),
                    );
                }
                self.slots.set(a, Some(first));
                self.slots.set(b, Some(second));
                let update_a = ColorUpdate {
                    entity: a,
                    color: black_body_color(&first.temperature()),
                    temperature: first.temperature(),
                };
                let update_b = ColorUpdate {
                    entity: b,
                    color: black_body_color(&second.temperature()),
                    temperature: second.temperature(),
                };
                proof {
                    assert(self@ == after_collision(before, a as int, b as int));
                    assert(seq![update_a, update_b] =~= updates_by_collision(before, a, b));
                }
                Some((update_a, update_b))
            },
            _ => None,
        }
    }

    /// The collisions that one tick reported, applied strictly one after
    /// another in the order given, so that an entity that occurs in several
    /// pairs never takes part in two steps at once. Returns the colours to
    /// publish, in the same order.
    pub fn heat_transfer_event(
        &mut self,
        events: &Vec<(usize, usize)>,
    ) -> (published: Vec<ColorUpdate>)
        requires
            old(self).wf(),
        ensures
            final(self).wf(),
            final(self)@ == after_events(old(self)@, events@),
            published@ == updates_by_events(old(self)@, events@),
            final(self).recorded_heat() == old(self).recorded_heat(),
    {
        let mut published: Vec<ColorUpdate> = Vec::new();
        let mut i: usize = 0;
        let ghost start = self@;
        while i < events.len()
            invariant
                0 <= i <= events.len(),
                self.wf(),
                self@ == after_events(start, events@.take(i as int)),
                published@ == updates_by_events(start, events@.take(i as int)),
                self.recorded_heat() == old(self).recorded_heat(),
                start == old(self)@,
            decreases events.len() - i,
        {
            let event: (usize, usize) = events[i];
            proof {
                assert(events@.take(i + 1).drop_last() =~= events@.take(i as int));
                assert(events@.take(i + 1).last() == event);
            }
            match self.collide(event.0, event.1) {
                Some(pair) => {
                    published.push(pair.0);
                    published.push(pair.1);
                    proof {
                        let earlier = updates_by_events(start, events@.take(i as int));
                        assert(published@ =~= earlier + seq![pair.0, pair.1]);
                    }
                },
                None => {
                    proof {
                        let earlier = updates_by_events(start, events@.take(i as int));
                        assert(published@ =~= earlier + Seq::<ColorUpdate>::empty());
                    }
                },
            }
            i = i + 1;
        }
        proof {
            assert(events@.take(events@.len() as int) =~= events@);
        }
        published
    }
}

} // verus!
