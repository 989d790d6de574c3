use thermal_exchange::arena::{ParticleArena, FRAME_NANOS};
use thermal_exchange::color::Rgb;
use thermal_exchange::heat_body::HeatBody;
use thermal_exchange::material::{Material, MaterialType};
use thermal_exchange::temperature::ThermodynamicTemperature;

fn kelvin(kelvin: i64) -> ThermodynamicTemperature {
    ThermodynamicTemperature::from_kelvin(kelvin)
}

fn heat_at(arena: &ParticleArena, entity: usize) -> i64 {
    match arena.body(entity) {
        Some(body) => body.heat(),
        None => panic!("the entity holds no heat"),
    }
}

#[test]
fn a_new_arena_is_empty() {
    let arena = ParticleArena::new();
    assert_eq!(arena.len(), 0);
    assert_eq!(arena.stored_heat(), 0);
    assert!(arena.body(0).is_none());
}

#[test]
fn spawn_hands_out_the_next_handle_and_the_first_colour() {
    let mut arena = ParticleArena::new();
    let wall = arena.add_inert();
    assert_eq!(wall, 0);
    let update = match arena.spawn(kelvin(1000), 2, MaterialType::Copper) {
        Some(update) => update,
        None => panic!("there is room for a small body"),
    };
    assert_eq!(update.entity, 1);
    assert_eq!(update.color, Rgb { red: 255, green: 68, blue: 0 });
    assert!(update.temperature.is_as_hot_as(&kelvin(1000)));
    assert_eq!(arena.len(), 2);
    assert!(arena.body(0).is_none());
    assert_eq!(heat_at(&arena, 1), 6_899_200_000);
    assert_eq!(arena.stored_heat(), 6_899_200_000);
    match arena.body(1) {
        Some(body) => {
            assert_eq!(body.volume(), 2);
            assert_eq!(body.material(), Material::from(MaterialType::Copper));
        },
        None => panic!("the entity holds heat"),
    }
}

#[test]
fn spawn_refuses_what_no_body_can_be() {
    let mut arena = ParticleArena::new();
    assert!(arena.spawn(ThermodynamicTemperature::new(-1, 2), 1, MaterialType::Iron).is_none());
    assert!(arena.spawn(kelvin(300), 0, MaterialType::Iron).is_none());
    assert!(arena.spawn(kelvin(300), u64::MAX, MaterialType::Iron).is_none());
    assert_eq!(arena.len(), 0);
    assert_eq!(arena.stored_heat(), 0);
}

#[test]
fn spawn_refuses_a_body_that_takes_the_total_past_the_limit() {
    let mut arena = ParticleArena::new();
    assert!(arena.spawn(kelvin(1000), 2_000_000_000, MaterialType::Copper).is_some());
    assert!(arena.spawn(kelvin(1000), 2_000_000_000, MaterialType::Copper).is_none());
    assert_eq!(arena.len(), 1);
    assert_eq!(arena.stored_heat(), 6_899_200_000_000_000_000);
    assert!(arena.spawn(kelvin(300), 2_000_000_000, MaterialType::Copper).is_some());
    assert_eq!(arena.len(), 2);
}

#[test]
fn a_collision_runs_one_step_over_one_frame() {
    let mut arena = ParticleArena::new();
    assert!(arena.spawn(kelvin(1000), 2_000_000_000, MaterialType::Copper).is_some());
    assert!(arena.spawn(kelvin(0), 2_000_000_000, MaterialType::Copper).is_some());
    let (first, second) = match arena.collide(0, 1) {
        Some(pair) => pair,
        None => panic!("two bodies are in thermal contact"),
    };
    assert_eq!(FRAME_NANOS, 6_944_444);
    assert_eq!(heat_at(&arena, 0), 4_225_589_060_000_000_000);
    assert_eq!(heat_at(&arena, 1), 2_673_610_940_000_000_000);
    assert_eq!(arena.stored_heat(), 6_899_200_000_000_000_000);
    assert_eq!(first.entity, 0);
    assert_eq!(second.entity, 1);
    assert_eq!(first.color, Rgb { red: 255, green: 17, blue: 0 });
    assert_eq!(second.color, Rgb { red: 255, green: 0, blue: 0 });
    assert_eq!(first.temperature.whole_kelvin(), 612);
    assert_eq!(second.temperature.whole_kelvin(), 387);
}

#[test]
fn a_collision_does_what_the_step_does_to_the_two_bodies() {
    let mut arena = ParticleArena::new();
    assert!(arena.spawn(kelvin(800), 40, MaterialType::Iron).is_some());
    assert!(arena.spawn(kelvin(300), 90, MaterialType::Aluminium).is_some());
    let mut a = HeatBody::from_temperature_volume_material(
        kelvin(800),
        40,
        Material::from(MaterialType::Iron),
    );
    let mut b = HeatBody::from_temperature_volume_material(
        kelvin(300),
        90,
        Material::from(MaterialType::Aluminium),
    );
    b.transfer_heat(&mut a, FRAME_NANOS);
    assert!(arena.collide(1, 0).is_some());
    assert_eq!(heat_at(&arena, 0), a.heat());
    assert_eq!(heat_at(&arena, 1), b.heat());
}

#[test]
fn a_collision_with_an_entity_without_heat_is_ignored() {
    let mut arena = ParticleArena::new();
    let wall = arena.add_inert();
    assert!(arena.spawn(kelvin(1000), 1, MaterialType::Copper).is_some());
    assert!(arena.collide(wall, 1).is_none());
    assert!(arena.collide(1, wall).is_none());
    assert_eq!(heat_at(&arena, 1), 3_449_600_000);
    assert_eq!(arena.len(), 2);
}

#[test]
fn a_collision_of_an_entity_with_itself_is_ignored() {
    let mut arena = ParticleArena::new();
    assert!(arena.spawn(kelvin(1000), 1, MaterialType::Copper).is_some());
    assert!(arena.collide(0, 0).is_none());
    assert_eq!(heat_at(&arena, 0), 3_449_600_000);
}

#[test]
fn a_collision_with_an_unknown_handle_is_ignored() {
    let mut arena = ParticleArena::new();
    assert!(arena.spawn(kelvin(1000), 1, MaterialType::Copper).is_some());
    assert!(arena.collide(0, 1).is_none());
    assert!(arena.collide(7, 0).is_none());
    assert!(arena.collide(usize::MAX, usize::MAX).is_none());
    assert_eq!(heat_at(&arena, 0), 3_449_600_000);
}

#[test]
fn a_batch_is_applied_in_order_and_publishes_in_order() {
    let mut arena = ParticleArena::new();
    let wall = arena.add_inert();
    assert!(arena.spawn(kelvin(1000), 1, MaterialType::Copper).is_some());
    assert!(arena.spawn(kelvin(0), 1, MaterialType::Copper).is_some());
    assert!(arena.spawn(kelvin(0), 1, MaterialType::Copper).is_some());
    let events = vec![(1, 2), (wall, 1), (2, 2), (2, 3), (9, 1)];
    let published = arena.heat_transfer_event(&events);
    assert_eq!(published.len(), 4);
    assert_eq!(published[0].entity, 1);
    assert_eq!(published[1].entity, 2);
    assert_eq!(published[2].entity, 2);
    assert_eq!(published[3].entity, 3);
    assert!(published[0].temperature.is_as_hot_as(&kelvin(500)));
    assert!(published[1].temperature.is_as_hot_as(&kelvin(500)));
    assert!(published[2].temperature.is_as_hot_as(&kelvin(250)));
    assert!(published[3].temperature.is_as_hot_as(&kelvin(250)));
    assert_eq!(published[0].color, Rgb { red: 255, green: 0, blue: 0 });
    assert_eq!(heat_at(&arena, 1), 500 * 3_449_600);
    assert_eq!(heat_at(&arena, 2), 250 * 3_449_600);
    assert_eq!(heat_at(&arena, 3), 250 * 3_449_600);
    assert_eq!(arena.stored_heat(), 1000 * 3_449_600);
}

#[test]
fn a_batch_equals_its_collisions_one_by_one() {
    let mut batch = ParticleArena::new();
    let mut single = ParticleArena::new();
    for (temperature, volume) in [(900, 5), (100, 8), (400, 2)] {
        assert!(batch.spawn(kelvin(temperature), volume, MaterialType::Iron).is_some());
        assert!(single.spawn(kelvin(temperature), volume, MaterialType::Iron).is_some());
    }
    let events = vec![(0, 1), (1, 2), (2, 0), (0, 1)];
    let published = batch.heat_transfer_event(&events);
    let mut expected = Vec::new();
    for (a, b) in [(0, 1), (1, 2), (2, 0), (0, 1)] {
        if let Some((first, second)) = single.collide(a, b) {
            expected.push(first);
            expected.push(second);
        }
    }
    assert_eq!(published.len(), expected.len());
    for i in 0..published.len() {
        assert_eq!(published[i].entity, expected[i].entity);
        assert_eq!(published[i].color, expected[i].color);
        assert!(published[i].temperature.is_as_hot_as(&expected[i].temperature));
    }
    for entity in 0..3 {
        assert_eq!(heat_at(&batch, entity), heat_at(&single, entity));
    }
    assert_eq!(batch.stored_heat(), single.stored_heat());
}

#[test]
fn an_empty_batch_changes_nothing() {
    let mut arena = ParticleArena::new();
    assert!(arena.spawn(kelvin(1000), 1, MaterialType::Copper).is_some());
    let published = arena.heat_transfer_event(&Vec::new());
    assert!(published.is_empty());
    assert_eq!(heat_at(&arena, 0), 3_449_600_000);
}

#[test]
fn collisions_of_pairs_without_a_common_entity_commute() {
    let mut one = ParticleArena::new();
    let mut other = ParticleArena::new();
    for (temperature, volume) in [(900, 5), (100, 8), (400, 2), (2500, 3)] {
        assert!(one.spawn(kelvin(temperature), volume, MaterialType::Aluminium).is_some());
        assert!(other.spawn(kelvin(temperature), volume, MaterialType::Aluminium).is_some());
    }
    one.heat_transfer_event(&vec![(0, 1), (2, 3)]);
    other.heat_transfer_event(&vec![(2, 3), (0, 1)]);
    for entity in 0..4 {
        assert_eq!(heat_at(&one, entity), heat_at(&other, entity));
    }
}
