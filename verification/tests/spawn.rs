use invaders::entity::{Entity, Field};
use invaders::spawn::{
    clamp_draw, draw_enemy, enemy_from_draws, spawn_from_draws, spawns, x_range, ENEMY_SIZE_MAX,
    ENEMY_SIZE_MIN, ENEMY_SPEED_MAX, ENEMY_SPEED_MIN, ROLL_ABOVE, ROLL_SPAN,
};

const FIELD: Field = Field { width: 800_000, height: 600_000 };

#[test]
fn ranges_are_in_sub_units() {
    assert_eq!((ENEMY_SIZE_MIN, ENEMY_SIZE_MAX), (16_000, 64_000));
    assert_eq!((ENEMY_SPEED_MIN, ENEMY_SPEED_MAX), (50_000, 150_000));
    assert_eq!((ROLL_SPAN, ROLL_ABOVE), (99, 95));
}

#[test]
fn a_roll_above_the_mark_spawns() {
    assert!(!spawns(0));
    assert!(!spawns(95));
    assert!(spawns(96));
    assert!(spawns(98));
    assert!(!spawns(-1));
}

#[test]
fn clamp_draw_brings_a_draw_into_range() {
    assert_eq!(clamp_draw(5, 1, 10), 5);
    assert_eq!(clamp_draw(0, 1, 10), 1);
    assert_eq!(clamp_draw(11, 1, 10), 10);
    assert_eq!(clamp_draw(1, 1, 10), 1);
    assert_eq!(clamp_draw(10, 1, 10), 10);
}

#[test]
fn clamp_draw_on_an_empty_range_gives_the_low_end() {
    assert_eq!(clamp_draw(5, 10, 1), 10);
    assert_eq!(clamp_draw(50, 10, 1), 10);
    assert_eq!(clamp_draw(-50, 10, 1), 10);
}

#[test]
fn x_range_keeps_the_box_on_the_field() {
    assert_eq!(x_range(&FIELD, 32_000), (16_000, 784_000));
    assert_eq!(x_range(&FIELD, 16_001), (8_001, 791_999));
    assert_eq!(x_range(&FIELD, 0), (0, 800_000));
}

#[test]
fn x_range_on_a_narrow_field_is_one_point() {
    let narrow = Field { width: 10_000, height: 600_000 };
    assert_eq!(x_range(&narrow, 32_000), (16_000, 16_000));
    let none = Field { width: 0, height: 0 };
    assert_eq!(x_range(&none, 64_000), (32_000, 32_000));
    let exact = Field { width: 32_000, height: 600_000 };
    assert_eq!(x_range(&exact, 32_000), (16_000, 16_000));
}

#[test]
fn x_range_takes_the_widest_values() {
    let wide = Field { width: u32::MAX, height: 0 };
    assert_eq!(x_range(&wide, 0), (0, i32::MAX));
    assert_eq!(x_range(&wide, u32::MAX), (i32::MAX, i32::MAX));
    assert_eq!(x_range(&FIELD, u32::MAX), (i32::MAX, i32::MAX));
}

#[test]
fn an_enemy_is_made_of_its_three_draws() {
    let e = enemy_from_draws(&FIELD, 32_000, 400_000, 100_000);
    assert_eq!(e, Entity::new(400_000, -32_000, 32_000, 100_000));
}

#[test]
fn draws_out_of_range_are_brought_in() {
    let e = enemy_from_draws(&FIELD, 5, -7, 1_000_000);
    assert_eq!(e, Entity::new(8_000, -16_000, 16_000, 150_000));
    let e = enemy_from_draws(&FIELD, i32::MAX, i32::MAX, i32::MIN);
    assert_eq!(e, Entity::new(768_000, -64_000, 64_000, 50_000));
}

#[test]
fn an_enemy_on_a_narrow_field_spawns_at_the_left() {
    let narrow = Field { width: 10_000, height: 600_000 };
    let e = enemy_from_draws(&narrow, 32_000, 5_000, 100_000);
    assert_eq!(e, Entity::new(16_000, -32_000, 32_000, 100_000));
}

fn proper(field: &Field, e: &Entity) -> bool {
    let (low, high) = x_range(field, e.size);
    !e.marked_for_removal
        && ENEMY_SIZE_MIN <= e.size
        && e.size <= ENEMY_SIZE_MAX
        && ENEMY_SPEED_MIN <= e.speed
        && e.speed <= ENEMY_SPEED_MAX
        && e.y as i64 == -(e.size as i64)
        && low <= e.x
        && e.x <= high
}

#[test]
fn drawn_enemies_are_proper_and_vary() {
    let mut drawn: Vec<Entity> = vec![];
    let mut misses = 0;
    for _ in 0..20_000 {
        match draw_enemy(&FIELD) {
            Some(e) => {
                assert!(proper(&FIELD, &e));
                // The whole box lies between the side edges.
                assert!(2 * e.x as i64 - e.size as i64 >= 0);
                assert!(2 * e.x as i64 + e.size as i64 <= 2 * FIELD.width as i64);
                drawn.push(e);
            }
            None => misses += 1,
        }
    }
    // About one tick in twenty-five brings an enemy.
    assert!(drawn.len() > 200);
    assert!(misses > 15_000);
    let first = drawn[0];
    assert!(drawn.iter().any(|e| e.size != first.size));
    assert!(drawn.iter().any(|e| e.x != first.x));
    assert!(drawn.iter().any(|e| e.speed != first.speed));
}

#[test]
fn a_roll_up_to_the_mark_brings_no_enemy() {
    for roll in [i32::MIN, -1, 0, 1, 50, 94, 95] {
        assert_eq!(spawn_from_draws(&FIELD, roll, 32_000, 400_000, 100_000), None);
    }
}

#[test]
fn a_roll_above_the_mark_brings_the_enemy_of_the_draws() {
    for roll in [96, 97, 98, 99, i32::MAX] {
        assert_eq!(
            spawn_from_draws(&FIELD, roll, 32_000, 400_000, 100_000),
            Some(Entity::new(400_000, -32_000, 32_000, 100_000))
        );
        assert_eq!(
            spawn_from_draws(&FIELD, roll, 5, -7, 1_000_000),
            Some(Entity::new(8_000, -16_000, 16_000, 150_000))
        );
    }
}
