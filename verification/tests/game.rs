use logic_farming::controller::{character_movement, movement_fits};
use logic_farming::countdown::Countdown;
use logic_farming::entity::{Entity, Kind, Pig, Player, Position};
use logic_farming::input::{Controls, KeySignal};
use logic_farming::money::Money;
use logic_farming::setup::setup;
use logic_farming::spawner::{purchase_fits, spawn_pig, Purchase};
use logic_farming::sweeper::{pig_lifetime, sales_fit, Sale};
use logic_farming::world::World;

const SECOND: u64 = 1_000_000_000;

fn at(x: i64, y: i64) -> Position {
    Position { x, y }
}

fn keys(up: bool, down: bool, left: bool, right: bool) -> Controls {
    Controls::released().sample(up, down, left, right, false)
}

fn action_pressed() -> Controls {
    Controls::released().sample(false, false, false, false, true)
}

fn player_position(world: &World) -> Position {
    world.entities()[world.single_player().unwrap()].position
}

fn pig_aged(id: u64, position: Position, elapsed: u64) -> Entity {
    Entity {
        id,
        position,
        kind: Kind::Pig(Pig {
            lifetime: Countdown { duration: 2 * SECOND, elapsed, finished: false },
        }),
    }
}

#[test]
fn player_moves_by_speed_times_time_on_one_axis() {
    let mut world = setup();
    assert!(movement_fits(&world, &keys(true, false, false, false), 16_666_667));
    character_movement(&mut world, &keys(true, false, false, false), 16_666_667);
    assert_eq!(player_position(&world), at(0, 1_666_666_700));
    character_movement(&mut world, &keys(false, false, true, false), SECOND);
    assert_eq!(player_position(&world), at(-100_000_000_000, 1_666_666_700));
    character_movement(&mut world, &keys(false, true, false, false), 2 * SECOND);
    assert_eq!(player_position(&world), at(-100_000_000_000, -198_333_333_300));
    character_movement(&mut world, &keys(false, false, false, true), 3);
    assert_eq!(player_position(&world), at(-99_999_999_700, -198_333_333_300));
}

#[test]
fn diagonal_movement_adds_both_axes_in_full() {
    let mut world = setup();
    character_movement(&mut world, &keys(true, false, false, true), SECOND);
    assert_eq!(player_position(&world), at(100 * SECOND as i64, 100 * SECOND as i64));
    character_movement(&mut world, &keys(false, true, true, false), SECOND / 2);
    assert_eq!(player_position(&world), at(50 * SECOND as i64, 50 * SECOND as i64));
}

#[test]
fn opposite_keys_cancel() {
    let mut world = setup();
    character_movement(&mut world, &keys(true, true, false, false), SECOND);
    assert_eq!(player_position(&world), at(0, 0));
    character_movement(&mut world, &keys(true, true, true, true), SECOND);
    assert_eq!(player_position(&world), at(0, 0));
    character_movement(&mut world, &keys(true, true, false, true), SECOND);
    assert_eq!(player_position(&world), at(100 * SECOND as i64, 0));
}

#[test]
fn no_key_and_no_time_leave_the_player_in_place() {
    let mut world = setup();
    character_movement(&mut world, &keys(false, false, false, false), SECOND);
    assert_eq!(player_position(&world), at(0, 0));
    character_movement(&mut world, &keys(true, false, false, true), 0);
    assert_eq!(player_position(&world), at(0, 0));
}

#[test]
fn movement_uses_the_speed_of_the_player() {
    let mut world = World::new();
    world.spawn(at(5, -5), Kind::Player(Player { speed: 3 }));
    character_movement(&mut world, &keys(false, true, false, true), 7);
    assert_eq!(player_position(&world), at(26, -26));
}

#[test]
fn movement_leaves_pigs_where_they_are() {
    let mut world = setup();
    world.spawn(at(9, 9), Kind::Pig(Pig::new()));
    character_movement(&mut world, &keys(true, false, false, true), SECOND);
    assert_eq!(world.entities()[1], pig_aged(1, at(9, 9), 0));
    assert_eq!(world.len(), 2);
}

#[test]
fn movement_fits_tells_when_the_player_would_leave_the_plane() {
    let mut world = World::new();
    world.spawn(at(i64::MAX - 10, i64::MIN + 10), Kind::Player(Player { speed: 1 }));
    assert!(movement_fits(&world, &keys(false, false, false, true), 10));
    assert!(!movement_fits(&world, &keys(false, false, false, true), 11));
    assert!(movement_fits(&world, &keys(false, true, false, false), 10));
    assert!(!movement_fits(&world, &keys(false, true, false, false), 11));
    assert!(movement_fits(&world, &keys(true, true, true, true), u64::MAX));
    assert!(!movement_fits(&world, &keys(true, false, true, false), u64::MAX));
    character_movement(&mut world, &keys(false, true, false, true), 10);
    assert_eq!(player_position(&world), at(i64::MAX, i64::MIN));
}

#[test]
fn movement_fits_asks_for_one_player() {
    let mut world = World::new();
    assert!(!movement_fits(&world, &keys(false, false, false, false), 0));
    world.spawn(at(0, 0), Kind::Player(Player { speed: 1 }));
    assert!(movement_fits(&world, &keys(false, false, false, false), 0));
    world.spawn(at(0, 0), Kind::Player(Player { speed: 1 }));
    assert!(!movement_fits(&world, &keys(false, false, false, false), 0));
}

#[test]
fn purchase_takes_the_price_and_spawns_a_pig_at_the_player() {
    let mut world = setup();
    let mut money = Money(100);
    character_movement(&mut world, &keys(true, false, false, true), 1);
    assert!(purchase_fits(&world, &money, &action_pressed()));
    let purchase = spawn_pig(&mut world, &mut money, &action_pressed());
    assert_eq!(purchase, Some(Purchase { pig: 1, position: at(100, 100), balance: 90 }));
    assert_eq!(money, Money(90));
    assert_eq!(world.pig_count(), 1);
    assert_eq!(world.entities()[1], pig_aged(1, at(100, 100), 0));
    assert_eq!(player_position(&world), at(100, 100));
}

#[test]
fn purchase_spends_the_last_ten() {
    let mut world = setup();
    let mut money = Money(10);
    let purchase = spawn_pig(&mut world, &mut money, &action_pressed());
    assert_eq!(purchase, Some(Purchase { pig: 1, position: at(0, 0), balance: 0 }));
    assert_eq!(money, Money(0));
    assert_eq!(world.pig_count(), 1);
}

#[test]
fn purchase_without_the_price_changes_nothing() {
    for balance in [0u64, 1, 9] {
        let mut world = setup();
        let mut money = Money(balance);
        assert!(purchase_fits(&world, &money, &action_pressed()));
        assert_eq!(spawn_pig(&mut world, &mut money, &action_pressed()), None);
        assert_eq!(money, Money(balance));
        assert_eq!(world.pig_count(), 0);
        assert_eq!(world.len(), 1);
    }
}

#[test]
fn nothing_is_bought_while_the_key_is_up() {
    let mut world = setup();
    let mut money = Money(100);
    assert_eq!(spawn_pig(&mut world, &mut money, &Controls::released()), None);
    assert_eq!(spawn_pig(&mut world, &mut money, &keys(true, true, true, true)), None);
    assert_eq!(money, Money(100));
    assert_eq!(world.len(), 1);
}

#[test]
fn held_action_key_buys_one_pig() {
    let mut world = setup();
    let mut money = Money(100);
    let mut controls = Controls::released();
    for _ in 0..5 {
        controls = controls.sample(false, false, false, false, true);
        spawn_pig(&mut world, &mut money, &controls);
    }
    assert_eq!(money, Money(90));
    assert_eq!(world.pig_count(), 1);

    controls = controls.sample(false, false, false, false, false);
    spawn_pig(&mut world, &mut money, &controls);
    controls = controls.sample(false, false, false, false, true);
    spawn_pig(&mut world, &mut money, &controls);
    assert_eq!(money, Money(80));
    assert_eq!(world.pig_count(), 2);
}

#[test]
fn held_but_not_pressed_buys_nothing() {
    let mut world = setup();
    let mut money = Money(100);
    let mut controls = Controls::released();
    controls.action = KeySignal { held: true, just_pressed: false };
    assert_eq!(spawn_pig(&mut world, &mut money, &controls), None);
    assert_eq!(money, Money(100));
    assert_eq!(world.pig_count(), 0);
}

#[test]
fn purchase_fits_asks_for_one_player_once_the_key_is_pressed() {
    let mut world = World::new();
    let money = Money(100);
    assert!(purchase_fits(&world, &money, &Controls::released()));
    assert!(!purchase_fits(&world, &money, &action_pressed()));
    assert!(!purchase_fits(&world, &Money(0), &action_pressed()));
    world.spawn(at(0, 0), Kind::Player(Player { speed: 1 }));
    assert!(purchase_fits(&world, &money, &action_pressed()));
    world.spawn(at(0, 0), Kind::Player(Player { speed: 1 }));
    assert!(!purchase_fits(&world, &money, &action_pressed()));
    assert!(purchase_fits(&world, &money, &Controls::released()));
}

#[test]
fn pig_is_sold_when_its_lifetime_has_passed() {
    let mut world = setup();
    let mut money = Money(100);
    spawn_pig(&mut world, &mut money, &action_pressed());
    assert!(sales_fit(&world, &money, 2 * SECOND));
    let sales = pig_lifetime(&mut world, &mut money, 2 * SECOND);
    assert_eq!(sales, vec![Sale { pig: 1, balance: 105 }]);
    assert_eq!(money, Money(105));
    assert_eq!(world.pig_count(), 0);
    assert_eq!(world.index_of(1), None);
    assert_eq!(world.len(), 1);
}

#[test]
fn pig_is_kept_until_the_last_nanosecond() {
    let mut world = setup();
    let mut money = Money(100);
    spawn_pig(&mut world, &mut money, &action_pressed());
    assert_eq!(pig_lifetime(&mut world, &mut money, 2 * SECOND - 1), vec![]);
    assert_eq!(money, Money(90));
    assert_eq!(world.entities()[1], pig_aged(1, at(0, 0), 2 * SECOND - 1));
    assert_eq!(pig_lifetime(&mut world, &mut money, 0), vec![]);
    assert_eq!(world.pig_count(), 1);
    assert_eq!(pig_lifetime(&mut world, &mut money, 1), vec![Sale { pig: 1, balance: 105 }]);
    assert_eq!(money, Money(105));
    assert_eq!(world.pig_count(), 0);
}

#[test]
fn frames_add_up_to_a_lifetime() {
    let mut world = setup();
    let mut money = Money(100);
    spawn_pig(&mut world, &mut money, &action_pressed());
    for frame in 1..=119u64 {
        assert_eq!(pig_lifetime(&mut world, &mut money, 16_666_667), vec![]);
        assert_eq!(world.entities()[1], pig_aged(1, at(0, 0), frame * 16_666_667));
    }
    assert_eq!(
        pig_lifetime(&mut world, &mut money, 16_666_667),
        vec![Sale { pig: 1, balance: 105 }]
    );
    assert_eq!(world.pig_count(), 0);
}

#[test]
fn sold_pig_is_not_paid_for_again() {
    let mut world = setup();
    let mut money = Money(100);
    spawn_pig(&mut world, &mut money, &action_pressed());
    pig_lifetime(&mut world, &mut money, 3 * SECOND);
    assert_eq!(money, Money(105));
    for _ in 0..3 {
        assert_eq!(pig_lifetime(&mut world, &mut money, 3 * SECOND), vec![]);
    }
    assert_eq!(money, Money(105));
    assert_eq!(world.len(), 1);
}

#[test]
fn pigs_of_one_frame_are_sold_in_table_order() {
    let mut world = setup();
    let mut money = Money(30);
    let mut controls = Controls::released();
    for _ in 0..3 {
        controls = controls.sample(false, false, false, false, true);
        spawn_pig(&mut world, &mut money, &controls);
        controls = controls.sample(false, false, false, false, false);
        pig_lifetime(&mut world, &mut money, SECOND / 2);
    }
    assert_eq!(money, Money(0));
    assert_eq!(
        world.entities()[1..],
        [
            pig_aged(1, at(0, 0), 3 * SECOND / 2),
            pig_aged(2, at(0, 0), SECOND),
            pig_aged(3, at(0, 0), SECOND / 2),
        ]
    );
    let sales = pig_lifetime(&mut world, &mut money, SECOND);
    assert_eq!(sales, vec![Sale { pig: 1, balance: 15 }, Sale { pig: 2, balance: 30 }]);
    assert_eq!(money, Money(30));
    assert_eq!(world.entities()[1..], [pig_aged(3, at(0, 0), 3 * SECOND / 2)]);
    assert_eq!(world.single_player(), Ok(0));
}

#[test]
fn sweep_sells_a_pig_that_stands_before_the_player() {
    let mut world = World::new();
    world.spawn(at(1, 1), Kind::Pig(Pig::new()));
    world.spawn(at(2, 2), Kind::Player(Player { speed: 100 }));
    world.spawn(at(3, 3), Kind::Pig(Pig { lifetime: Countdown::new(5 * SECOND) }));
    let mut money = Money(0);
    assert_eq!(pig_lifetime(&mut world, &mut money, 2 * SECOND), vec![Sale { pig: 0, balance: 15 }]);
    assert_eq!(world.single_player(), Ok(0));
    assert_eq!(
        world.entities(),
        &vec![
            Entity { id: 1, position: at(2, 2), kind: Kind::Player(Player { speed: 100 }) },
            Entity {
                id: 2,
                position: at(3, 3),
                kind: Kind::Pig(Pig {
                    lifetime: Countdown { duration: 5 * SECOND, elapsed: 2 * SECOND, finished: false },
                }),
            },
        ]
    );
}

#[test]
fn sweep_sells_a_pig_that_came_finished() {
    let mut world = World::new();
    let done = Countdown { duration: SECOND, elapsed: SECOND, finished: true };
    world.spawn(at(0, 0), Kind::Pig(Pig { lifetime: done }));
    let mut money = Money(1);
    assert_eq!(pig_lifetime(&mut world, &mut money, 0), vec![Sale { pig: 0, balance: 16 }]);
    assert_eq!(world.len(), 0);
}

#[test]
fn sweep_of_an_empty_table_does_nothing() {
    let mut world = World::new();
    let mut money = Money(7);
    assert!(sales_fit(&world, &money, u64::MAX));
    assert_eq!(pig_lifetime(&mut world, &mut money, u64::MAX), vec![]);
    assert_eq!(money, Money(7));
}

#[test]
fn sales_fit_tells_when_the_wallet_would_overflow() {
    let mut world = setup();
    world.spawn(at(0, 0), Kind::Pig(Pig::new()));
    world.spawn(at(0, 0), Kind::Pig(Pig::new()));
    assert!(sales_fit(&world, &Money(u64::MAX - 30), 2 * SECOND));
    assert!(!sales_fit(&world, &Money(u64::MAX - 29), 2 * SECOND));
    assert!(sales_fit(&world, &Money(u64::MAX), 2 * SECOND - 1));
    let mut money = Money(u64::MAX - 30);
    let sales = pig_lifetime(&mut world, &mut money, 2 * SECOND);
    assert_eq!(
        sales,
        vec![Sale { pig: 1, balance: u64::MAX - 15 }, Sale { pig: 2, balance: u64::MAX }]
    );
    assert_eq!(money, Money(u64::MAX));
}

#[test]
fn two_purchases_and_two_sales_leave_a_profit_of_ten() {
    let mut world = setup();
    let mut money = Money::starting();
    assert_eq!(money, Money(100));

    let mut controls = Controls::released().sample(false, false, false, false, true);
    spawn_pig(&mut world, &mut money, &controls);
    assert_eq!(money, Money(90));
    assert_eq!(world.pig_count(), 1);

    controls = controls.sample(false, false, false, false, false);
    spawn_pig(&mut world, &mut money, &controls);
    controls = controls.sample(false, false, false, false, true);
    spawn_pig(&mut world, &mut money, &controls);
    assert_eq!(money, Money(80));
    assert_eq!(world.pig_count(), 2);

    let sales = pig_lifetime(&mut world, &mut money, 2 * SECOND);
    assert_eq!(sales, vec![Sale { pig: 1, balance: 95 }, Sale { pig: 2, balance: 110 }]);
    assert_eq!(money, Money(110));
    assert_eq!(world.pig_count(), 0);
    assert_eq!(world.len(), 1);
}
