use hexscatter::events::{roll_row, CombatAction, EventData, EventKey, GridEvents};
use hexscatter::grid::Grid;
use hexscatter::hexmap::HexNode;
use hexscatter::math::Axial;
use hexscatter::rng::Shift64;

#[test]
fn tables_hold_their_rows() {
    let events = GridEvents::load_data();
    assert_eq!(events.combat.len(), 3);
    assert_eq!(events.energy.len(), 3);
    assert_eq!(events.mining.len(), 3);
    assert_eq!(events.combat[0].data.title, "Empty Space");
    assert_eq!(events.combat[0].data.descr, "An empty section of space.");
    assert!(!events.combat[0].data.enter);
    assert_eq!(events.combat[1].data.title, "Small Amboush");
    assert_eq!(events.combat[1].action.enemies, 4);
    assert_eq!(events.combat[2].data.title, "Big Amboush");
    assert!(events.combat[2].action.is_large);
    assert_eq!(events.combat[2].action.enemies, 8);
    assert_eq!(events.energy[0].data.title, "Dimm Star");
    assert_eq!(events.energy[0].action.energy, 10);
    assert_eq!(events.energy[1].action.energy, 30);
    assert_eq!(events.energy[2].data.descr, "A big star.");
    assert_eq!(events.energy[2].action.energy, 60);
    assert_eq!(events.mining[0].data.descr, "Seems there is nothing but dust left.");
    assert_eq!(events.mining[0].action.material, 10);
    assert_eq!(events.mining[1].data.title, "Small Belt");
    assert_eq!(events.mining[1].action.material, 25);
    assert_eq!(events.mining[2].action.material, 50);
    for row in &events.combat {
        assert_eq!(row.data.key, EventKey::Combat);
    }
    for row in &events.energy {
        assert_eq!(row.data.key, EventKey::Energy);
    }
    for row in &events.mining {
        assert_eq!(row.data.key, EventKey::Mining);
    }
}

#[test]
fn actions_by_kind() {
    let a = GridEvents::get_actions(EventKey::Empty);
    assert_eq!((a.enter.as_str(), a.leave.as_str()), ("enter", "leave"));
    let a = GridEvents::get_actions(EventKey::Combat);
    assert_eq!((a.enter.as_str(), a.leave.as_str()), ("attack", "flee"));
    let a = GridEvents::get_actions(EventKey::Energy);
    assert_eq!((a.enter.as_str(), a.leave.as_str()), ("harvest", "ignore"));
    let a = GridEvents::get_actions(EventKey::Mining);
    assert_eq!((a.enter.as_str(), a.leave.as_str()), ("explore", "leave"));
}

#[test]
fn default_text_is_nothing() {
    let d = EventData::default();
    assert_eq!(d.key, EventKey::Empty);
    assert!(!d.enter);
    assert_eq!(d.title, "Nothing");
    assert_eq!(d.descr, "Nothing to see, nothing to do here.");
    assert_eq!(EventKey::default(), EventKey::Empty);
}

#[test]
fn roll_row_follows_the_two_draws() {
    let mut seed: i64 = -50;
    while seed < 300 {
        for (threshold, span) in [(92, 3usize), (48, 2), (24, 2), (300, 5), (-2, 1)] {
            let mut g = Shift64::new(seed);
            let expected = if g.i32(256) > threshold { g.usize(span) + 1 } else { 0 };
            assert_eq!(roll_row(seed, threshold, span), Some(expected));
        }
        seed += 1;
    }
}

#[test]
fn rolls_pick_the_row_of_roll_row() {
    let events = GridEvents::load_data();
    let mut seed: i64 = 0;
    while seed < 200 {
        let row = roll_row(seed, 92, events.combat.len()).unwrap();
        if row < events.combat.len() {
            let info = events.roll_combat_table(seed);
            assert_eq!(info.data.title, events.combat[row].data.title);
            assert_eq!(info.action, events.combat[row].action);
        }
        let row = roll_row(seed, 48, events.energy.len() - 1).unwrap();
        let info = events.roll_energy_table(seed);
        assert_eq!(info.data.title, events.energy[row].data.title);
        assert_eq!(info.action, events.energy[row].action);
        let row = roll_row(seed, 24, events.mining.len() - 1).unwrap();
        let info = events.roll_mining_table(seed);
        assert_eq!(info.data.descr, events.mining[row].data.descr);
        assert_eq!(info.action, events.mining[row].action);
        seed += 1;
    }
}

#[test]
fn roll_exact_rows_for_seed_zero() {
    // Seed 0: the first draw below 256 is 176, the second below 3 is 0.
    let mut g = Shift64::new(0);
    assert_eq!(g.i32(256), 176);
    assert_eq!(g.usize(3), 0);
    let events = GridEvents::load_data();
    assert_eq!(roll_row(0, 92, 3), Some(1));
    assert_eq!(events.roll_combat_table(0).data.title, "Small Amboush");
    assert_eq!(roll_row(0, 200, 3), Some(0));
}

#[test]
fn waves_of_ships() {
    assert_eq!(CombatAction { is_large: false, enemies: 4 }.wave(), (0, 4));
    assert_eq!(CombatAction { is_large: true, enemies: 8 }.wave(), (1, 7));
    assert_eq!(CombatAction { is_large: false, enemies: 0 }.wave(), (0, 0));
    assert_eq!(CombatAction { is_large: true, enemies: 1 }.wave(), (1, 0));
}

#[test]
fn tables_have_the_rows_of_their_rolls() {
    let events = GridEvents::load_data();
    let mut seed: i64 = -100;
    while seed < 400 {
        assert!(events.has_roll(EventKey::Empty, seed));
        assert!(events.has_roll(EventKey::Energy, seed));
        assert!(events.has_roll(EventKey::Mining, seed));
        assert_eq!(
            events.has_roll(EventKey::Combat, seed),
            roll_row(seed, 92, 3).unwrap() < 3
        );
        seed += 1;
    }
    let mut short = GridEvents::load_data();
    short.energy.truncate(1);
    short.mining.clear();
    assert!(!short.has_roll(EventKey::Mining, 0));
    // Seed 0 rolls over the threshold of the energy table, to the row after the only one.
    assert_eq!(roll_row(0, 48, 0), Some(1));
    assert!(!short.has_roll(EventKey::Energy, 0));
}

#[test]
fn arriving_at_a_cell_sets_the_event_of_its_kind() {
    let events = GridEvents::load_data();
    let mut grid = Grid::new(2);
    let hex = Axial { q: 1, r: 0 };
    grid.hexmap.insert(hex, HexNode { key: EventKey::Mining, value: 3, entity: None });
    grid.start_event(&events, hex, 0);
    assert_eq!(grid.key, EventKey::Mining);
    assert!(grid.mining.is_some() && grid.combat.is_none() && grid.energy.is_none());
    let row = roll_row(0, 24, 2).unwrap();
    assert_eq!(grid.get_event_data().title, events.mining[row].data.title);

    grid.hexmap.insert(hex, HexNode { key: EventKey::Empty, value: 0, entity: None });
    assert!(grid.try_start_event(&events, hex, 0));
    assert_eq!(grid.key, EventKey::Empty);
    assert!(grid.mining.is_none());

    // A cell without a node counts as combat.
    let away = Axial { q: 9, r: 9 };
    assert!(grid.try_start_event(&events, away, 0));
    assert_eq!(grid.key, EventKey::Combat);
    assert_eq!(grid.get_event_data().title, "Small Amboush");

    let mut empty = GridEvents::load_data();
    empty.combat.clear();
    assert!(!grid.try_start_event(&empty, away, 0));
    assert_eq!(grid.key, EventKey::Combat);
    assert_eq!(grid.get_event_data().title, "Small Amboush");
}
