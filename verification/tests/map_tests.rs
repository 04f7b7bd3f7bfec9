use hexscatter::bundle::{HexBundle, HexNodeId, HexPosition, HexTexture};
use hexscatter::events::{EventKey, GridEvents};
use hexscatter::grid::Grid;
use hexscatter::hexmap::{HexMap, HexNode};
use hexscatter::math::Axial;
use hexscatter::rng::Shift64;

fn cell(q: i32, r: i32) -> Axial {
    Axial { q, r }
}

fn blank() -> HexNode {
    HexNode { key: EventKey::Empty, value: 0, entity: None }
}

#[test]
fn spawn_fills_the_region_and_nothing_else() {
    let mut radius = 0;
    while radius <= 6 {
        let mut map = HexMap::new(radius);
        let cells = map.spawn_entities();
        assert_eq!(cells.len() as i32, 3 * radius * radius + 3 * radius + 1);
        let mut q = -radius - 2;
        while q <= radius + 2 {
            let mut r = -radius - 2;
            while r <= radius + 2 {
                let hex = cell(q, r);
                let inside = hex.distance(&cell(0, 0)) <= radius;
                assert_eq!(map.on_grid(&hex), inside);
                assert_eq!(map.get(&hex).is_some(), inside);
                assert_eq!(cells.contains(&hex), inside);
                if inside {
                    assert_eq!(map.get(&hex), Some(blank()));
                }
                r += 1;
            }
            q += 1;
        }
        radius += 1;
    }
}

#[test]
fn spawn_walks_by_column_then_row() {
    let mut map = HexMap::new(1);
    let cells = map.spawn_entities();
    assert_eq!(
        cells,
        vec![cell(-1, 0), cell(-1, 1), cell(0, -1), cell(0, 0), cell(0, 1), cell(1, -1), cell(1, 0)]
    );
}

#[test]
fn spawn_of_radius_zero_is_one_cell() {
    let mut map = HexMap::new(0);
    assert_eq!(map.spawn_entities(), vec![cell(0, 0)]);
    assert_eq!(map.nodes.len(), 1);
}

#[test]
fn spawn_of_negative_radius_is_empty() {
    let mut map = HexMap::new(-3);
    assert_eq!(map.spawn_entities(), Vec::<Axial>::new());
    assert_eq!(map.nodes.len(), 0);
    assert!(!map.on_grid(&cell(0, 0)));
}

#[test]
fn spawn_blanks_what_was_there_and_keeps_the_rest() {
    let mut map = HexMap::new(1);
    let inside = HexNode { key: EventKey::Energy, value: 9, entity: Some(4) };
    let outside = HexNode { key: EventKey::Mining, value: 7, entity: None };
    map.insert(cell(0, 1), inside);
    map.insert(cell(5, 5), outside);
    map.spawn_entities();
    assert_eq!(map.get(&cell(0, 1)), Some(blank()));
    assert_eq!(map.get(&cell(5, 5)), Some(outside));
    assert_eq!(map.nodes.len(), 8);
}

#[test]
fn insert_and_get_tell_cells_apart() {
    let mut map = HexMap::new(2);
    let a = HexNode { key: EventKey::Combat, value: 1, entity: None };
    let b = HexNode { key: EventKey::Energy, value: 2, entity: Some(77) };
    map.insert(cell(1, -1), a);
    map.insert(cell(-1, 1), b);
    map.insert(cell(i32::MIN, i32::MAX), a);
    map.insert(cell(i32::MAX, i32::MIN), b);
    assert_eq!(map.get(&cell(1, -1)), Some(a));
    assert_eq!(map.get(&cell(-1, 1)), Some(b));
    assert_eq!(map.get(&cell(i32::MIN, i32::MAX)), Some(a));
    assert_eq!(map.get(&cell(i32::MAX, i32::MIN)), Some(b));
    assert_eq!(map.get(&cell(0, 0)), None);
    map.insert(cell(1, -1), b);
    assert_eq!(map.get(&cell(1, -1)), Some(b));
    assert_eq!(map.nodes.len(), 4);
}

#[test]
fn collect_writes_in_order_and_the_last_write_stays() {
    let mut parent = HexMap::new(2);
    parent.spawn_entities();
    let mut child = HexMap::new(1);
    child.spawn_entities();
    let one = HexNode { key: EventKey::Energy, value: 1, entity: None };
    let two = HexNode { key: EventKey::Mining, value: 2, entity: None };
    child.insert(cell(0, 0), one);
    child.insert(cell(1, 0), two);
    let moves = vec![
        (cell(0, 0), cell(2, 0)),
        (cell(1, 0), cell(2, 0)),
        (cell(9, 9), cell(0, 0)),
        (cell(0, 0), cell(7, 7)),
    ];
    parent.collect(&child, &moves);
    assert_eq!(parent.get(&cell(2, 0)), Some(two));
    assert_eq!(parent.get(&cell(0, 0)), Some(blank()));
    assert_eq!(parent.get(&cell(7, 7)), Some(one));
    assert_eq!(parent.nodes.len(), 20);
}

#[test]
fn collect_of_disjoint_regions_in_either_order() {
    let one = HexNode { key: EventKey::Energy, value: 1, entity: None };
    let two = HexNode { key: EventKey::Mining, value: 2, entity: None };
    let mut a = HexMap::new(0);
    a.insert(cell(0, 0), one);
    let mut b = HexMap::new(0);
    b.insert(cell(0, 0), two);
    let to_left = vec![(cell(0, 0), cell(-1, 0))];
    let to_right = vec![(cell(0, 0), cell(1, 0))];

    let mut first = HexMap::new(1);
    first.spawn_entities();
    first.collect(&a, &to_left);
    first.collect(&b, &to_right);
    let mut second = HexMap::new(1);
    second.spawn_entities();
    second.collect(&b, &to_right);
    second.collect(&a, &to_left);

    let cells = HexMap::new(1).spawn_entities();
    for hex in cells {
        assert_eq!(first.get(&hex), second.get(&hex));
    }
    assert_eq!(first.get(&cell(-1, 0)), Some(one));
    assert_eq!(first.get(&cell(1, 0)), Some(two));
    assert_eq!(first.get(&cell(0, 0)), Some(blank()));
    assert_eq!(first.nodes.len(), 7);
}

#[test]
fn spawn_points_draws_category_then_value() {
    let mut map = HexMap::new(1);
    map.spawn_entities();
    map.set_entity(cell(0, 0), 41);
    let mut rng = Shift64::new(0);
    let cells = vec![cell(0, 0), cell(4, 4), cell(1, -1)];
    let placed = map.spawn_points(&mut rng, &cells);
    assert_eq!(placed, vec![true, false, true]);

    let mut again = Shift64::new(0);
    let k0 = again.i32(256);
    let v0 = again.i32(256);
    again.i32(256);
    again.i32(256);
    let k2 = again.i32(256);
    let v2 = again.i32(256);
    assert_eq!(rng.seed, again.seed);
    let cat = |k: i32| if k > 92 { EventKey::Energy } else { EventKey::Mining };
    assert_eq!(map.get(&cell(0, 0)), Some(HexNode { key: cat(k0), value: v0, entity: Some(41) }));
    assert_eq!(map.get(&cell(1, -1)), Some(HexNode { key: cat(k2), value: v2, entity: None }));
    assert_eq!(map.get(&cell(4, 4)), None);
    assert_eq!(map.get(&cell(0, 1)), Some(blank()));
}

#[test]
fn spawn_points_of_no_cells_changes_nothing() {
    let mut map = HexMap::new(1);
    map.spawn_entities();
    let mut rng = Shift64::new(5);
    let before = rng.seed;
    assert_eq!(map.spawn_points(&mut rng, &Vec::new()), Vec::<bool>::new());
    assert_eq!(rng.seed, before);
}

#[test]
fn set_entity_only_where_a_node_is() {
    let mut map = HexMap::new(0);
    map.spawn_entities();
    assert!(map.set_entity(cell(0, 0), 3));
    assert!(!map.set_entity(cell(1, 0), 3));
    assert_eq!(map.get(&cell(0, 0)), Some(HexNode { key: EventKey::Empty, value: 0, entity: Some(3) }));
    assert_eq!(map.get(&cell(1, 0)), None);
}

#[test]
fn grid_queries_give_defaults_for_absent_cells() {
    let mut grid = Grid::new(2);
    grid.hexmap.insert(cell(1, 1), HexNode { key: EventKey::Mining, value: 17, entity: Some(8) });
    assert_eq!(grid.get_value(cell(1, 1)), 17);
    assert_eq!(grid.get_entity(cell(1, 1)), Some(8));
    assert_eq!(grid.get_event_key(cell(1, 1)), EventKey::Mining);
    assert_eq!(grid.get_value(cell(0, 0)), 0);
    assert_eq!(grid.get_entity(cell(0, 0)), None);
    assert_eq!(grid.get_event_key(cell(0, 0)), EventKey::Combat);
    assert!(grid.on_grid(&cell(1, 1)));
    assert!(grid.on_grid(&cell(-2, 2)));
    assert!(!grid.on_grid(&cell(2, 1)));
}

#[test]
fn grid_holds_one_event_at_a_time() {
    let events = GridEvents::load_data();
    let mut grid = Grid::new(2);
    assert_eq!(grid.get_event_data().title, "Nothing");
    grid.set_event_combat(events.roll_combat_table(0));
    assert_eq!(grid.key, EventKey::Combat);
    assert!(grid.combat.is_some() && grid.energy.is_none() && grid.mining.is_none());
    assert_eq!(grid.get_event_data().key, EventKey::Combat);
    grid.set_event_energy(events.roll_energy_table(0));
    assert_eq!(grid.key, EventKey::Energy);
    assert!(grid.combat.is_none() && grid.energy.is_some() && grid.mining.is_none());
    assert_eq!(grid.get_event_data().key, EventKey::Energy);
    grid.set_event_mining(events.roll_mining_table(0));
    assert_eq!(grid.key, EventKey::Mining);
    assert!(grid.combat.is_none() && grid.energy.is_none() && grid.mining.is_some());
    assert_eq!(grid.get_event_data().key, EventKey::Mining);
    grid.key = EventKey::Combat;
    assert_eq!(grid.get_event_data().title, "Nothing");
    grid.clr_event();
    assert_eq!(grid.key, EventKey::Empty);
    assert!(grid.combat.is_none() && grid.energy.is_none() && grid.mining.is_none());
    assert_eq!(grid.get_event_data().descr, "Nothing to see, nothing to do here.");
}

#[test]
fn positions_and_cells_convert_both_ways() {
    let hex = cell(-3, 8);
    let pos = HexPosition::from(hex);
    assert_eq!(pos, HexPosition { x: -3, y: 8 });
    assert_eq!(pos.axial(), hex);
    let bundle = HexBundle::of_cell(hex, HexNodeId(12));
    assert_eq!(bundle.position, pos);
    assert_eq!(bundle.texture, HexTexture(0));
    assert_eq!(bundle.node, HexNodeId(12));
    assert_eq!(HexBundle::default().position, HexPosition::default());
    assert_eq!(HexNodeId::default(), HexNodeId(0));
}
