use rustcraft::chunk::world::{World, WorldPlayer};
use rustcraft::packets::client::ClientPackets;
use rustcraft::protocol_types::compound::{Position, Uuid};

#[test]
fn new_world_is_empty() {
    let world = World::new();
    assert!(world.chunk(&Position::new(0, 0, 0)).is_none());
    assert!(world.player(Uuid::nil()).is_none());
    assert!(world.get_chunk_radius(Position::new(0, 0, 0), 1)
        .iter()
        .all(|(_, _, column)| column.is_empty()));
}

#[test]
fn grass_world_is_seven_by_seven_columns_of_24_sections() {
    let world = World::new_grass();
    for x in -4..=4 {
        for z in -4..=4 {
            for y in -5..=20 {
                let there = world.chunk(&Position::new(x, y, z)).is_some();
                let expected = (-3..=3).contains(&x) && (-3..=3).contains(&z) && (-4..20).contains(&y);
                assert_eq!(there, expected, "at {} {} {}", x, y, z);
            }
        }
    }
    let low = world.chunk(&Position::new(-3, -4, 3)).unwrap();
    assert_eq!(low.air_count(), 0);
    assert_eq!(low.block(Position::new(5, 5, 5)), 1);
    assert_eq!(low.block(Position::new(5, 5, 6)), 9);
    assert_eq!(low.block(Position::new(0, 0, 0)), 9);
    let third = world.chunk(&Position::new(0, -2, 0)).unwrap();
    assert_eq!(third.block(Position::new(5, 5, 5)), 1);
    let above = world.chunk(&Position::new(0, -1, 0)).unwrap();
    assert_eq!(above.air_count(), 4096);
    assert_eq!(above.block(Position::new(5, 5, 5)), 0);
}

#[test]
fn sections_are_found_by_floored_division() {
    let world = World::new();
    let cases = [
        (Position::new(0, 0, 0), Position::new(0, 0, 0), Position::new(0, 0, 0)),
        (Position::new(15, 15, 15), Position::new(0, 0, 0), Position::new(15, 15, 15)),
        (Position::new(16, 32, 48), Position::new(1, 2, 3), Position::new(0, 0, 0)),
        (Position::new(-1, -1, -1), Position::new(-1, -1, -1), Position::new(15, 15, 15)),
        (Position::new(-16, -64, -17), Position::new(-1, -4, -2), Position::new(0, 0, 15)),
        (Position::new(-33, 100, 37), Position::new(-3, 6, 2), Position::new(15, 4, 5)),
        (
            Position::new(i32::MIN, i32::MAX, 0),
            Position::new(-134217728, 134217727, 0),
            Position::new(0, 15, 0),
        ),
    ];
    for (global, section, inside) in cases {
        assert_eq!(world.chunk_pos_for_global_pos(global), section);
        assert_eq!(world.rel_chunk_pos_for_global_pos(global), inside);
    }
}

#[test]
fn set_block_changes_one_block_and_tells_the_clients() {
    let mut world = World::new_grass();
    let at = Position::new(-20, -50, 37);
    let packets = world.set_block(at, 42).unwrap();
    assert_eq!(packets.len(), 1);
    match &packets[0] {
        ClientPackets::BlockUpdate(update) => {
            assert_eq!(update.position, at);
            assert_eq!(update.block_id.value, 42);
        }
        other => panic!("unexpected {:?}", other),
    }
    let section = world.chunk(&Position::new(-2, -4, 2)).unwrap();
    assert_eq!(section.block(Position::new(12, 14, 5)), 42);
    assert_eq!(section.block(Position::new(12, 14, 6)), 9);
    assert_eq!(section.air_count(), 0);
    // the neighbours stay as they were
    let beside = world.chunk(&Position::new(-1, -4, 2)).unwrap();
    assert_eq!(beside.block(Position::new(12, 14, 5)), 9);
    // air into a section of grass
    world.set_block(at, 0).unwrap();
    assert_eq!(world.chunk(&Position::new(-2, -4, 2)).unwrap().air_count(), 1);
}

#[test]
fn set_block_where_no_section_is_does_nothing() {
    let mut world = World::new_grass();
    assert!(world.set_block(Position::new(64, 0, 0), 1).is_none());
    assert!(world.set_block(Position::new(0, 320, 0), 1).is_none());
    assert!(world.set_block(Position::new(0, -65, 0), 1).is_none());
    assert!(world.chunk(&Position::new(4, 0, 0)).is_none());
    assert!(World::new().set_block(Position::new(0, 0, 0), 1).is_none());
}

#[test]
fn chunk_radius_goes_row_by_row() {
    let mut world = World::new_grass();
    world.set_block(Position::new(40, -60, -10), 77).unwrap();
    let columns = world.get_chunk_radius(Position::new(20, 0, -5), 1);
    assert_eq!(columns.len(), 9);
    let mut at = 0;
    for x in -1..=1 {
        for z in -1..=1 {
            assert_eq!((columns[at].0, columns[at].1), (x, z));
            assert_eq!(columns[at].2.len(), 24);
            at += 1;
        }
    }
    // the centre is the column (1, -1); the block went into column (2, -1)
    let column = &columns[2 * 3 + 1].2;
    assert_eq!(column[0].block(Position::new(8, 4, 6)), 77);
    assert_eq!(column[0].block(Position::new(5, 5, 5)), 1);
    assert_eq!(column[3].air_count(), 4096);
    assert_eq!(columns[0].2[0].block(Position::new(8, 4, 6)), 9);
}

#[test]
fn chunk_radius_leaves_out_what_is_not_there() {
    let world = World::new_grass();
    let columns = world.get_chunk_radius(Position::new(48, 0, 0), 1);
    assert_eq!(columns.len(), 9);
    // columns 2, 3 and 4 in x: the last lies outside the world
    for (x, _, column) in &columns {
        assert_eq!(column.len(), if *x == 1 { 0 } else { 24 });
    }
    assert_eq!(world.get_chunk_radius(Position::new(0, 0, 0), 0).len(), 1);
    assert_eq!(world.get_chunk_radius(Position::new(0, 0, 0), -1).len(), 0);
    assert_eq!(world.get_chunk_radius(Position::new(0, 0, 0), 3).len(), 49);
    // a negative coordinate belongs to the column below zero
    let columns = world.get_chunk_radius(Position::new(-1, 0, -49), 0);
    assert_eq!(columns[0].2.len(), 0);
    let columns = world.get_chunk_radius(Position::new(-1, 0, -48), 0);
    assert_eq!(columns[0].2.len(), 24);
}

#[test]
fn players_are_kept_by_their_uuid() {
    let mut world = World::new();
    let alice = Uuid::from_u128(1);
    let bob = Uuid::from_u128(2);
    world.set_player(WorldPlayer {
        uuid: alice,
        username: String::from("Alice"),
        position: Position::new(1, 2, 3),
    });
    world.set_player(WorldPlayer {
        uuid: bob,
        username: String::from("Bob"),
        position: Position::new(0, 0, 0),
    });
    world.set_player(WorldPlayer {
        uuid: alice,
        username: String::from("Alice"),
        position: Position::new(4, 5, 6),
    });
    let found = world.player(alice).unwrap();
    assert_eq!(found.username, "Alice");
    assert_eq!(found.position, Position::new(4, 5, 6));
    assert_eq!(world.player(bob).unwrap().username, "Bob");
    assert!(world.player(Uuid::from_u128(3)).is_none());
}
