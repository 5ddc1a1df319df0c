use rustcraft::chunk::palette::{Palette, PaletteKind, PaletteValue, PalettedContainer};
use rustcraft::chunk::BlockState;
use rustcraft::err::ProtError;
use rustcraft::protocol_types::compound::Position;
use rustcraft::protocol_types::primitives::VarInt;

#[test]
fn test_palette() {
    let mut palette = Palette::new(PaletteKind::Blocks);
    let kind = PaletteKind::Blocks;
    let id = palette.index_or_insert(kind.int_val(1));
    assert_eq!(id, 1);
    let id = palette.index_or_insert(kind.int_val(2));
    assert_eq!(id, 2);
    let id = palette.index_or_insert(kind.int_val(1));
    assert_eq!(id, 1);
    let id = palette.index_or_insert(kind.int_val(3));
    assert_eq!(id, 3);
    let id = palette.index_or_insert(kind.int_val(2));
    assert_eq!(id, 2);
    let id = palette.index_or_insert(kind.int_val(3));
    assert_eq!(id, 3);
}

#[test]
fn set_block_get_block() {
    let mut container = PalettedContainer::new_blocks();
    let kind = PaletteKind::Blocks;
    container
        .set_at(Position::new(0, 0, 0), kind.int_val(1))
        .unwrap();
    assert_eq!(container.get_at(Position::new(0, 0, 0)), kind.int_val(1));
    container
        .set_at(Position::new(0, 0, 0), PaletteValue::Block(2))
        .unwrap();
    assert_eq!(
        container.get_at(Position::new(0, 0, 0)),
        PaletteValue::Block(2)
    );
    container
        .set_at(Position::new(0, 0, 0), PaletteValue::Block(0))
        .unwrap();
    assert_eq!(
        container.get_at(Position::new(0, 0, 0)),
        PaletteValue::Block(0)
    );
}

#[test]
fn test_multiple_positions() {
    let mut container = PalettedContainer::new_blocks();
    for i in 0..16 {
        for j in 0..16 {
            for k in 0..16 {
                container
                    .set_at(
                        Position::new(i, j, k),
                        PaletteValue::Block((i + j - k).abs() as BlockState),
                    )
                    .unwrap();
            }
        }
    }
    for i in 0..16 {
        for j in 0..16 {
            for k in 0..16 {
                assert_eq!(
                    container.get_at(Position::new(i, j, k)),
                    PaletteValue::Block((i + j - k).abs() as BlockState)
                );
            }
        }
    }
}

#[test]
fn test_multiple_positions_same_block() {
    let mut container = PalettedContainer::new_blocks();
    for i in 0..16 {
        for j in 0..16 {
            for k in 0..16 {
                container
                    .set_at(Position::new(i, j, k), PaletteValue::Block(3))
                    .unwrap();
            }
        }
    }
    for i in 0..16 {
        for j in 0..16 {
            for k in 0..16 {
                assert_eq!(
                    container.get_at(Position::new(i, j, k)),
                    PaletteValue::Block(3)
                );
            }
        }
    }
}

#[test]
fn palette_starts_with_the_neutral_value() {
    let blocks = Palette::new(PaletteKind::Blocks);
    assert_eq!(blocks.len(), 1);
    assert_eq!(blocks.get(0), PaletteValue::Block(0));
    let biomes = Palette::new(PaletteKind::Biomes);
    assert_eq!(biomes.get(0), PaletteValue::Biome(39));
    assert_eq!(biomes.get(7), PaletteValue::Biome(39));
}

#[test]
fn palette_ids_are_stable() {
    let mut palette = Palette::new(PaletteKind::Blocks);
    let first = palette.index_or_insert(PaletteValue::Block(17));
    for other in 100..140 {
        palette.index_or_insert(PaletteValue::Block(other));
    }
    assert_eq!(palette.index_or_insert(PaletteValue::Block(17)), first);
    assert_eq!(palette.index_or_insert(PaletteValue::Block(0)), 0);
    assert_eq!(palette.len(), 42);
    assert_eq!(palette.get(first), PaletteValue::Block(17));
}

#[test]
fn palette_tells_blocks_from_biomes() {
    let mut palette = Palette::new(PaletteKind::Blocks);
    let block = palette.index_or_insert(PaletteValue::Block(5));
    let biome = palette.index_or_insert(PaletteValue::Biome(5));
    assert_ne!(block, biome);
    assert_eq!(palette.get(biome), PaletteValue::Biome(5));
}

#[test]
fn palette_travels_in_the_order_of_its_ids() {
    let mut palette = Palette::new(PaletteKind::Blocks);
    palette.index_or_insert(PaletteValue::Block(9));
    palette.index_or_insert(PaletteValue::Block(300));
    let mut out = vec![0xaa];
    palette.write(&mut out);
    assert_eq!(out, vec![0xaa, 3, 0, 9, 0xac, 0x02]);
}

#[test]
fn kinds_have_their_numbers() {
    let blocks = PaletteKind::Blocks;
    let biomes = PaletteKind::Biomes;
    assert_eq!(blocks.container_length(), 4096);
    assert_eq!(biomes.container_length(), 64);
    assert_eq!(blocks.section_blocks(), 4096);
    assert_eq!(biomes.section_blocks(), 64);
    assert_eq!(blocks.section_edge(), 16);
    assert_eq!(biomes.section_edge(), 4);
    assert_eq!((blocks.min_palette_bits(), blocks.max_palette_bits()), (4, 8));
    assert_eq!((biomes.min_palette_bits(), biomes.max_palette_bits()), (1, 3));
    assert_eq!(blocks.global_palette_bits(), 15);
    assert_eq!(biomes.global_palette_bits(), 6);
    assert_eq!(blocks.neutral(), PaletteValue::Block(0));
    assert_eq!(biomes.neutral(), PaletteValue::Biome(39));
    assert_eq!(biomes.int_val(7), PaletteValue::Biome(7));
    assert!(blocks.can_hold(PaletteValue::Block(32767)));
    assert!(!blocks.can_hold(PaletteValue::Block(32768)));
    assert!(!blocks.can_hold(PaletteValue::Biome(1)));
    assert!(biomes.can_hold(PaletteValue::Biome(63)));
    assert!(!biomes.can_hold(PaletteValue::Biome(64)));
    assert_eq!(PaletteValue::Biome(3).raw(), 3);
    assert_eq!(PaletteValue::Biome(3).key(), 0x1_0000_0003);
    assert_eq!(PaletteValue::Block(3).key(), 3);
    assert_eq!(PaletteValue::Block(3).kind(), PaletteKind::Blocks);
    assert_eq!(u64::from(PaletteValue::Block(300)), 300);
    assert_eq!(u64::from(PaletteValue::Biome(39)), 39);
    assert_eq!(VarInt::from(PaletteValue::Biome(39)), VarInt { value: 39 });
    assert_eq!(VarInt::from(PaletteValue::Block(u32::MAX)), VarInt { value: -1 });
}

#[test]
fn container_index_counts_layers_then_rows() {
    let blocks = PalettedContainer::new_blocks();
    assert_eq!(blocks.block_index(Position::new(0, 0, 0)), Some(0));
    assert_eq!(blocks.block_index(Position::new(1, 2, 3)), Some((2 << 8) | (3 << 4) | 1));
    assert_eq!(blocks.block_index(Position::new(15, 15, 15)), Some(4095));
    assert_eq!(blocks.block_index(Position::new(16, 0, 0)), None);
    assert_eq!(blocks.block_index(Position::new(0, 16, 0)), None);
    assert_eq!(blocks.block_index(Position::new(0, 0, 16)), None);
    assert_eq!(blocks.block_index(Position::new(-1, 0, 0)), None);
    let biomes = PalettedContainer::new_biomes();
    assert_eq!(biomes.block_index(Position::new(1, 2, 3)), Some((2 << 4) | (3 << 2) | 1));
    assert_eq!(biomes.block_index(Position::new(3, 3, 3)), Some(63));
    assert_eq!(biomes.block_index(Position::new(4, 0, 0)), None);
}

#[test]
fn container_refuses_positions_outside() {
    let mut container = PalettedContainer::new_blocks();
    let outside = Position::new(0, 16, 0);
    match container.set_at(outside, PaletteValue::Block(1)) {
        Err(ProtError::PositionOutOfBounds(position)) => assert_eq!(position, outside),
        other => panic!("unexpected {:?}", other),
    }
    assert_eq!(container.get_at(outside), PaletteValue::Block(0));
    assert_eq!(container.get_at(Position::new(0, 15, 0)), PaletteValue::Block(0));
}

#[test]
fn container_keeps_4096_distinct_values() {
    let mut container = PalettedContainer::new_blocks();
    let mut state: BlockState = 0;
    for y in 0..16 {
        for z in 0..16 {
            for x in 0..16 {
                container
                    .set_at(Position::new(x, y, z), PaletteValue::Block(state + 100))
                    .unwrap();
                state += 1;
            }
        }
    }
    let mut state: BlockState = 0;
    for y in 0..16 {
        for z in 0..16 {
            for x in 0..16 {
                assert_eq!(
                    container.get_at(Position::new(x, y, z)),
                    PaletteValue::Block(state + 100)
                );
                state += 1;
            }
        }
    }
    let mut out = Vec::new();
    container.write(&mut out);
    assert_eq!(out[0], 15);
    assert_eq!(&out[1..3], &[0x80, 0x08]);
    assert_eq!(out.len(), 1 + 2 + 1024 * 8);
}

#[test]
fn container_grows_bit_by_bit() {
    let mut container = PalettedContainer::new_blocks();
    for state in 1..16 {
        container
            .set_at(Position::new(state as i32, 0, 0), PaletteValue::Block(state))
            .unwrap();
    }
    let mut out = Vec::new();
    container.write(&mut out);
    assert_eq!(out[0], 4);
    container
        .set_at(Position::new(0, 1, 0), PaletteValue::Block(16))
        .unwrap();
    let mut out = Vec::new();
    container.write(&mut out);
    assert_eq!(out[0], 5);
    for state in 1..16 {
        assert_eq!(
            container.get_at(Position::new(state as i32, 0, 0)),
            PaletteValue::Block(state)
        );
    }
    assert_eq!(container.get_at(Position::new(0, 1, 0)), PaletteValue::Block(16));
}

#[test]
fn biome_container_goes_direct_past_eight_values() {
    let mut container = PalettedContainer::new_biomes();
    for biome in 0..9 {
        container
            .set_at(Position::new(biome % 4, 0, biome / 4), PaletteValue::Biome(biome as u32))
            .unwrap();
    }
    for biome in 0..9 {
        assert_eq!(
            container.get_at(Position::new(biome % 4, 0, biome / 4)),
            PaletteValue::Biome(biome as u32)
        );
    }
    assert_eq!(container.get_at(Position::new(3, 3, 3)), PaletteValue::Biome(39));
    let mut out = Vec::new();
    container.write(&mut out);
    assert_eq!(out[0], 6);
    assert_eq!(out[1], 7);
    assert_eq!(out.len(), 2 + 7 * 8);
}

#[test]
fn container_copy_is_its_own() {
    let mut container = PalettedContainer::new_blocks();
    container
        .set_at(Position::new(1, 1, 1), PaletteValue::Block(7))
        .unwrap();
    let copy = container.clone();
    container
        .set_at(Position::new(1, 1, 1), PaletteValue::Block(8))
        .unwrap();
    assert_eq!(copy.get_at(Position::new(1, 1, 1)), PaletteValue::Block(7));
    assert_eq!(container.get_at(Position::new(1, 1, 1)), PaletteValue::Block(8));
}

#[test]
fn new_containers_start_narrow_and_empty() {
    let mut out = Vec::new();
    PalettedContainer::new_blocks().write(&mut out);
    // one value: no bits, air, no words
    assert_eq!(out, vec![0, 0, 0]);
    let mut blocks = PalettedContainer::new_blocks();
    blocks.set_at(Position::new(1, 0, 0), PaletteValue::Block(9)).unwrap();
    let mut out = Vec::new();
    blocks.write(&mut out);
    assert_eq!(&out[..6], &[4, 2, 0, 9, 0x80, 0x02]);
    assert_eq!(&out[6..14], &[0, 0, 0, 0, 0, 0, 0, 0x10]);
    assert!(out[14..].iter().all(|byte| *byte == 0));
    let mut biomes = PalettedContainer::new_biomes();
    let mut out = Vec::new();
    biomes.write(&mut out);
    assert_eq!(out, vec![0, 39, 0]);
    biomes.set_at(Position::new(3, 3, 3), PaletteValue::Biome(1)).unwrap();
    let mut out = Vec::new();
    biomes.write(&mut out);
    assert_eq!(out, vec![1, 2, 39, 1, 1, 0x80, 0, 0, 0, 0, 0, 0, 0]);
}
