use rustcraft::chunk::section::ChunkSection;
use rustcraft::err::ProtError;
use rustcraft::protocol_types::compound::Position;

#[test]
fn test_air_count() {
    let mut chunk = ChunkSection::new();
    assert_eq!(chunk.air_count(), 16 * 16 * 16);
    chunk.set_block(Position::new(0, 0, 0), 1).unwrap();
    assert_eq!(chunk.air_count(), 16 * 16 * 16 - 1);
    chunk.set_block(Position::new(0, 0, 0), 0).unwrap();
    assert_eq!(chunk.air_count(), 16 * 16 * 16);
}

#[test]
fn test_resize() {
    let mut chunk = ChunkSection::new();
    for i in 0..16 * 16 * 16 {
        chunk.set_block(Position::new(0, 0, 0), i as u32).unwrap();
    }
    assert_eq!(chunk.air_count(), 16 * 16 * 16 - 1);
}

#[test]
fn set_and_get_biome() {
    let mut chunk = ChunkSection::new();
    chunk.set_biome(Position::new(0, 0, 0), 1).unwrap();
    assert_eq!(chunk.biome(Position::new(0, 0, 0)), 1);
}

#[test]
fn set_and_get_biomes() {
    let mut chunk = ChunkSection::new();
    for i in 0..4 {
        for j in 0..4 {
            chunk
                .set_biome(Position::new(i, 0, j), (i * 16 + j) as u32)
                .unwrap();
        }
    }
    for i in 0..4 {
        for j in 0..4 {
            assert_eq!(chunk.biome(Position::new(i, 0, j)), (i * 16 + j) as u32);
        }
    }
}

#[test]
fn set_and_get_blocks() {
    let mut chunk = ChunkSection::new();
    for i in 0..16 {
        for j in 0..16 {
            chunk
                .set_block(Position::new(i, 0, j), (i * 16 + j) as u32)
                .unwrap();
        }
    }
    for i in 0..16 {
        for j in 0..16 {
            assert_eq!(chunk.block(Position::new(i, 0, j)), (i * 16 + j) as u32);
        }
    }
}

#[test]
fn air_count_follows_fill_and_set() {
    let mut chunk = ChunkSection::new();
    chunk.fill(9);
    assert_eq!(chunk.air_count(), 0);
    chunk.set_block(Position::new(3, 4, 5), 0).unwrap();
    assert_eq!(chunk.air_count(), 1);
    chunk.set_block(Position::new(3, 4, 5), 9).unwrap();
    assert_eq!(chunk.air_count(), 0);
    chunk.set_block(Position::new(3, 4, 5), 9).unwrap();
    assert_eq!(chunk.air_count(), 0);
    chunk.fill(0);
    assert_eq!(chunk.air_count(), 4096);
    assert_eq!(chunk.block(Position::new(15, 15, 15)), 0);
}

#[test]
fn section_refuses_positions_outside_and_stays_as_it_is() {
    let mut chunk = ChunkSection::new();
    let outside = Position::new(5, -1, 5);
    match chunk.set_block(outside, 3) {
        Err(ProtError::PositionOutOfBounds(position)) => assert_eq!(position, outside),
        other => panic!("unexpected {:?}", other),
    }
    assert_eq!(chunk.air_count(), 4096);
    assert_eq!(chunk.block(outside), 0);
    match chunk.set_biome(Position::new(4, 0, 0), 3) {
        Err(ProtError::PositionOutOfBounds(_)) => {}
        other => panic!("unexpected {:?}", other),
    }
    assert_eq!(chunk.biome(Position::new(4, 0, 0)), 39);
    assert_eq!(chunk.biome(Position::new(3, 0, 0)), 39);
}

#[test]
fn empty_section_on_the_wire() {
    let chunk = ChunkSection::new();
    let mut out = Vec::new();
    chunk.write(&mut out);
    assert_eq!(out, vec![0, 0, 0, 0, 0, 0, 39, 0]);
}

#[test]
fn flat_section_on_the_wire() {
    let mut chunk = ChunkSection::new();
    chunk.fill(9);
    chunk.set_block(Position::new(5, 5, 5), 1).unwrap();
    let mut out = Vec::new();
    chunk.write(&mut out);
    // 4096 blocks that are not air
    assert_eq!(&out[0..2], &[0x10, 0x00]);
    // blocks: four bits for each, a palette of air, grass and stone
    assert_eq!(out[2], 4);
    assert_eq!(&out[3..7], &[3, 0, 9, 1]);
    // 256 words of sixteen entries each
    assert_eq!(&out[7..9], &[0x80, 0x02]);
    let words = &out[9..9 + 256 * 8];
    let stone = (5 << 8) | (5 << 4) | 5;
    for (at, word) in words.chunks(8).enumerate() {
        let mut expected = 0x1111_1111_1111_1111u64;
        if at == stone / 16 {
            expected = (expected & !(0xf << ((stone % 16) * 4))) | (2 << ((stone % 16) * 4));
        }
        assert_eq!(word, &expected.to_be_bytes()[..]);
    }
    // biomes: one value, biome 39, and no words
    assert_eq!(&out[9 + 256 * 8..], &[0, 39, 0]);
}

#[test]
fn section_copy_is_its_own() {
    let mut chunk = ChunkSection::new();
    chunk.set_block(Position::new(1, 2, 3), 4).unwrap();
    let copy = chunk.clone();
    chunk.set_block(Position::new(1, 2, 3), 5).unwrap();
    chunk.set_block(Position::new(0, 0, 0), 5).unwrap();
    assert_eq!(copy.block(Position::new(1, 2, 3)), 4);
    assert_eq!(copy.air_count(), 4095);
    assert_eq!(chunk.air_count(), 4094);
}
