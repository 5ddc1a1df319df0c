use crate::chunk::palette::{spec_index, PaletteKind, PaletteValue};
use crate::chunk::section::{cell, filled_before, lemma_cell, ChunkSection};
use crate::chunk::{BlockState, AIR, COLUMN_HEIGHT};
use crate::packets::client::{BlockUpdate, ClientPackets};
use crate::protocol_types::compound::{Position, Uuid};
use crate::protocol_types::primitives::VarInt;
use crate::protocol_types::twos::{i32_bits, unsigned32};
use std::collections::HashMap;
use vstd::prelude::*;

verus! {

broadcast use vstd::std_specs::hash::group_hash_axioms;

/// A column of sections, lowest first.
pub type ChunkCol = Vec<ChunkSection>;

/// What the world knows of a player.
#[derive(Debug)]
pub struct WorldPlayer {
    pub uuid: Uuid,
    pub username: String,
    pub position: Position,
}

/// The number under which the section at `p` is kept: the three
/// coordinates side by side, 32 bits each.
pub open spec fn section_key(p: Position) -> u128 {
    (unsigned32(p.x) * 0x1_0000_0000_0000_0000 + unsigned32(p.y) * 0x1_0000_0000 + unsigned32(
        p.z,
    )) as u128
}

/// Sections at different places are kept under different numbers.
pub proof fn lemma_section_key(a: Position, b: Position)
    ensures
        section_key(a) == section_key(b) <==> a == b,
{
}

/// The number under which the section at `p` is kept.
fn key_of(p: &Position) -> (key: u128)
    ensures
        key == section_key(*p),
{
    (i32_bits(p.x) as u128) * 0x1_0000_0000_0000_0000 + (i32_bits(p.y) as u128) * 0x1_0000_0000
        + (i32_bits(p.z) as u128)
}

/// Shifting right by four is dividing by 16 and rounding down, and the
/// four lowest bits are what is left.
proof fn lemma_floor_16(v: i32)
    by (bit_vector)
    ensures
        (v >> 4) * 16 + (v & 15) == v,
        0 <= (v & 15) < 16,
{
}

/// The section that holds the block at `p`: each coordinate divided by 16
/// and rounded down.
pub open spec fn spec_chunk_pos(p: Position) -> Position {
    Position { x: (p.x as int / 16) as i32, y: (p.y as int / 16) as i32, z: (p.z as int / 16) as i32 }
}

/// The place inside its section of the block at `p`: what is left of each
/// coordinate after dividing by 16.
pub open spec fn spec_rel_pos(p: Position) -> Position {
    Position { x: (p.x as int % 16) as i32, y: (p.y as int % 16) as i32, z: (p.z as int % 16) as i32 }
}

/// The blocks of a section of the flat world: the three lowest sections are
/// grass with one stone, those above them air.
pub open spec fn grass_blocks(y: int) -> Seq<PaletteValue> {
    if y < -1 {
        Seq::new(4096, |i: int| PaletteValue::Block(9)).update(
            cell(5, 5, 5),
            PaletteValue::Block(1),
        )
    } else {
        Seq::new(4096, |i: int| PaletteValue::Block(AIR))
    }
}

/// The place of the column (`x`, `z`) among the columns within `radius`,
/// gone through row by row.
pub open spec fn row_major(x: int, z: int, radius: int) -> int {
    (x + radius) * (2 * radius + 1) + (z + radius)
}

/// How the places of the columns follow one another.
pub proof fn lemma_row_major(x: int, z: int, radius: int)
    ensures
        row_major(x, z + 1, radius) == row_major(x, z, radius) + 1,
        row_major(x + 1, -radius, radius) == row_major(x, radius + 1, radius),
        row_major(x, -radius, radius) == (x + radius) * (2 * radius + 1),
{
    assert((x + 1 + radius) * (2 * radius + 1) == (x + radius) * (2 * radius + 1) + (2 * radius
        + 1)) by (nonlinear_arith);
}

/// A column that comes before another has the smaller place, and none has
/// a place below zero.
pub proof fn lemma_row_major_order(a: int, b: int, x: int, z: int, radius: int)
    requires
        radius >= 0,
        -radius <= a <= x,
        -radius <= b <= radius,
        -radius <= z <= radius + 1,
        a < x || b < z,
    ensures
        0 <= row_major(a, b, radius) < row_major(x, z, radius),
{
    let w = 2 * radius + 1;
    assert(0 <= (a + radius) * w) by (nonlinear_arith)
        requires
            a + radius >= 0,
            w >= 1,
    ;
    if a < x {
        assert((a + radius) * w + w <= (x + radius) * w) by (nonlinear_arith)
            requires
                a + 1 <= x,
                w >= 1,
        ;
    }
}

/// Whether `section` is the section of the flat world on level `y`: the
/// blocks of `grass_blocks` and biome 39 everywhere, each container with a
/// palette of just the values it has met, in the order in which it met
/// them, and with the narrowest grid of its kind.
pub open spec fn is_grass_section(section: ChunkSection, y: int) -> bool {
    &&& section.spec_blocks() == grass_blocks(y)
    &&& section.block_container().is_indirect()
    &&& section.block_container().spec_bits() == 4
    &&& section.block_container().palette_values() == (if y < -1 {
        seq![PaletteValue::Block(0), PaletteValue::Block(9), PaletteValue::Block(1)]
    } else {
        seq![PaletteValue::Block(0)]
    })
    &&& section.spec_biomes() == Seq::new(64, |i: int| PaletteValue::Biome(39))
    &&& section.biome_container().is_indirect()
    &&& section.biome_container().spec_bits() == 1
    &&& section.biome_container().palette_values() == seq![PaletteValue::Biome(39)]
}

/// A world: its sections by where they lie, and its players by their uuid.
pub struct World {
    chunks: HashMap<u128, ChunkSection>,
    players: HashMap<u128, WorldPlayer>,
}

impl World {
    /// Whether every section of the world is what it should be.
    pub closed spec fn wf(&self) -> bool {
        forall|key: u128| #[trigger] self.chunks@.contains_key(key) ==> self.chunks@[key].wf()
    }

    /// Whether the world has a section at `p`.
    pub closed spec fn has_section(&self, p: Position) -> bool {
        self.chunks@.contains_key(section_key(p))
    }

    /// The section at `p`.
    pub closed spec fn section(&self, p: Position) -> ChunkSection
        recommends
            self.has_section(p),
    {
        self.chunks@[section_key(p)]
    }

    /// Whether the world knows a player under `uuid`.
    pub closed spec fn has_player(&self, uuid: Uuid) -> bool {
        self.players@.contains_key(uuid.value)
    }

    /// The player that the world knows under `uuid`.
    pub closed spec fn spec_player(&self, uuid: Uuid) -> WorldPlayer
        recommends
            self.has_player(uuid),
    {
        self.players@[uuid.value]
    }

    /// Every section of a world is what it should be.
    pub proof fn lemma_wf(&self, p: Position)
        requires
            self.wf(),
            self.has_section(p),
        ensures
            self.section(p).wf(),
    {
    }

    /// A world without sections and without players.
    pub fn new() -> (world: World)
        ensures
            world.wf(),
            forall|p: Position| !world.has_section(p),
            forall|uuid: Uuid| !world.has_player(uuid),
    {
        World { chunks: HashMap::new(), players: HashMap::new() }
    }

    /// The flat world: 7 by 7 columns around the origin, each of 24
    /// sections from section -4 upward, the three lowest of grass with a
    /// stone at (5, 5, 5), the others of air.
    pub fn new_grass() -> (world: World)
        ensures
            world.wf(),
            forall|p: Position|
                world.has_section(p) <==> -3 <= p.x <= 3 && -3 <= p.z <= 3 && -4 <= p.y < 20,
            forall|p: Position| #[trigger]
                world.has_section(p) ==> is_grass_section(world.section(p), p.y as int),
            forall|uuid: Uuid| !world.has_player(uuid),
    {
        let mut chunks: HashMap<u128, ChunkSection> = HashMap::new();
        let mut x: i32 = -3;
        while x <= 3
            invariant
                -3 <= x <= 4,
                forall|key: u128| #[trigger] chunks@.contains_key(key) ==> chunks@[key].wf(),
                forall|p: Position| #[trigger]
                    chunks@.contains_key(section_key(p)) <==> -3 <= p.x <= 3 && -3 <= p.z <= 3 && -4
                        <= p.y < 20 && filled_before(p.x as int, p.z as int, p.y as int, x as int, -3, -4),
                forall|p: Position| #[trigger]
                    chunks@.contains_key(section_key(p)) ==> is_grass_section(chunks@[section_key(p)], p.y as int),
            decreases 4 - x,
        {
            let mut z: i32 = -3;
            while z <= 3
                invariant
                    -3 <= x <= 3,
                    -3 <= z <= 4,
                    forall|key: u128| #[trigger] chunks@.contains_key(key) ==> chunks@[key].wf(),
                    forall|p: Position| #[trigger]
                        chunks@.contains_key(section_key(p)) <==> -3 <= p.x <= 3 && -3 <= p.z <= 3
                            && -4 <= p.y < 20 && filled_before(
                            p.x as int,
                            p.z as int,
                            p.y as int,
                            x as int,
                            z as int,
                            -4,
                        ),
                    forall|p: Position| #[trigger]
                        chunks@.contains_key(section_key(p)) ==> is_grass_section(chunks@[section_key(p)], p.y as int),
                decreases 4 - z,
            {
                let mut y: usize = 0;
                while y < COLUMN_HEIGHT
                    invariant
                        -3 <= x <= 3,
                        -3 <= z <= 3,
                        0 <= y <= 24,
                        forall|key: u128| #[trigger] chunks@.contains_key(key) ==> chunks@[key].wf(),
                        forall|p: Position| #[trigger]
                            chunks@.contains_key(section_key(p)) <==> -3 <= p.x <= 3 && -3 <= p.z
                                <= 3 && -4 <= p.y < 20 && filled_before(
                                p.x as int,
                                p.z as int,
                                p.y as int,
                                x as int,
                                z as int,
                                y - 4,
                            ),
                        forall|p: Position| #[trigger]
                            chunks@.contains_key(section_key(p)) ==> is_grass_section(chunks@[section_key(p)], p.y as int),
                    decreases 24 - y,
                {
                    let mut chunk = ChunkSection::new();
                    proof {
                        crate::chunk::palette::lemma_widths();
                    }
                    if y < 3 {
                        let ghost fresh = chunk.block_container().palette_values();
                        chunk.fill(9);
                        let ghost filled = chunk.block_container().palette_values();
                        proof {
                            assert(!fresh.contains(PaletteValue::Block(9)));
                            assert(filled =~= seq![PaletteValue::Block(0), PaletteValue::Block(9)]);
                        }
                        let marker = Position::new(5, 5, 5);
                        proof {
                            lemma_cell(marker);
                        }
                        chunk.set_block(marker, 1).unwrap();
                        proof {
                            assert(!filled.contains(PaletteValue::Block(1)));
                            assert(chunk.block_container().palette_values() =~= seq![
                                PaletteValue::Block(0),
                                PaletteValue::Block(9),
                                PaletteValue::Block(1),
                            ]);
                        }
                    }
                    assert(is_grass_section(chunk, y - 4));
                    let at = Position::new(x, y as i32 - 4, z);
                    let ghost before = chunks@;
                    chunks.insert(key_of(&at), chunk);
                    y += 1;
                    proof {
                        assert forall|p: Position| #[trigger]
                            chunks@.contains_key(section_key(p)) <==> -3 <= p.x <= 3 && -3 <= p.z
                                <= 3 && -4 <= p.y < 20 && filled_before(
                                p.x as int,
                                p.z as int,
                                p.y as int,
                                x as int,
                                z as int,
                                y - 4,
                            ) by {
                            lemma_section_key(p, at);
                            assert(before.contains_key(section_key(p)) <==> -3 <= p.x <= 3 && -3
                                <= p.z <= 3 && -4 <= p.y < 20 && filled_before(
                                p.x as int,
                                p.z as int,
                                p.y as int,
                                x as int,
                                z as int,
                                y - 5,
                            ));
                        }
                        assert forall|p: Position| #[trigger]
                            chunks@.contains_key(section_key(p)) implies is_grass_section(chunks@[section_key(p)], p.y as int) by {
                            lemma_section_key(p, at);
                            if p != at {
                                assert(before.contains_key(section_key(p)));
                            }
                        }
                    }
                }
                z += 1;
            }
            x += 1;
        }
        World { chunks, players: HashMap::new() }
    }

    /// The section at `chunk_pos`, if the world has one there.
    pub fn chunk(&self, chunk_pos: &Position) -> (section: Option<&ChunkSection>)
        ensures
            section is Some <==> self.has_section(*chunk_pos),
            section matches Some(found) ==> *found == self.section(*chunk_pos),
    {
        let key = key_of(chunk_pos);
        self.chunks.get(&key)
    }

    /// The section that holds the block at `global_pos`.
    pub fn chunk_pos_for_global_pos(&self, global_pos: Position) -> (p: Position)
        ensures
            p == spec_chunk_pos(global_pos),
    {
        proof {
            lemma_floor_16(global_pos.x);
            lemma_floor_16(global_pos.y);
            lemma_floor_16(global_pos.z);
        }
        Position::new(global_pos.x >> 4, global_pos.y >> 4, global_pos.z >> 4)
    }

    /// The place inside its section of the block at `global_pos`.
    pub fn rel_chunk_pos_for_global_pos(&self, global_pos: Position) -> (p: Position)
        ensures
            p == spec_rel_pos(global_pos),
            spec_index(PaletteKind::Blocks, p) is Some,
    {
        proof {
            lemma_floor_16(global_pos.x);
            lemma_floor_16(global_pos.y);
            lemma_floor_16(global_pos.z);
        }
        Position::new(global_pos.x & 15, global_pos.y & 15, global_pos.z & 15)
    }

    /// The columns within `radius` columns of the one that holds `position`,
    /// row by row, each with where it lies from there and with copies of
    /// those of its 24 sections that the world has, lowest first.
    pub fn get_chunk_radius(&self, position: Position, radius: i32) -> (chunks: Vec<
        (i32, i32, ChunkCol),
    >)
        requires
            self.wf(),
            radius <= 2_000_000_000,
        ensures
            radius < 0 ==> chunks@.len() == 0,
            radius >= 0 ==> chunks@.len() == (2 * radius + 1) * (2 * radius + 1),
            forall|x: int, z: int|
                -radius <= x <= radius && -radius <= z <= radius ==> {
                    let entry = #[trigger] chunks@[row_major(x, z, radius as int)];
                    &&& entry.0 == x
                    &&& entry.1 == z
                    &&& self.is_column(
                        spec_chunk_pos(position).x + x,
                        spec_chunk_pos(position).z + z,
                        24,
                        entry.2@,
                    )
                },
    {
        let mut chunks: Vec<(i32, i32, ChunkCol)> = Vec::new();
        if radius < 0 {
            return chunks;
        }
        let centre = self.chunk_pos_for_global_pos(position);
        let ghost width = 2 * radius + 1;
        let mut x: i32 = -radius;
        proof {
            assert((x + radius) * width == 0) by (nonlinear_arith)
                requires
                    x + radius == 0,
            ;
        }
        while x <= radius
            invariant
                self.wf(),
                0 <= radius <= 2_000_000_000,
                width == 2 * radius + 1,
                centre == spec_chunk_pos(position),
                -radius <= x <= radius + 1,
                chunks@.len() == (x + radius) * width,
                forall|a: int, b: int|
                    -radius <= a < x && -radius <= b <= radius ==> {
                        let entry = #[trigger] chunks@[row_major(a, b, radius as int)];
                        &&& entry.0 == a
                        &&& entry.1 == b
                        &&& self.is_column(centre.x + a, centre.z + b, 24, entry.2@)
                    },
            decreases radius + 1 - x,
        {
            let mut z: i32 = -radius;
            while z <= radius
                invariant
                    self.wf(),
                    0 <= radius <= 2_000_000_000,
                    width == 2 * radius + 1,
                    centre == spec_chunk_pos(position),
                    -radius <= x <= radius,
                    -radius <= z <= radius + 1,
                    chunks@.len() == row_major(x as int, z as int, radius as int),
                    forall|a: int, b: int|
                        -radius <= a <= x && -radius <= b <= radius && (a < x || b < z) ==> {
                            let entry = #[trigger] chunks@[row_major(a, b, radius as int)];
                            &&& entry.0 == a
                            &&& entry.1 == b
                            &&& self.is_column(centre.x + a, centre.z + b, 24, entry.2@)
                        },
                decreases radius + 1 - z,
            {
                let mut column: ChunkCol = Vec::new();
                let mut y: usize = 0;
                while y < COLUMN_HEIGHT
                    invariant
                        self.wf(),
                        0 <= y <= 24,
                        -radius <= x <= radius,
                        -radius <= z <= radius,
                        0 <= radius <= 2_000_000_000,
                        centre == spec_chunk_pos(position),
                        self.is_column(centre.x + x, centre.z + z, y as int, column@),
                    decreases 24 - y,
                {
                    let at = Position::new(centre.x + x, y as i32 - 4, centre.z + z);
                    let ghost before = column@;
                    if let Some(chunk) = self.chunk(&at) {
                        proof {
                            self.lemma_wf(at);
                        }
                        column.push(chunk.clone());
                        assert(column@.drop_last() =~= before);
                    }
                    y += 1;
                }
                let ghost before = chunks@;
                chunks.push((x, z, column));
                proof {
                    lemma_row_major(x as int, z as int, radius as int);
                    assert forall|a: int, b: int|
                        -radius <= a <= x && -radius <= b <= radius && (a < x || b < z + 1) implies {
                        let entry = #[trigger] chunks@[row_major(a, b, radius as int)];
                        &&& entry.0 == a
                        &&& entry.1 == b
                        &&& self.is_column(centre.x + a, centre.z + b, 24, entry.2@)
                    } by {
                        lemma_row_major(a, b, radius as int);
                        if a < x || b < z {
                            lemma_row_major_order(a, b, x as int, z as int, radius as int);
                            assert(chunks@[row_major(a, b, radius as int)] == before[row_major(
                                a,
                                b,
                                radius as int,
                            )]);
                        }
                    }
                }
                z += 1;
            }
            proof {
                lemma_row_major(x as int, radius + 1, radius as int);
                lemma_row_major(x + 1, -radius, radius as int);
            }
            x += 1;
        }
        proof {
            lemma_row_major(radius + 1, -radius, radius as int);
        }
        chunks
    }

    /// Whether `column` holds copies of the sections that the world has at
    /// (`x`, `z`) on the lowest `levels` levels, lowest first: the same
    /// blocks and biomes, and the same bytes on the wire.
    pub open spec fn is_column(&self, x: int, z: int, levels: int, column: Seq<ChunkSection>) -> bool
        decreases levels,
    {
        if levels <= 0 {
            column.len() == 0
        } else {
            let at = Position { x: x as i32, z: z as i32, y: (levels - 5) as i32 };
            if self.has_section(at) {
                &&& column.len() > 0
                &&& self.is_column(x, z, levels - 1, column.drop_last())
                &&& column.last().wf()
                &&& column.last().spec_blocks() == self.section(at).spec_blocks()
                &&& column.last().spec_biomes() == self.section(at).spec_biomes()
                &&& column.last().spec_air_count() == self.section(at).spec_air_count()
                &&& column.last().wire() == self.section(at).wire()
            } else {
                self.is_column(x, z, levels - 1, column)
            }
        }
    }

    /// Puts the block `block` at `position`, if the world has the section
    /// that holds it, and says what the clients are to be told.
    pub fn set_block(&mut self, position: Position, block: BlockState) -> (r: Option<
        Vec<ClientPackets>,
    >)
        requires
            old(self).wf(),
            block < 32768,
        ensures
            final(self).wf(),
            forall|p: Position| final(self).has_section(p) == old(self).has_section(p),
            forall|p: Position|
                p != spec_chunk_pos(position) ==> final(self).section(p) == old(self).section(p),
            forall|uuid: Uuid|
                final(self).has_player(uuid) == old(self).has_player(uuid) && final(self).spec_player(uuid) == old(self).spec_player(uuid),
            old(self).has_section(spec_chunk_pos(position)) ==> {
                &&& r matches Some(packets)
                &&& packets@.len() == 1
                &&& packets@[0] == ClientPackets::BlockUpdate(
                    BlockUpdate { position, block_id: VarInt { value: block as i32 } },
                )
                &&& final(self).section(spec_chunk_pos(position)).spec_blocks() == old(self).section(spec_chunk_pos(position)).spec_blocks().update(
                    spec_index(PaletteKind::Blocks, spec_rel_pos(position))->Some_0,
                    PaletteValue::Block(block),
                )
                &&& final(self).section(spec_chunk_pos(position)).spec_biomes() == old(self).section(spec_chunk_pos(position)).spec_biomes()
                &&& final(self).section(spec_chunk_pos(position)).biome_container() == old(self).section(spec_chunk_pos(position)).biome_container()
                &&& old(self).section(spec_chunk_pos(position)).block_container().made_room(
                    PaletteValue::Block(block),
                    &final(self).section(spec_chunk_pos(position)).block_container(),
                )
            },
            !old(self).has_section(spec_chunk_pos(position)) ==> r is None && final(self).section(
                spec_chunk_pos(position),
            ) == old(self).section(spec_chunk_pos(position)),
    {
        let chunk_pos = self.chunk_pos_for_global_pos(position);
        let rel_pos = self.rel_chunk_pos_for_global_pos(position);
        let key = key_of(&chunk_pos);
        let ghost before = self.chunks@;
        match self.chunks.remove(&key) {
            Some(chunk) => {
                let mut chunk = chunk;
                chunk.set_block(rel_pos, block).unwrap();
                self.chunks.insert(key, chunk);
                proof {
                    assert forall|p: Position| self.has_section(p) == old(self).has_section(
                        p,
                    ) by {
                        lemma_section_key(p, chunk_pos);
                    }
                    assert forall|p: Position| p != chunk_pos implies self.section(p) == old(self).section(p) by {
                        lemma_section_key(p, chunk_pos);
                    }
                    assert forall|k: u128| #[trigger] self.chunks@.contains_key(k) implies self.chunks@[k].wf() by {
                        if k != key {
                            assert(before.contains_key(k));
                        }
                    }
                }
                let mut packets: Vec<ClientPackets> = Vec::new();
                packets.push(
                    ClientPackets::BlockUpdate(
                        BlockUpdate::new(position, VarInt { value: block as i32 }),
                    ),
                );
                Some(packets)
            },
            None => {
                proof {
                    assert(self.chunks@ =~= before);
                }
                None
            },
        }
    }

    /// Takes `player` as what the world knows under the player's uuid.
    pub fn set_player(&mut self, player: WorldPlayer)
        ensures
            final(self).has_player(player.uuid),
            final(self).spec_player(player.uuid) == player,
            forall|uuid: Uuid|
                uuid != player.uuid ==> final(self).has_player(uuid) == old(self).has_player(uuid)
                    && final(self).spec_player(uuid) == old(self).spec_player(uuid),
            forall|p: Position|
                final(self).has_section(p) == old(self).has_section(p) && final(self).section(p)
                    == old(self).section(p),
            old(self).wf() ==> final(self).wf(),
    {
        self.players.insert(player.uuid.value, player);
    }

    /// What the world knows under `uuid`, if anything.
    pub fn player(&self, uuid: Uuid) -> (player: Option<&WorldPlayer>)
        ensures
            player is Some <==> self.has_player(uuid),
            player matches Some(found) ==> *found == self.spec_player(uuid),
    {
        self.players.get(&uuid.value)
    }
}

} // verus!
