use crate::chunk::palette::{
    lemma_spec_index, spec_index, PaletteKind, PaletteValue, PalettedContainer,
};
use crate::chunk::{Biome, BlockState, AIR, SECTION_BLOCKS};
use crate::err::ProtError;
use crate::protocol_types::compound::Position;
use crate::protocol_types::traits::{lemma_concat_assoc, Prot, WriteProt};
use vstd::prelude::*;

verus! {

/// How many of `values` are air.
pub open spec fn count_air(values: Seq<PaletteValue>) -> nat
    decreases values.len(),
{
    if values.len() == 0 {
        0
    } else {
        count_air(values.drop_last()) + (if values.last() == PaletteValue::Block(AIR) {
            1nat
        } else {
            0nat
        })
    }
}

/// No more values are air than there are values.
pub proof fn lemma_count_bound(values: Seq<PaletteValue>)
    ensures
        count_air(values) <= values.len(),
    decreases values.len(),
{
    if values.len() > 0 {
        lemma_count_bound(values.drop_last());
    }
}

/// Where every value is `value`, all are air or none is.
pub proof fn lemma_count_all(values: Seq<PaletteValue>, value: PaletteValue)
    requires
        forall|i: int| 0 <= i < values.len() ==> values[i] == value,
    ensures
        count_air(values) == (if value == PaletteValue::Block(AIR) {
            values.len()
        } else {
            0
        }),
    decreases values.len(),
{
    if values.len() > 0 {
        lemma_count_all(values.drop_last(), value);
    }
}

/// Changing one value changes the count by what that place gains or loses.
pub proof fn lemma_count_update(values: Seq<PaletteValue>, at: int, value: PaletteValue)
    requires
        0 <= at < values.len(),
    ensures
        count_air(values.update(at, value)) + (if values[at] == PaletteValue::Block(AIR) {
            1nat
        } else {
            0nat
        }) == count_air(values) + (if value == PaletteValue::Block(AIR) {
            1nat
        } else {
            0nat
        }),
    decreases values.len(),
{
    let changed = values.update(at, value);
    if at == values.len() - 1 {
        assert(changed.drop_last() =~= values.drop_last());
    } else {
        lemma_count_update(values.drop_last(), at, value);
        assert(changed.drop_last() =~= values.drop_last().update(at, value));
    }
}

/// Where the count of air is zero, no value is air.
pub proof fn lemma_count_none(values: Seq<PaletteValue>, at: int)
    requires
        0 <= at < values.len(),
        count_air(values) == 0,
    ensures
        values[at] != PaletteValue::Block(AIR),
    decreases values.len(),
{
    if at < values.len() - 1 {
        lemma_count_none(values.drop_last(), at);
    }
}

/// Among blocks none of which is air, putting air at one place makes the
/// count of air one.
pub proof fn lemma_air_count_one(values: Seq<PaletteValue>, at: int)
    requires
        0 <= at < values.len(),
        count_air(values) == 0,
    ensures
        count_air(values.update(at, PaletteValue::Block(AIR))) == 1,
{
    lemma_count_none(values, at);
    lemma_count_update(values, at, PaletteValue::Block(AIR));
}

/// Putting back what was at a place brings back the count of air.
pub proof fn lemma_air_count_restored(values: Seq<PaletteValue>, at: int, value: PaletteValue)
    requires
        0 <= at < values.len(),
    ensures
        values.update(at, value).update(at, values[at]) == values,
        count_air(values.update(at, value).update(at, values[at])) == count_air(values),
{
    assert(values.update(at, value).update(at, values[at]) =~= values);
}

/// The place of the block at (`x`, `y`, `z`) among the blocks of a section.
pub open spec fn cell(x: int, y: int, z: int) -> int {
    y * 256 + z * 16 + x
}

/// A position inside a section has the place that `cell` gives it.
pub proof fn lemma_cell(p: Position)
    requires
        0 <= p.x < 16,
        0 <= p.y < 16,
        0 <= p.z < 16,
    ensures
        spec_index(PaletteKind::Blocks, p) == Some(cell(p.x as int, p.y as int, p.z as int)),
{
    let y = p.y as int;
    assert(y * 16 * 16 == y * 256) by (nonlinear_arith);
}

/// Whether (`x`, `y`, `z`) comes before (`i`, `j`, `k`) when positions are
/// gone through by `x`, then by `y`, then by `z`.
pub open spec fn filled_before(x: int, y: int, z: int, i: int, j: int, k: int) -> bool {
    x < i || (x == i && (y < j || (y == j && z < k)))
}

/// A cube of 16 by 16 by 16 blocks with its 4 by 4 by 4 biomes, and the
/// number of its blocks that are air.
pub struct ChunkSection {
    air_count: u16,
    blocks: PalettedContainer,
    biomes: PalettedContainer,
}

impl Clone for ChunkSection {
    fn clone(&self) -> (copy: ChunkSection)
        ensures
            self.wf() ==> copy.wf(),
            copy.spec_blocks() == self.spec_blocks(),
            copy.spec_biomes() == self.spec_biomes(),
            copy.spec_air_count() == self.spec_air_count(),
            copy.wire() == self.wire(),
    {
        ChunkSection {
            air_count: self.air_count,
            blocks: self.blocks.clone(),
            biomes: self.biomes.clone(),
        }
    }
}

impl ChunkSection {
    /// Whether the containers are what they should be and the count of air
    /// is the number of blocks that are air.
    pub closed spec fn wf(&self) -> bool {
        &&& self.blocks.wf()
        &&& self.biomes.wf()
        &&& self.blocks.spec_kind() == PaletteKind::Blocks
        &&& self.biomes.spec_kind() == PaletteKind::Biomes
        &&& self.air_count == count_air(self.blocks@)
    }

    /// The blocks, place by place.
    pub closed spec fn spec_blocks(&self) -> Seq<PaletteValue> {
        self.blocks@
    }

    /// The biomes, place by place.
    pub closed spec fn spec_biomes(&self) -> Seq<PaletteValue> {
        self.biomes@
    }

    /// The number of blocks that are air.
    pub closed spec fn spec_air_count(&self) -> u16 {
        self.air_count
    }

    /// The container of the blocks.
    pub closed spec fn block_container(&self) -> PalettedContainer {
        self.blocks
    }

    /// The container of the biomes.
    pub closed spec fn biome_container(&self) -> PalettedContainer {
        self.biomes
    }

    /// A section has 4096 blocks and 64 biomes, and counts its air.
    pub proof fn lemma_wf(&self)
        requires
            self.wf(),
        ensures
            self.spec_blocks().len() == 4096,
            self.spec_biomes().len() == 64,
            self.spec_air_count() == count_air(self.spec_blocks()),
            self.spec_air_count() <= 4096,
            self.block_container().wf(),
            self.biome_container().wf(),
            forall|i: int|
                0 <= i < 4096 ==> PaletteKind::Blocks.admits(#[trigger] self.spec_blocks()[i]),
            forall|i: int|
                0 <= i < 64 ==> PaletteKind::Biomes.admits(#[trigger] self.spec_biomes()[i]),
    {
        self.blocks.lemma_wf();
        self.biomes.lemma_wf();
        lemma_count_bound(self.blocks@);
    }

    /// A section of air in biome 39: each container has a palette of its
    /// neutral value alone and a grid with nothing set, of four bits for
    /// each block and of one bit for each biome.
    pub fn new() -> (section: ChunkSection)
        ensures
            section.wf(),
            section.spec_blocks() == Seq::new(4096, |i: int| PaletteValue::Block(AIR)),
            section.spec_biomes() == Seq::new(64, |i: int| PaletteValue::Biome(39)),
            section.spec_air_count() == 4096,
            section.block_container().is_indirect(),
            section.block_container().spec_bits() == 4,
            section.block_container().palette_values() == seq![PaletteValue::Block(AIR)],
            section.block_container().grid_words() == Seq::new(256, |i: int| 0u64),
            section.biome_container().is_indirect(),
            section.biome_container().spec_bits() == 1,
            section.biome_container().palette_values() == seq![PaletteValue::Biome(39)],
            section.biome_container().grid_words() == Seq::new(1, |i: int| 0u64),
    {
        let section = ChunkSection {
            air_count: SECTION_BLOCKS as u16,
            blocks: PalettedContainer::new_blocks(),
            biomes: PalettedContainer::new_biomes(),
        };
        proof {
            lemma_count_all(section.blocks@, PaletteValue::Block(AIR));
        }
        section
    }

    /// Counts the block at `position` out and `new` in.
    fn update_air_at(&mut self, position: Position, new: BlockState)
        requires
            old(self).wf(),
            spec_index(PaletteKind::Blocks, position) is Some,
        ensures
            final(self).blocks == old(self).blocks,
            final(self).biomes == old(self).biomes,
            final(self).air_count == count_air(
                old(self).blocks@.update(
                    spec_index(PaletteKind::Blocks, position)->Some_0,
                    PaletteValue::Block(new),
                ),
            ),
    {
        let old = self.block(position);
        proof {
            let at = spec_index(PaletteKind::Blocks, position)->Some_0;
            self.lemma_wf();
            lemma_spec_index(PaletteKind::Blocks, position, position);
            lemma_count_update(self.blocks@, at, PaletteValue::Block(new));
            lemma_count_bound(self.blocks@.update(at, PaletteValue::Block(new)));
            assert(PaletteKind::Blocks.admits(self.blocks@[at]));
        }
        if old == AIR && new != AIR {
            self.air_count -= 1;
        } else if old != AIR && new == AIR {
            self.air_count += 1;
        }
    }

    /// Puts the block `state` at `position`. A position outside the
    /// section is an error and changes nothing.
    pub fn set_block(&mut self, position: Position, state: BlockState) -> (r: Result<
        (),
        ProtError,
    >)
        requires
            old(self).wf(),
            state < 32768,
        ensures
            final(self).wf(),
            final(self).spec_biomes() == old(self).spec_biomes(),
            final(self).biome_container() == old(self).biome_container(),
            final(self).spec_air_count() == count_air(final(self).spec_blocks()),
            match spec_index(PaletteKind::Blocks, position) {
                Some(i) => r is Ok && final(self).spec_blocks() == old(self).spec_blocks().update(
                    i,
                    PaletteValue::Block(state),
                ) && old(self).block_container().made_room(
                    PaletteValue::Block(state),
                    &final(self).block_container(),
                ),
                None => r == Err::<(), ProtError>(ProtError::PositionOutOfBounds(position))
                    && *final(self) == *old(self),
            },
    {
        if self.blocks.block_index(position).is_none() {
            return Err(ProtError::PositionOutOfBounds(position));
        }
        self.update_air_at(position, state);
        self.blocks.set_at(position, PaletteValue::Block(state))
    }

    /// The block at `position`, or air for a position outside the section.
    pub fn block(&self, position: Position) -> (state: BlockState)
        requires
            self.wf(),
        ensures
            match spec_index(PaletteKind::Blocks, position) {
                Some(i) => PaletteValue::Block(state) == self.spec_blocks()[i],
                None => state == AIR,
            },
    {
        proof {
            self.lemma_wf();
            lemma_spec_index(PaletteKind::Blocks, position, position);
            if spec_index(PaletteKind::Blocks, position) is Some {
                assert(PaletteKind::Blocks.admits(
                    self.blocks@[spec_index(PaletteKind::Blocks, position)->Some_0],
                ));
            }
        }
        match self.blocks.get_at(position) {
            PaletteValue::Block(state) => state,
            _ => AIR,
        }
    }

    /// Puts `biome` at `position`, which counts cells of 4 by 4 by 4 blocks.
    /// A position outside the section is an error and changes nothing.
    pub fn set_biome(&mut self, position: Position, biome: u32) -> (r: Result<(), ProtError>)
        requires
            old(self).wf(),
            biome < 64,
        ensures
            final(self).wf(),
            final(self).spec_blocks() == old(self).spec_blocks(),
            final(self).spec_air_count() == old(self).spec_air_count(),
            final(self).block_container() == old(self).block_container(),
            match spec_index(PaletteKind::Biomes, position) {
                Some(i) => r is Ok && final(self).spec_biomes() == old(self).spec_biomes().update(
                    i,
                    PaletteValue::Biome(biome),
                ) && old(self).biome_container().made_room(
                    PaletteValue::Biome(biome),
                    &final(self).biome_container(),
                ),
                None => r == Err::<(), ProtError>(ProtError::PositionOutOfBounds(position))
                    && *final(self) == *old(self),
            },
    {
        self.biomes.set_at(position, PaletteValue::Biome(biome))
    }

    /// The biome at `position`, or biome 39 for a position outside the
    /// section.
    pub fn biome(&self, position: Position) -> (biome: Biome)
        requires
            self.wf(),
        ensures
            match spec_index(PaletteKind::Biomes, position) {
                Some(i) => PaletteValue::Biome(biome) == self.spec_biomes()[i],
                None => biome == 39,
            },
    {
        proof {
            self.lemma_wf();
            lemma_spec_index(PaletteKind::Biomes, position, position);
            if spec_index(PaletteKind::Biomes, position) is Some {
                assert(PaletteKind::Biomes.admits(
                    self.biomes@[spec_index(PaletteKind::Biomes, position)->Some_0],
                ));
            }
        }
        match self.biomes.get_at(position) {
            PaletteValue::Biome(biome) => biome,
            _ => 39,
        }
    }

    /// Puts the block `state` at every position.
    pub fn fill(&mut self, state: BlockState)
        requires
            old(self).wf(),
            state < 32768,
        ensures
            final(self).wf(),
            final(self).spec_blocks() == Seq::new(4096, |i: int| PaletteValue::Block(state)),
            final(self).spec_biomes() == old(self).spec_biomes(),
            final(self).biome_container() == old(self).biome_container(),
            old(self).block_container().made_room(
                PaletteValue::Block(state),
                &final(self).block_container(),
            ),
            final(self).spec_air_count() == (if state == AIR {
                4096int
            } else {
                0int
            }),
    {
        let value = PaletteValue::Block(state);
        let mut i: i32 = 0;
        while i < 16
            invariant
                0 <= i <= 16,
                self.wf(),
                state < 32768,
                value == PaletteValue::Block(state),
                self.spec_biomes() == old(self).spec_biomes(),
                self.biome_container() == old(self).biome_container(),
                i == 0 ==> self.block_container() == old(self).block_container(),
                i > 0 ==> old(self).block_container().made_room(value, &self.block_container()),
                forall|x: int, y: int, z: int|
                    0 <= x < 16 && 0 <= y < 16 && 0 <= z < 16 && filled_before(x, y, z, i as int, 0, 0)
                        ==> self.spec_blocks()[#[trigger] cell(x, y, z)] == value,
            decreases 16 - i,
        {
            let mut j: i32 = 0;
            while j < 16
                invariant
                    0 <= i < 16,
                    0 <= j <= 16,
                    self.wf(),
                    state < 32768,
                    value == PaletteValue::Block(state),
                    self.spec_biomes() == old(self).spec_biomes(),
                    self.biome_container() == old(self).biome_container(),
                    i == 0 && j == 0 ==> self.block_container() == old(self).block_container(),
                    i > 0 || j > 0 ==> old(self).block_container().made_room(
                        value,
                        &self.block_container(),
                    ),
                    forall|x: int, y: int, z: int|
                        0 <= x < 16 && 0 <= y < 16 && 0 <= z < 16 && filled_before(
                            x,
                            y,
                            z,
                            i as int,
                            j as int,
                            0,
                        ) ==> self.spec_blocks()[#[trigger] cell(x, y, z)] == value,
                decreases 16 - j,
            {
                let mut k: i32 = 0;
                while k < 16
                    invariant
                        0 <= i < 16,
                        0 <= j < 16,
                        0 <= k <= 16,
                        self.wf(),
                        state < 32768,
                        value == PaletteValue::Block(state),
                        self.spec_biomes() == old(self).spec_biomes(),
                        self.biome_container() == old(self).biome_container(),
                        i == 0 && j == 0 && k == 0 ==> self.block_container() == old(self).block_container(),
                        i > 0 || j > 0 || k > 0 ==> old(self).block_container().made_room(
                            value,
                            &self.block_container(),
                        ),
                        forall|x: int, y: int, z: int|
                            0 <= x < 16 && 0 <= y < 16 && 0 <= z < 16 && filled_before(
                                x,
                                y,
                                z,
                                i as int,
                                j as int,
                                k as int,
                            ) ==> self.spec_blocks()[#[trigger] cell(x, y, z)] == value,
                    decreases 16 - k,
                {
                    let ghost before = self.spec_blocks();
                    let ghost held = self.block_container();
                    let position = Position::new(i, j, k);
                    proof {
                        self.lemma_wf();
                    }
                    proof {
                        lemma_cell(position);
                    }
                    self.set_block(position, state).unwrap();
                    assert(self.spec_blocks() == before.update(
                        cell(i as int, j as int, k as int),
                        value,
                    ));
                    proof {
                        if i > 0 || j > 0 || k > 0 {
                            old(self).block_container().lemma_made_room_once(
                                value,
                                &held,
                                &self.block_container(),
                            );
                        }
                    }
                    k += 1;
                    assert forall|x: int, y: int, z: int|
                        0 <= x < 16 && 0 <= y < 16 && 0 <= z < 16 && filled_before(
                            x,
                            y,
                            z,
                            i as int,
                            j as int,
                            k as int,
                        ) implies self.spec_blocks()[#[trigger] cell(x, y, z)] == value by {
                        if filled_before(x, y, z, i as int, j as int, k - 1) {
                            assert(before[cell(x, y, z)] == value);
                        }
                    }
                }
                j += 1;
            }
            i += 1;
        }
        proof {
            self.lemma_wf();
            assert forall|at: int| 0 <= at < 4096 implies self.spec_blocks()[at] == value by {
                let x = at % 16;
                let z = (at / 16) % 16;
                let y = at / 256;
                assert(cell(x, y, z) == at);
                assert(filled_before(x, y, z, 16, 0, 0));
            }
            assert(self.spec_blocks() =~= Seq::new(4096, |i: int| value));
            lemma_count_all(self.spec_blocks(), value);
        }
    }

    /// The section on the wire.
    pub closed spec fn wire(&self) -> Seq<u8> {
        u16::encoding((4096 - self.air_count) as u16) + self.blocks.wire() + self.biomes.wire()
    }

    /// A section travels as the number of its blocks that are not air, in
    /// two bytes, then the container of its blocks, then that of its biomes.
    pub proof fn lemma_wire(&self)
        ensures
            self.wire() == u16::encoding((4096 - self.spec_air_count()) as u16)
                + self.block_container().wire() + self.biome_container().wire(),
    {
    }

    /// Appends the section to `out` as it travels.
    pub fn write(&self, out: &mut Vec<u8>)
        requires
            self.wf(),
        ensures
            final(out)@ == old(out)@ + self.wire(),
    {
        proof {
            self.lemma_wf();
        }
        (SECTION_BLOCKS as u16 - self.air_count).write(out);
        self.blocks.write(out);
        self.biomes.write(out);
        proof {
            let head = u16::encoding((4096 - self.air_count) as u16);
            lemma_concat_assoc(old(out)@, head, self.blocks.wire());
            lemma_concat_assoc(old(out)@, head + self.blocks.wire(), self.biomes.wire());
        }
    }

    /// The number of blocks that are air.
    pub fn air_count(&self) -> (count: u16)
        ensures
            count == self.spec_air_count(),
    {
        self.air_count
    }
}

} // verus!
