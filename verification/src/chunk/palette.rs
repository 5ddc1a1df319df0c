use crate::chunk::{
    Biome, BlockState, GLOBAL_PALETTE_BITS_BIOMES, GLOBAL_PALETTE_BITS_BLOCKS,
    MAX_PALETTE_BITS_BIOMES, MAX_PALETTE_BITS_BLOCKS, MIN_PALETTE_BITS_BIOMES,
    MIN_PALETTE_BITS_BLOCKS, SECTION_BLOCKS, SECTION_EDGE,
};
use crate::chunk::packed_array::{mask_of, packed_words, words_for, PackedArray};
use crate::err::ProtError;
use crate::protocol_types::compound::Position;
use crate::protocol_types::primitives::VarInt;
use crate::protocol_types::sequences::{models, write_items, SizedVec};
use crate::protocol_types::traits::{Prot, WriteProt};
use std::collections::HashMap;
use vstd::prelude::*;

verus! {

broadcast use vstd::std_specs::hash::group_hash_axioms;

/// What a palette or a container holds: block states or biomes.
#[derive(Clone, Copy, Debug, PartialEq, Eq, Structural)]
pub enum PaletteKind {
    Blocks,
    Biomes,
}

/// A block state or a biome, each by its number in the game's registry.
#[derive(Clone, Copy, Debug, PartialEq, Eq, Structural, Hash)]
pub enum PaletteValue {
    Block(BlockState),
    Biome(Biome),
}

impl PaletteValue {
    /// The number of the block state or biome.
    pub open spec fn spec_raw(self) -> u64 {
        match self {
            PaletteValue::Block(value) => value as u64,
            PaletteValue::Biome(value) => value as u64,
        }
    }

    /// Which kind of value this is.
    pub open spec fn spec_kind(self) -> PaletteKind {
        match self {
            PaletteValue::Block(_) => PaletteKind::Blocks,
            PaletteValue::Biome(_) => PaletteKind::Biomes,
        }
    }

    /// A number that tells this value from every other: blocks below 2^32,
    /// biomes from there on.
    pub open spec fn spec_key(self) -> u64 {
        match self {
            PaletteValue::Block(value) => value as u64,
            PaletteValue::Biome(value) => (0x1_0000_0000 + value) as u64,
        }
    }

    /// The number of the block state or biome.
    pub fn raw(self) -> (raw: u64)
        ensures
            raw == self.spec_raw(),
    {
        match self {
            PaletteValue::Block(value) => value as u64,
            PaletteValue::Biome(value) => value as u64,
        }
    }

    /// Which kind of value this is.
    pub fn kind(self) -> (kind: PaletteKind)
        ensures
            kind == self.spec_kind(),
    {
        match self {
            PaletteValue::Block(_) => PaletteKind::Blocks,
            PaletteValue::Biome(_) => PaletteKind::Biomes,
        }
    }

    /// A number that tells this value from every other.
    pub fn key(self) -> (key: u64)
        ensures
            key == self.spec_key(),
    {
        match self {
            PaletteValue::Block(value) => value as u64,
            PaletteValue::Biome(value) => 0x1_0000_0000 + value as u64,
        }
    }

    /// Values with the same key are the same value.
    pub proof fn lemma_key(a: PaletteValue, b: PaletteValue)
        ensures
            a.spec_key() == b.spec_key() <==> a == b,
    {
    }
}

impl From<PaletteValue> for u64 {
    fn from(value: PaletteValue) -> (raw: u64) {
        match value {
            PaletteValue::Block(value) => value as u64,
            PaletteValue::Biome(value) => value as u64,
        }
    }
}

impl vstd::std_specs::convert::FromSpecImpl<PaletteValue> for u64 {
    open spec fn obeys_from_spec() -> bool {
        true
    }

    open spec fn from_spec(value: PaletteValue) -> u64 {
        value.spec_raw()
    }
}

impl From<PaletteValue> for VarInt {
    /// The number of the value, cut to 32 bits and read as signed.
    fn from(value: PaletteValue) -> (v: VarInt) {
        match value {
            PaletteValue::Block(value) => VarInt { value: crate::protocol_types::twos::u32_bits(value) },
            PaletteValue::Biome(value) => VarInt { value: crate::protocol_types::twos::u32_bits(value) },
        }
    }
}

impl vstd::std_specs::convert::FromSpecImpl<PaletteValue> for VarInt {
    open spec fn obeys_from_spec() -> bool {
        true
    }

    open spec fn from_spec(value: PaletteValue) -> VarInt {
        VarInt { value: crate::protocol_types::twos::signed32(value.spec_raw() as nat) }
    }
}

impl PaletteKind {
    /// The value of this kind with the number `value`, cut to 32 bits.
    pub open spec fn spec_int_val(self, value: u64) -> PaletteValue {
        match self {
            PaletteKind::Blocks => PaletteValue::Block(value as BlockState),
            PaletteKind::Biomes => PaletteValue::Biome(value as Biome),
        }
    }

    /// The value that a new palette holds under id 0, and that fills a new
    /// container: air for blocks, biome 39 for biomes.
    pub open spec fn spec_neutral(self) -> PaletteValue {
        match self {
            PaletteKind::Blocks => PaletteValue::Block(0),
            PaletteKind::Biomes => PaletteValue::Biome(39),
        }
    }

    /// The number of values in a container: 4096 blocks, 64 biomes.
    pub open spec fn spec_container_length(self) -> usize {
        match self {
            PaletteKind::Blocks => 4096,
            PaletteKind::Biomes => 64,
        }
    }

    pub open spec fn spec_min_palette_bits(self) -> usize {
        match self {
            PaletteKind::Blocks => 4,
            PaletteKind::Biomes => 1,
        }
    }

    pub open spec fn spec_max_palette_bits(self) -> usize {
        match self {
            PaletteKind::Blocks => 8,
            PaletteKind::Biomes => 3,
        }
    }

    pub open spec fn spec_global_palette_bits(self) -> usize {
        match self {
            PaletteKind::Blocks => 15,
            PaletteKind::Biomes => 6,
        }
    }

    /// The edge of a section, in values of this kind.
    pub open spec fn spec_section_edge(self) -> usize {
        match self {
            PaletteKind::Blocks => 16,
            PaletteKind::Biomes => 4,
        }
    }

    /// Whether a container of this kind can hold `value`: it is of this
    /// kind, and its number fits the bits of the direct encoding.
    pub open spec fn admits(self, value: PaletteValue) -> bool {
        &&& value.spec_kind() == self
        &&& value.spec_raw() < (match self {
            PaletteKind::Blocks => 32768u64,
            PaletteKind::Biomes => 64u64,
        })
    }

    pub fn int_val(&self, value: u64) -> (v: PaletteValue)
        ensures
            v == self.spec_int_val(value),
    {
        match &self {
            PaletteKind::Blocks => PaletteValue::Block(#[verifier::truncate] (value as BlockState)),
            PaletteKind::Biomes => PaletteValue::Biome(#[verifier::truncate] (value as Biome)),
        }
    }

    pub fn neutral(&self) -> (v: PaletteValue)
        ensures
            v == self.spec_neutral(),
    {
        match &self {
            PaletteKind::Blocks => PaletteValue::Block(0),
            PaletteKind::Biomes => PaletteValue::Biome(39),
        }
    }

    pub fn container_length(&self) -> (n: usize)
        ensures
            n == self.spec_container_length(),
    {
        match &self {
            PaletteKind::Blocks => SECTION_BLOCKS,
            PaletteKind::Biomes => SECTION_BLOCKS / 64,
        }
    }

    pub fn min_palette_bits(&self) -> (n: usize)
        ensures
            n == self.spec_min_palette_bits(),
    {
        match &self {
            PaletteKind::Blocks => MIN_PALETTE_BITS_BLOCKS,
            PaletteKind::Biomes => MIN_PALETTE_BITS_BIOMES,
        }
    }

    pub fn max_palette_bits(&self) -> (n: usize)
        ensures
            n == self.spec_max_palette_bits(),
    {
        match &self {
            PaletteKind::Blocks => MAX_PALETTE_BITS_BLOCKS,
            PaletteKind::Biomes => MAX_PALETTE_BITS_BIOMES,
        }
    }

    pub fn global_palette_bits(&self) -> (n: usize)
        ensures
            n == self.spec_global_palette_bits(),
    {
        match &self {
            PaletteKind::Blocks => GLOBAL_PALETTE_BITS_BLOCKS,
            PaletteKind::Biomes => GLOBAL_PALETTE_BITS_BIOMES,
        }
    }

    pub fn section_edge(&self) -> (n: usize)
        ensures
            n == self.spec_section_edge(),
    {
        match &self {
            PaletteKind::Blocks => SECTION_EDGE,
            PaletteKind::Biomes => SECTION_EDGE / 4,
        }
    }

    pub fn section_blocks(&self) -> (n: usize)
        ensures
            n == self.spec_container_length(),
    {
        match &self {
            PaletteKind::Blocks => SECTION_BLOCKS,
            PaletteKind::Biomes => SECTION_BLOCKS / 64,
        }
    }

    /// Whether a container of this kind can hold `value`.
    pub fn can_hold(&self, value: PaletteValue) -> (ok: bool)
        ensures
            ok == self.admits(value),
    {
        match (self, value) {
            (PaletteKind::Blocks, PaletteValue::Block(v)) => v < 32768,
            (PaletteKind::Biomes, PaletteValue::Biome(v)) => v < 64,
            _ => false,
        }
    }
}

/// The values that a container has met, each under the id it was given:
/// ids go up from 0 without a gap, and no value has two.
pub struct Palette {
    pub id_to_state: HashMap<u32, PaletteValue>,
    state_to_id: HashMap<u64, u32>,
    kind: PaletteKind,
}

impl Clone for Palette {
    fn clone(&self) -> (copy: Palette)
        ensures
            copy@ == self@,
            self.wf() ==> copy.wf(),
            copy.spec_kind() == self.spec_kind(),
    {
        Palette {
            id_to_state: self.id_to_state.clone(),
            state_to_id: self.state_to_id.clone(),
            kind: self.kind,
        }
    }
}

impl View for Palette {
    type V = Seq<PaletteValue>;

    /// The values in the order of their ids.
    closed spec fn view(&self) -> Seq<PaletteValue> {
        Seq::new(self.id_to_state@.len(), |id: int| self.id_to_state@[id as u32])
    }
}

impl Palette {
    /// Whether the two maps say the same: the ids are 0 up to the number of
    /// values, each value leads back to its id, and id 0 holds the neutral
    /// value.
    pub closed spec fn wf(&self) -> bool {
        &&& 1 <= self.id_to_state@.len() <= u32::MAX
        &&& forall|id: u32| #[trigger]
            self.id_to_state@.contains_key(id) <==> (id as nat) < self.id_to_state@.len()
        &&& forall|id: u32| #[trigger]
            self.id_to_state@.contains_key(id) ==> self.state_to_id@.contains_key(
                self.id_to_state@[id].spec_key(),
            ) && self.state_to_id@[self.id_to_state@[id].spec_key()] == id
        &&& forall|key: u64| #[trigger]
            self.state_to_id@.contains_key(key) ==> self.id_to_state@.contains_key(
                self.state_to_id@[key],
            ) && self.id_to_state@[self.state_to_id@[key]].spec_key() == key
        &&& self.id_to_state@[0u32] == self.kind.spec_neutral()
    }

    /// The kind of values that the palette is for.
    pub closed spec fn spec_kind(&self) -> PaletteKind {
        self.kind
    }

    /// A palette holds its neutral value first, and no value twice.
    pub proof fn lemma_wf(&self)
        requires
            self.wf(),
        ensures
            1 <= self@.len() <= u32::MAX,
            self@[0] == self.spec_kind().spec_neutral(),
            self@.no_duplicates(),
    {
        assert(self.id_to_state@.contains_key(0u32));
        assert forall|i: int, j: int|
            0 <= i < self@.len() && 0 <= j < self@.len() && i != j implies self@[i] != self@[j] by {
            assert(self.id_to_state@.contains_key(i as u32));
            assert(self.id_to_state@.contains_key(j as u32));
        }
    }

    /// A palette that holds the neutral value of `kind` and nothing else.
    pub fn new(kind: PaletteKind) -> (p: Palette)
        ensures
            p.wf(),
            p.spec_kind() == kind,
            p@ == seq![kind.spec_neutral()],
    {
        let mut id_to_state: HashMap<u32, PaletteValue> = HashMap::new();
        let mut state_to_id: HashMap<u64, u32> = HashMap::new();
        id_to_state.insert(0, kind.neutral());
        state_to_id.insert(kind.neutral().key(), 0);
        let p = Palette { id_to_state, state_to_id, kind };
        proof {
            assert(p.id_to_state@.dom() =~= set![0u32]);
            assert(p@ =~= seq![kind.spec_neutral()]);
        }
        p
    }

    /// The id of `state`: the one it has, or the next free one, which it is
    /// then given.
    pub fn index_or_insert(&mut self, state: PaletteValue) -> (id: u32)
        requires
            old(self).wf(),
            old(self)@.len() < u32::MAX,
        ensures
            final(self).wf(),
            indexed(old(self)@, state, id as int, final(self)@),
            final(self).spec_kind() == old(self).spec_kind(),
            id < final(self)@.len(),
            final(self)@[id as int] == state,
            old(self)@.contains(state) ==> final(self)@ == old(self)@,
            !old(self)@.contains(state) ==> final(self)@ == old(self)@.push(state) && id == old(
                self,
            )@.len(),
    {
        let key = state.key();
        let found = match self.state_to_id.get(&key) {
            Some(id) => Some(*id),
            None => None,
        };
        match found {
            Some(id) => {
                proof {
                    assert(self.state_to_id@.contains_key(key));
                    PaletteValue::lemma_key(self.id_to_state@[id], state);
                    assert(self@[id as int] == state);
                }
                id
            },
            None => {
                let id = self.id_to_state.len() as u32;
                proof {
                    if old(self)@.contains(state) {
                        let i = choose|i: int| 0 <= i < old(self)@.len() && old(self)@[i] == state;
                        assert(self.id_to_state@.contains_key(i as u32));
                    }
                    assert(!self.id_to_state@.contains_key(id));
                }
                self.id_to_state.insert(id, state);
                self.state_to_id.insert(key, id);
                proof {
                    assert(self.id_to_state@.len() == old(self).id_to_state@.len() + 1);
                    assert forall|other: u32| #[trigger]
                        self.id_to_state@.contains_key(other) implies self.state_to_id@.contains_key(
                        self.id_to_state@[other].spec_key(),
                    ) && self.state_to_id@[self.id_to_state@[other].spec_key()] == other by {
                        if other != id {
                            assert(old(self).id_to_state@.contains_key(other));
                            PaletteValue::lemma_key(old(self).id_to_state@[other], state);
                        }
                    }
                    assert forall|k: u64| #[trigger]
                        self.state_to_id@.contains_key(k) implies self.id_to_state@.contains_key(
                        self.state_to_id@[k],
                    ) && self.id_to_state@[self.state_to_id@[k]].spec_key() == k by {
                        if k != key {
                            assert(old(self).state_to_id@.contains_key(k));
                        }
                    }
                    assert(old(self).id_to_state@.contains_key(0u32));
                    assert(self@ =~= old(self)@.push(state));
                }
                id
            },
        }
    }

    /// The value under `id`, or the neutral value where there is none.
    pub fn get(&self, id: u32) -> (value: PaletteValue)
        requires
            self.wf(),
        ensures
            id < self@.len() ==> value == self@[id as int],
            id >= self@.len() ==> value == self.spec_kind().spec_neutral(),
    {
        match self.id_to_state.get(&id) {
            Some(value) => *value,
            None => self.kind.neutral(),
        }
    }

    /// The number of values.
    pub fn len(&self) -> (len: usize)
        requires
            self.wf(),
        ensures
            len == self@.len(),
    {
        self.id_to_state.len()
    }
}

/// What `index_or_insert` does to the values of a palette: a value that
/// is there keeps its id and nothing changes; a value that is new goes to
/// the end and has the next id.
pub open spec fn indexed(
    before: Seq<PaletteValue>,
    state: PaletteValue,
    id: int,
    after: Seq<PaletteValue>,
) -> bool {
    &&& 0 <= id < after.len()
    &&& after[id] == state
    &&& if before.contains(state) {
        after == before
    } else {
        after == before.push(state) && id == before.len()
    }
}

/// Ids are stable: a value that has been given an id is given the same id
/// whenever it is asked for again, whatever has been added in between.
pub proof fn lemma_stable_ids(
    start: Seq<PaletteValue>,
    state: PaletteValue,
    first: int,
    then: Seq<PaletteValue>,
    later: Seq<PaletteValue>,
    second: int,
    last: Seq<PaletteValue>,
)
    requires
        indexed(start, state, first, then),
        then.len() <= later.len(),
        forall|i: int| 0 <= i < then.len() ==> later[i] == then[i],
        later.no_duplicates(),
        indexed(later, state, second, last),
    ensures
        second == first,
        last == later,
{
    assert(later[first] == state);
    assert(later.contains(state));
}

/// The numbers of `values` as VarInts.
pub open spec fn entries(values: Seq<PaletteValue>) -> Seq<VarInt> {
    Seq::new(values.len(), |i: int| VarInt { value: values[i].spec_raw() as i32 })
}

impl Palette {
    /// The palette on the wire: the number of values as a VarInt, then the
    /// number of each value as a VarInt, in the order of the ids.
    pub open spec fn wire(&self) -> Seq<u8> {
        SizedVec::<VarInt>::encoding(entries(self@))
    }

    /// Appends the palette to `out` as it travels.
    pub fn write(&self, out: &mut Vec<u8>)
        requires
            self.wf(),
            self@.len() <= i32::MAX,
        ensures
            final(out)@ == old(out)@ + self.wire(),
    {
        let count = self.len();
        let mut list: Vec<VarInt> = Vec::new();
        let mut id: usize = 0;
        while id < count
            invariant
                id <= count,
                count == self@.len(),
                count <= u32::MAX,
                self.wf(),
                list@.len() == id,
                forall|i: int| 0 <= i < id ==> list@[i] == entries(self@)[i],
            decreases count - id,
        {
            let value = self.get(id as u32);
            list.push(VarInt { value: #[verifier::truncate] (value.raw() as i32) });
            id += 1;
        }
        proof {
            assert(models(list@) =~= entries(self@));
        }
        write_items(&list, out);
    }
}

/// The place of `position` in a container of `kind`, counted layer by
/// layer and row by row, if each coordinate is inside the section.
pub open spec fn spec_index(kind: PaletteKind, position: Position) -> Option<int> {
    let edge = kind.spec_section_edge() as int;
    if 0 <= position.x < edge && 0 <= position.y < edge && 0 <= position.z < edge {
        Some(position.y * edge * edge + position.z * edge + position.x)
    } else {
        None
    }
}

/// Positions inside a section have places inside the container, and no
/// two of them the same.
pub proof fn lemma_spec_index(kind: PaletteKind, a: Position, b: Position)
    ensures
        spec_index(kind, a) matches Some(i) ==> 0 <= i < kind.spec_container_length(),
        spec_index(kind, a) is Some && spec_index(kind, a) == spec_index(kind, b) ==> a == b,
{
    let edge = kind.spec_section_edge() as int;
    if spec_index(kind, a) is Some {
        assert(0 <= a.y * edge * edge + a.z * edge + a.x < edge * edge * edge) by (nonlinear_arith)
            requires
                0 <= a.x < edge,
                0 <= a.y < edge,
                0 <= a.z < edge,
        ;
        if spec_index(kind, a) == spec_index(kind, b) {
            assert(a.y == b.y && a.z == b.z && a.x == b.x) by (nonlinear_arith)
                requires
                    0 <= a.x < edge,
                    0 <= a.y < edge,
                    0 <= a.z < edge,
                    0 <= b.x < edge,
                    0 <= b.y < edge,
                    0 <= b.z < edge,
                    a.y * edge * edge + a.z * edge + a.x == b.y * edge * edge + b.z * edge + b.x,
            ;
        }
    }
}

/// What is put at a position is what is found there, and what is found
/// at every other position is what was there before.
pub proof fn lemma_set_then_get(
    kind: PaletteKind,
    before: Seq<PaletteValue>,
    position: Position,
    value: PaletteValue,
    after: Seq<PaletteValue>,
    other: Position,
)
    requires
        before.len() == kind.spec_container_length(),
        spec_index(kind, position) matches Some(i) && after == before.update(i, value),
    ensures
        after[spec_index(kind, position)->Some_0] == value,
        spec_index(kind, other) is Some && other != position ==> after[spec_index(
            kind,
            other,
        )->Some_0] == before[spec_index(kind, other)->Some_0],
{
    lemma_spec_index(kind, position, other);
    lemma_spec_index(kind, other, position);
}

/// Joining the coordinates by shifts counts layer by layer and row by row.
proof fn lemma_index_bits(x: i32, y: i32, z: i32)
    by (bit_vector)
    requires
        0 <= x < 16,
        0 <= y < 16,
        0 <= z < 16,
    ensures
        (y << 8) | (z << 4) | x == y * 256 + z * 16 + x,
        x < 4 && y < 4 && z < 4 ==> (y << 4) | (z << 2) | x == y * 16 + z * 4 + x,
{
}

/// The largest numbers of the bit widths that containers use.
pub proof fn lemma_widths()
    by (bit_vector)
    ensures
        1u64 << 1u64 == 2,
        1u64 << 2u64 == 4,
        1u64 << 3u64 == 8,
        1u64 << 4u64 == 16,
        1u64 << 5u64 == 32,
        1u64 << 6u64 == 64,
        1u64 << 7u64 == 128,
        1u64 << 8u64 == 256,
        1u64 << 15u64 == 32768,
{
}

/// A grid of values of one kind. While the values are few the grid holds
/// ids of a palette; once they are too many for the widest palette it
/// holds the values themselves.
pub struct PalettedContainer {
    palette: Option<Palette>,
    data: PackedArray,
    kind: PaletteKind,
}

impl Clone for PalettedContainer {
    fn clone(&self) -> (copy: PalettedContainer)
        ensures
            copy@ == self@,
            self.wf() ==> copy.wf(),
            copy.spec_kind() == self.spec_kind(),
            copy.wire() == self.wire(),
    {
        let palette = match &self.palette {
            Some(palette) => Some(palette.clone()),
            None => None,
        };
        let copy = PalettedContainer { palette, data: self.data.clone(), kind: self.kind };
        proof {
            self.data.lemma_view();
            copy.data.lemma_view();
            assert(copy@ =~= self@);
        }
        copy
    }
}

impl View for PalettedContainer {
    type V = Seq<PaletteValue>;

    /// The values, place by place.
    closed spec fn view(&self) -> Seq<PaletteValue> {
        Seq::new(
            self.data@.len(),
            |i: int|
                match self.palette {
                    Some(palette) => palette@[self.data@[i] as int],
                    None => self.kind.spec_int_val(self.data@[i]),
                },
        )
    }
}

impl PalettedContainer {
    /// Whether the parts fit together, where the palette may hold `slack`
    /// more values than the bits of the grid can name.
    closed spec fn fits(&self, slack: int) -> bool {
        &&& self.data.wf()
        &&& self.data.spec_len() == self.kind.spec_container_length()
        &&& self.data.words() == packed_words(self.data@, self.data.spec_bits())
        &&& match self.palette {
            Some(palette) => {
                &&& palette.wf()
                &&& palette.spec_kind() == self.kind
                &&& self.kind.spec_min_palette_bits() <= self.data.spec_bits()
                    <= self.kind.spec_max_palette_bits()
                &&& palette@.len() <= mask_of(self.data.spec_bits()) + 1 + slack
                &&& forall|i: int|
                    0 <= i < self.data@.len() ==> #[trigger] self.data@[i] < palette@.len()
                &&& forall|id: int|
                    0 <= id < palette@.len() ==> self.kind.admits(#[trigger] palette@[id])
            },
            None => self.data.spec_bits() == self.kind.spec_global_palette_bits(),
        }
    }

    /// Whether the parts fit together: with a palette, the grid holds ids of
    /// the palette in no more bits than the kind allows for a palette;
    /// without one, it holds values in the bits of the direct encoding.
    pub closed spec fn wf(&self) -> bool {
        self.fits(0)
    }

    /// The kind of values that the container holds.
    pub closed spec fn spec_kind(&self) -> PaletteKind {
        self.kind
    }

    /// Whether the container holds ids of a palette.
    pub closed spec fn is_indirect(&self) -> bool {
        self.palette is Some
    }

    /// The number of bits of each entry of the grid.
    pub closed spec fn spec_bits(&self) -> usize {
        self.data.spec_bits()
    }

    /// The values of the palette, in the order of their ids.
    pub closed spec fn palette_values(&self) -> Seq<PaletteValue>
        recommends
            self.is_indirect(),
    {
        self.palette->Some_0@
    }

    /// The words of the grid.
    pub closed spec fn grid_words(&self) -> Seq<u64> {
        self.data.words()
    }

    /// The entries of the grid: ids of the palette where there is one, the
    /// numbers of the values themselves where there is none.
    pub closed spec fn grid_values(&self) -> Seq<u64> {
        self.data@
    }

    /// A container holds as many values as its kind says, each of them
    /// admitted by the kind. Its grid has an entry for each value, which
    /// names the value in the palette or, without a palette, is its number;
    /// the words of the grid hold the entries and nothing else. A palette
    /// starts with the neutral value, holds no value twice, and holds no
    /// more values than the bits of an entry can name.
    pub proof fn lemma_wf(&self)
        requires
            self.wf(),
        ensures
            self@.len() == self.spec_kind().spec_container_length(),
            forall|i: int| 0 <= i < self@.len() ==> self.spec_kind().admits(#[trigger] self@[i]),
            self.grid_values().len() == self@.len(),
            self.grid_words() == packed_words(self.grid_values(), self.spec_bits()),
            self.is_indirect() ==> {
                &&& self.spec_kind().spec_min_palette_bits() <= self.spec_bits()
                    <= self.spec_kind().spec_max_palette_bits()
                &&& 1 <= self.palette_values().len() <= mask_of(self.spec_bits()) + 1
                &&& self.palette_values()[0] == self.spec_kind().spec_neutral()
                &&& self.palette_values().no_duplicates()
                &&& forall|i: int|
                    0 <= i < self@.len() ==> #[trigger] self.grid_values()[i]
                        < self.palette_values().len() && self@[i]
                        == self.palette_values()[self.grid_values()[i] as int]
            },
            !self.is_indirect() ==> {
                &&& self.spec_bits() == self.spec_kind().spec_global_palette_bits()
                &&& forall|i: int|
                    0 <= i < self@.len() ==> #[trigger] self.grid_values()[i]
                        == self@[i].spec_raw()
            },
    {
        lemma_widths();
        self.data.lemma_values_fit();
        self.data.lemma_view();
        match self.palette {
            Some(palette) => {
                palette.lemma_wf();
            },
            None => {},
        }
        assert forall|i: int| 0 <= i < self@.len() implies self.spec_kind().admits(
            #[trigger] self@[i],
        ) by {
            match self.palette {
                Some(palette) => {
                    assert(self.data@[i] < palette@.len());
                },
                None => {
                    assert(self.data@[i] <= mask_of(self.data.spec_bits()));
                },
            }
        }
    }

    /// A container that holds more different values than the widest
    /// palette of its kind can name (256 blocks, 8 biomes) has no palette:
    /// its grid holds the values themselves, in the bits of the direct
    /// encoding.
    pub proof fn lemma_many_values(&self)
        requires
            self.wf(),
            self@.to_set().len() > (match self.spec_kind() {
                PaletteKind::Blocks => 256int,
                PaletteKind::Biomes => 8int,
            }),
        ensures
            !self.is_indirect(),
            self.spec_bits() == self.spec_kind().spec_global_palette_bits(),
    {
        lemma_widths();
        self.lemma_wf();
        if self.is_indirect() {
            let palette = self.palette_values();
            assert forall|value: PaletteValue| self@.to_set().contains(value) implies palette.to_set().contains(
                value,
            ) by {
                let i = choose|i: int| 0 <= i < self@.len() && self@[i] == value;
                assert(self@[i] == palette[self.grid_values()[i] as int]);
            }
            vstd::seq_lib::seq_to_set_is_finite(palette);
            vstd::set_lib::lemma_len_subset(self@.to_set(), palette.to_set());
            palette.lemma_cardinality_of_set();
        }
    }

    fn new_of(kind: PaletteKind) -> (c: PalettedContainer)
        ensures
            c.wf(),
            c.spec_kind() == kind,
            c.is_indirect(),
            c@ == Seq::new(kind.spec_container_length() as nat, |i: int| kind.spec_neutral()),
            c.spec_bits() == kind.spec_min_palette_bits(),
            c.palette_values() == seq![kind.spec_neutral()],
            c.grid_values() == Seq::new(kind.spec_container_length() as nat, |i: int| 0u64),
            c.grid_words() == Seq::new(
                words_for(kind.spec_container_length(), kind.spec_min_palette_bits()) as nat,
                |i: int| 0u64,
            ),
    {
        let c = PalettedContainer {
            palette: Some(Palette::new(kind)),
            data: PackedArray::new(kind.container_length(), kind.min_palette_bits()),
            kind,
        };
        proof {
            lemma_widths();
            c.data.lemma_view();
            assert(c@ =~= Seq::new(
                kind.spec_container_length() as nat,
                |i: int| kind.spec_neutral(),
            ));
        }
        c
    }

    /// A container of 4096 blocks, all air: a palette of air alone, and a
    /// grid of four bits for each entry with nothing set.
    pub fn new_blocks() -> (c: PalettedContainer)
        ensures
            c.wf(),
            c.spec_kind() == PaletteKind::Blocks,
            c.is_indirect(),
            c@ == Seq::new(4096, |i: int| PaletteValue::Block(0)),
            c.spec_bits() == 4,
            c.palette_values() == seq![PaletteValue::Block(0)],
            c.grid_values() == Seq::new(4096, |i: int| 0u64),
            c.grid_words() == Seq::new(256, |i: int| 0u64),
    {
        let kind = PaletteKind::Blocks;
        Self::new_of(kind)
    }

    /// A container of 64 biomes, all biome 39: a palette of that biome
    /// alone, and a grid of one bit for each entry with nothing set.
    pub fn new_biomes() -> (c: PalettedContainer)
        ensures
            c.wf(),
            c.spec_kind() == PaletteKind::Biomes,
            c.is_indirect(),
            c@ == Seq::new(64, |i: int| PaletteValue::Biome(39)),
            c.spec_bits() == 1,
            c.palette_values() == seq![PaletteValue::Biome(39)],
            c.grid_values() == Seq::new(64, |i: int| 0u64),
            c.grid_words() == Seq::new(1, |i: int| 0u64),
    {
        let kind = PaletteKind::Biomes;
        Self::new_of(kind)
    }

    /// The place of `position` in the grid, if it is inside the section.
    pub fn block_index(&self, position: Position) -> (index: Option<usize>)
        ensures
            match spec_index(self.spec_kind(), position) {
                Some(i) => index == Some(i as usize) && i < self.spec_kind().spec_container_length(),
                None => index is None,
            },
    {
        let edge = self.kind.section_edge() as i32;
        if position.x < 0 || position.y < 0 || position.z < 0 || position.x >= edge || position.y
            >= edge || position.z >= edge {
            None
        } else {
            proof {
                lemma_index_bits(position.x, position.y, position.z);
                lemma_spec_index(self.kind, position, position);
                assert(position.y * 16 * 16 == position.y * 256 && position.y * 4 * 4
                    == position.y * 16);
            }
            match &self.kind {
                PaletteKind::Blocks => {
                    Some(((position.y << 8) | (position.z << 4) | position.x) as usize)
                },
                PaletteKind::Biomes => {
                    Some(((position.y << 4) | (position.z << 2) | position.x) as usize)
                },
            }
        }
    }

    /// The value at `position`, or the neutral value for a position outside
    /// the section.
    pub fn get_at(&self, position: Position) -> (value: PaletteValue)
        requires
            self.wf(),
        ensures
            match spec_index(self.spec_kind(), position) {
                Some(i) => value == self@[i],
                None => value == self.spec_kind().spec_neutral(),
            },
    {
        let index = self.block_index(position);
        proof {
            self.data.lemma_view();
        }
        if let Some(index) = index {
            let stored = self.data.get(index).unwrap();
            let block = match &self.palette {
                Some(palette) => {
                    assert(self.data@[index as int] < palette@.len());
                    palette.get(stored as u32)
                },
                None => self.kind.int_val(stored),
            };
            block
        } else {
            self.kind.neutral()
        }
    }

    /// What an insertion does to the palette and the bits of the grid. A
    /// container without a palette stays as it is. With a palette, a value
    /// that is new joins the palette; if the palette then holds more values
    /// than the bits of the grid can name, the grid gets one bit more for
    /// each entry, and if that is more than the kind allows for a palette,
    /// the palette goes and the grid holds the values themselves.
    pub open spec fn made_room(&self, value: PaletteValue, after: &PalettedContainer) -> bool {
        if self.is_indirect() {
            let palette = if self.palette_values().contains(value) {
                self.palette_values()
            } else {
                self.palette_values().push(value)
            };
            if palette.len() <= mask_of(self.spec_bits()) + 1 {
                &&& after.is_indirect()
                &&& after.palette_values() == palette
                &&& after.spec_bits() == self.spec_bits()
            } else if self.spec_bits() < self.spec_kind().spec_max_palette_bits() {
                &&& after.is_indirect()
                &&& after.palette_values() == palette
                &&& after.spec_bits() == self.spec_bits() + 1
            } else {
                &&& !after.is_indirect()
                &&& after.spec_bits() == self.spec_kind().spec_global_palette_bits()
            }
        } else {
            !after.is_indirect() && after.spec_bits() == self.spec_bits()
        }
    }

    /// Putting a value in a second time makes no more room than the first
    /// time made: the palette and the bits stay as the first insertion left
    /// them.
    pub proof fn lemma_made_room_once(
        &self,
        value: PaletteValue,
        first: &PalettedContainer,
        second: &PalettedContainer,
    )
        requires
            self.made_room(value, first),
            first.wf(),
            first.made_room(value, second),
        ensures
            self.made_room(value, second),
            second.is_indirect() == first.is_indirect(),
            second.spec_bits() == first.spec_bits(),
            first.is_indirect() ==> second.palette_values() == first.palette_values(),
    {
        first.lemma_wf();
        if self.is_indirect() && first.is_indirect() {
            let palette = first.palette_values();
            if self.palette_values().contains(value) {
                assert(palette.contains(value));
            } else {
                assert(palette[palette.len() - 1] == value);
                assert(palette.contains(value));
            }
        }
    }

    /// Puts `block_state` at `position`. A position outside the section is
    /// an error and changes nothing.
    pub fn set_at(&mut self, position: Position, block_state: PaletteValue) -> (r: Result<
        (),
        ProtError,
    >)
        requires
            old(self).wf(),
            old(self).spec_kind().admits(block_state),
        ensures
            final(self).wf(),
            final(self).spec_kind() == old(self).spec_kind(),
            match spec_index(old(self).spec_kind(), position) {
                Some(i) => r is Ok && final(self)@ == old(self)@.update(i, block_state)
                    && old(self).made_room(block_state, final(self)),
                None => r == Err::<(), ProtError>(ProtError::PositionOutOfBounds(position))
                    && *final(self) == *old(self),
            },
    {
        let index = self.block_index(position);
        if index.is_none() {
            return Err(ProtError::PositionOutOfBounds(position));
        }
        proof {
            lemma_widths();
            self.data.lemma_view();
        }
        let ghost before = self@;
        let block: u64 = match &mut self.palette {
            Some(palette) => {
                let ghost known = palette@;
                let palette_index = palette.index_or_insert(block_state);
                proof {
                    assert(self@ =~= before) by {
                        assert forall|i: int| 0 <= i < self.data@.len() implies palette@[self.data@[i] as int]
                            == known[self.data@[i] as int] by {
                            assert(self.data@[i] < known.len());
                        }
                    }
                    assert forall|id: int| 0 <= id < palette@.len() implies self.kind.admits(
                        #[trigger] palette@[id],
                    ) by {
                        if id < known.len() {
                            assert(self.kind.admits(known[id]));
                        }
                    }
                    assert(self.fits(1));
                }
                if self.resize_palette() {
                    block_state.raw()
                } else {
                    palette_index as u64
                }
            },
            None => block_state.raw(),
        };
        proof {
            self.data.lemma_view();
        }
        self.data.set(index.unwrap(), block);
        proof {
            self.data.lemma_view();
            assert(self@ =~= before.update(index.unwrap() as int, block_state));
        }
        Ok(())
    }

    /// The container on the wire. With a palette of one value: a zero byte,
    /// the number of that value as a VarInt, and an empty array of words.
    /// With a larger palette: the bits of an entry in one byte, the palette,
    /// and the words of the grid behind their number. Without a palette:
    /// the bits of an entry and the words.
    pub closed spec fn wire(&self) -> Seq<u8> {
        match self.palette {
            Some(palette) => if palette@.len() == 1 {
                seq![0u8] + VarInt::encoding(VarInt { value: palette@[0].spec_raw() as i32 })
                    + VarInt::encoding(VarInt { value: 0 })
            } else {
                seq![self.data.spec_bits() as u8] + palette.wire() + SizedVec::<u64>::encoding(
                    self.data.words(),
                )
            },
            None => seq![self.data.spec_bits() as u8] + SizedVec::<u64>::encoding(
                self.data.words(),
            ),
        }
    }

    /// How the container travels, said over its parts.
    pub proof fn lemma_wire(&self)
        ensures
            self.wire() == (if self.is_indirect() && self.palette_values().len() == 1 {
                seq![0u8] + VarInt::encoding(
                    VarInt { value: self.palette_values()[0].spec_raw() as i32 },
                ) + VarInt::encoding(VarInt { value: 0 })
            } else if self.is_indirect() {
                seq![self.spec_bits() as u8] + SizedVec::<VarInt>::encoding(
                    entries(self.palette_values()),
                ) + SizedVec::<u64>::encoding(self.grid_words())
            } else {
                seq![self.spec_bits() as u8] + SizedVec::<u64>::encoding(self.grid_words())
            }),
    {
    }

    /// Appends the container to `out` as it travels.
    pub fn write(&self, out: &mut Vec<u8>)
        requires
            self.wf(),
        ensures
            final(out)@ == old(out)@ + self.wire(),
    {
        proof {
            lemma_widths();
            self.data.lemma_view();
        }
        let single = match &self.palette {
            Some(palette) => palette.len() == 1,
            None => false,
        };
        if single {
            0u8.write(out);
            match &self.palette {
                Some(palette) => {
                    let value = palette.get(0);
                    (VarInt { value: #[verifier::truncate] (value.raw() as i32) }).write(out);
                },
                None => {},
            }
            (VarInt { value: 0 }).write(out);
        } else {
            (self.data.bits_per_value() as u8).write(out);
            if let Some(palette) = &self.palette {
                palette.write(out);
            }
            let words = self.data.as_u64_slice();
            let list = vstd::slice::slice_to_vec(words);
            proof {
                self.data.lemma_words();
                assert(models(list@) =~= self.data.words());
                assert(SizedVec::<u64>::valid(models(list@)));
            }
            write_items(&list, out);
        }
    }

    /// Makes room for a palette that has outgrown the bits of the grid: one
    /// bit more for each entry, or, past the widest palette, the values
    /// themselves in place of their ids. Says whether the palette is gone.
    fn resize_palette(&mut self) -> (direct: bool)
        requires
            old(self).fits(1),
            old(self).palette is Some,
        ensures
            final(self).wf(),
            final(self)@ == old(self)@,
            final(self).kind == old(self).kind,
            direct == (final(self).palette is None),
            !direct ==> final(self).palette == old(self).palette,
            old(self).palette->Some_0@.len() <= mask_of(old(self).data.spec_bits()) + 1
                ==> !direct && final(self).data.spec_bits() == old(self).data.spec_bits(),
            old(self).palette->Some_0@.len() > mask_of(old(self).data.spec_bits()) + 1 ==> (
            if old(self).data.spec_bits() < old(self).kind.spec_max_palette_bits() {
                !direct && final(self).data.spec_bits() == old(self).data.spec_bits() + 1
            } else {
                direct
            }),
    {
        proof {
            lemma_widths();
            self.data.lemma_view();
        }
        let ghost before = self@;
        let grown = match &self.palette {
            Some(palette) => palette.len() - 1 > self.data.max_value() as usize,
            None => false,
        };
        if grown {
            let new_size = self.data.bits_per_value() + 1;
            if new_size > self.kind.max_palette_bits() {
                let mut data = self.data.resized(self.kind.global_palette_bits());
                let count = self.kind.section_blocks();
                let ghost ids = self.data@;
                let mut i: usize = 0;
                while i < count
                    invariant
                        i <= count,
                        count == self.kind.spec_container_length(),
                        self.fits(1),
                        self.palette is Some,
                        ids == self.data@,
                        data.wf(),
                        data.spec_len() == count,
                        data.spec_bits() == self.kind.spec_global_palette_bits(),
                        data.words() == packed_words(data@, data.spec_bits()),
                        forall|j: int|
                            0 <= j < i ==> #[trigger] data@[j] == self.palette->Some_0@[ids[j] as int].spec_raw(),
                        forall|j: int| i <= j < count ==> #[trigger] data@[j] == ids[j],
                    decreases count - i,
                {
                    proof {
                        lemma_widths();
                        self.data.lemma_view();
                        data.lemma_view();
                        assert(ids[i as int] < self.palette->Some_0@.len());
                        assert(self.kind.admits(self.palette->Some_0@[ids[i as int] as int]));
                    }
                    let stored = data.get(i).unwrap();
                    let block = match &self.palette {
                        Some(palette) => palette.get(stored as u32),
                        None => self.kind.neutral(),
                    };
                    data.set(i, block.raw());
                    i += 1;
                }
                self.data = data;
                self.palette = None;
                proof {
                    self.data.lemma_view();
                    assert forall|j: int| 0 <= j < count implies self@[j] == before[j] by {
                        assert(ids[j] < old(self).palette->Some_0@.len());
                        assert(self.kind.admits(old(self).palette->Some_0@[ids[j] as int]));
                    }
                    assert(self@ =~= before);
                }
                return true;
            } else {
                self.data = self.data.resized(new_size);
                proof {
                    self.data.lemma_view();
                    assert(mask_of(new_size) + 1 == 2 * (mask_of((new_size - 1) as usize) + 1));
                    assert(self@ =~= before);
                }
                return false;
            }
        }
        false
    }
}

} // verus!
