use crate::err::CodecError;
use crate::protocol_types::endian::{be_value, lemma_be_value_local, pow256};
use crate::protocol_types::primitives::{append_bytes, read_be};
use crate::protocol_types::traits::{Prot, ReadProt, SizedProt, WriteProt};
use vstd::prelude::*;
use vstd::slice::{slice_subrange, slice_to_vec};

verus! {

pub const TAG_END: u8 = 0;

pub const TAG_BYTE: u8 = 1;

pub const TAG_SHORT: u8 = 2;

pub const TAG_INT: u8 = 3;

pub const TAG_LONG: u8 = 4;

pub const TAG_FLOAT: u8 = 5;

pub const TAG_DOUBLE: u8 = 6;

pub const TAG_BYTE_ARRAY: u8 = 7;

pub const TAG_STRING: u8 = 8;

pub const TAG_LIST: u8 = 9;

pub const TAG_COMPOUND: u8 = 10;

pub const TAG_INT_ARRAY: u8 = 11;

pub const TAG_LONG_ARRAY: u8 = 12;

/// How deep lists and compounds may nest.
pub const MAX_DEPTH: u32 = 512;

/// `end`, if it lies inside `s`.
pub open spec fn within(s: Seq<u8>, end: int) -> Option<int> {
    if end <= s.len() {
        Some(end)
    } else {
        None
    }
}

/// The end of `width` bytes at `pos` that spell a count, and of that many
/// items of `unit` bytes behind them. The count is signed and must not be
/// negative.
pub open spec fn counted_end(s: Seq<u8>, pos: int, width: nat, unit: nat) -> Option<int> {
    if pos + width > s.len() {
        None
    } else if width == 4 && be_value(s, pos, 4) >= 0x8000_0000 {
        None
    } else {
        within(s, pos + width + be_value(s, pos, width) * unit)
    }
}

/// Where the payload of a tag of kind `tag` that starts at `pos` ends, if it
/// is well-formed, lies inside `s` and nests no deeper than `depth`.
pub open spec fn payload_end(s: Seq<u8>, pos: int, tag: u8, depth: nat) -> Option<int>
    decreases depth, 0nat,
{
    if pos < 0 || pos > s.len() {
        None
    } else if tag == TAG_BYTE {
        within(s, pos + 1)
    } else if tag == TAG_SHORT {
        within(s, pos + 2)
    } else if tag == TAG_INT || tag == TAG_FLOAT {
        within(s, pos + 4)
    } else if tag == TAG_LONG || tag == TAG_DOUBLE {
        within(s, pos + 8)
    } else if tag == TAG_BYTE_ARRAY {
        counted_end(s, pos, 4, 1)
    } else if tag == TAG_STRING {
        counted_end(s, pos, 2, 1)
    } else if tag == TAG_INT_ARRAY {
        counted_end(s, pos, 4, 4)
    } else if tag == TAG_LONG_ARRAY {
        counted_end(s, pos, 4, 8)
    } else if tag == TAG_LIST {
        if depth == 0 || pos + 5 > s.len() {
            None
        } else if be_value(s, pos + 1, 4) == 0 || be_value(s, pos + 1, 4) >= 0x8000_0000 {
            Some(pos + 5)
        } else if s[pos] == TAG_END {
            None
        } else {
            items_end(s, pos + 5, s[pos], be_value(s, pos + 1, 4), (depth - 1) as nat)
        }
    } else if tag == TAG_COMPOUND {
        if depth == 0 {
            None
        } else {
            entries_end(s, pos, (depth - 1) as nat)
        }
    } else {
        None
    }
}

/// Where `count` payloads of kind `tag` in a row end, the first at `pos`.
pub open spec fn items_end(s: Seq<u8>, pos: int, tag: u8, count: nat, depth: nat) -> Option<int>
    decreases depth, count + 1,
{
    if count == 0 {
        if 0 <= pos <= s.len() {
            Some(pos)
        } else {
            None
        }
    } else {
        match payload_end(s, pos, tag, depth) {
            None => None,
            Some(next) => items_end(s, next, tag, (count - 1) as nat, depth),
        }
    }
}

/// Where the entries of a compound end, the first at `pos`: each is a kind,
/// a name behind its two-byte length, and a payload; a zero where a kind
/// would stand closes the compound.
pub open spec fn entries_end(s: Seq<u8>, pos: int, depth: nat) -> Option<int>
    decreases depth, s.len() - pos + 1,
{
    if pos < 0 || pos >= s.len() {
        None
    } else if s[pos] == TAG_END {
        Some(pos + 1)
    } else {
        match counted_end(s, pos + 1, 2, 1) {
            None => None,
            Some(named) => match payload_end(s, named, s[pos], depth) {
                None => None,
                Some(next) => if pos < next <= s.len() {
                    entries_end(s, next, depth)
                } else {
                    None
                },
            },
        }
    }
}

/// Where a compound without a name that starts at `pos` ends: the kind of a
/// compound, then its entries.
pub open spec fn compound_end(s: Seq<u8>, pos: int) -> Option<int> {
    if 0 <= pos < s.len() && s[pos] == TAG_COMPOUND {
        entries_end(s, pos + 1, MAX_DEPTH as nat)
    } else {
        None
    }
}

/// Whether `s` is one compound without a name, and nothing more.
#[verifier::opaque]
pub open spec fn is_compound(s: Seq<u8>) -> bool {
    compound_end(s, 0) == Some(s.len() as int)
}

/// A payload ends at or after its start, inside the input.
pub proof fn lemma_payload_bounds(s: Seq<u8>, pos: int, tag: u8, depth: nat)
    ensures
        payload_end(s, pos, tag, depth) matches Some(end) ==> 0 <= pos <= end <= s.len(),
    decreases depth, 0nat,
{
    if payload_end(s, pos, tag, depth) is Some {
        if tag == TAG_LIST {
            if !(be_value(s, pos + 1, 4) == 0 || be_value(s, pos + 1, 4) >= 0x8000_0000) {
                lemma_items_bounds(
                    s,
                    pos + 5,
                    s[pos],
                    be_value(s, pos + 1, 4),
                    (depth - 1) as nat,
                );
            }
        } else if tag == TAG_COMPOUND {
            lemma_entries_bounds(s, pos, (depth - 1) as nat);
        } else if tag == TAG_BYTE_ARRAY || tag == TAG_INT_ARRAY || tag == TAG_LONG_ARRAY {
            assert(be_value(s, pos, 4) * 1 >= 0 && be_value(s, pos, 4) * 4 >= 0 && be_value(
                s,
                pos,
                4,
            ) * 8 >= 0);
        }
    }
}

/// A run of payloads ends at or after its start, inside the input.
pub proof fn lemma_items_bounds(s: Seq<u8>, pos: int, tag: u8, count: nat, depth: nat)
    ensures
        items_end(s, pos, tag, count, depth) matches Some(end) ==> 0 <= pos <= end <= s.len(),
    decreases depth, count + 1,
{
    if count > 0 {
        lemma_payload_bounds(s, pos, tag, depth);
        match payload_end(s, pos, tag, depth) {
            Some(next) => {
                lemma_items_bounds(s, next, tag, (count - 1) as nat, depth);
            },
            None => {},
        }
    }
}

/// The entries of a compound end after their start, inside the input.
pub proof fn lemma_entries_bounds(s: Seq<u8>, pos: int, depth: nat)
    ensures
        entries_end(s, pos, depth) matches Some(end) ==> 0 <= pos < end <= s.len(),
    decreases depth, s.len() - pos + 1,
{
    if 0 <= pos < s.len() && s[pos] != TAG_END {
        match counted_end(s, pos + 1, 2, 1) {
            Some(named) => {
                lemma_payload_bounds(s, named, s[pos], depth);
                match payload_end(s, named, s[pos], depth) {
                    Some(next) => {
                        if pos < next <= s.len() {
                            lemma_entries_bounds(s, next, depth);
                        }
                    },
                    None => {},
                }
            },
            None => {},
        }
    }
}

/// The bytes of `s` from `from` to `to` stand in `t`, `by` places on.
pub open spec fn same_bytes(s: Seq<u8>, t: Seq<u8>, from: int, to: int, by: int) -> bool {
    &&& 0 <= from
    &&& to <= s.len()
    &&& 0 <= from + by
    &&& to + by <= t.len()
    &&& forall|i: int| from <= i < to ==> #[trigger] s[i] == t[i + by]
}

/// A count and its items end at the same place wherever their bytes stand.
pub proof fn lemma_counted_moves(
    s: Seq<u8>,
    pos: int,
    width: nat,
    unit: nat,
    t: Seq<u8>,
    by: int,
    to: int,
)
    requires
        counted_end(s, pos, width, unit) matches Some(end) && end <= to,
        same_bytes(s, t, pos, to, by),
    ensures
        counted_end(t, pos + by, width, unit) == Some(counted_end(s, pos, width, unit)->Some_0 + by),
{
    assert(be_value(s, pos, width) * unit >= 0) by (nonlinear_arith);
    assert forall|i: int| 0 <= i < width implies #[trigger] s[pos + i] == t[pos + by + i] by {
        assert(s[pos + i] == t[(pos + i) + by]);
    }
    lemma_be_value_local(s, pos, t, pos + by, width);
    if width == 4 {
        lemma_be_value_local(s, pos, t, pos + by, 4);
    }
}

/// A payload ends at the same place wherever its bytes stand.
pub proof fn lemma_payload_moves(
    s: Seq<u8>,
    pos: int,
    tag: u8,
    depth: nat,
    t: Seq<u8>,
    by: int,
    to: int,
)
    requires
        payload_end(s, pos, tag, depth) matches Some(end) && end <= to,
        same_bytes(s, t, pos, to, by),
    ensures
        payload_end(t, pos + by, tag, depth) == Some(payload_end(s, pos, tag, depth)->Some_0 + by),
    decreases depth, 0nat,
{
    lemma_payload_bounds(s, pos, tag, depth);
    if tag == TAG_BYTE_ARRAY {
        lemma_counted_moves(s, pos, 4, 1, t, by, to);
    } else if tag == TAG_STRING {
        lemma_counted_moves(s, pos, 2, 1, t, by, to);
    } else if tag == TAG_INT_ARRAY {
        lemma_counted_moves(s, pos, 4, 4, t, by, to);
    } else if tag == TAG_LONG_ARRAY {
        lemma_counted_moves(s, pos, 4, 8, t, by, to);
    } else if tag == TAG_LIST {
        if !(be_value(s, pos + 1, 4) == 0 || be_value(s, pos + 1, 4) >= 0x8000_0000) {
            lemma_items_bounds(
                s,
                pos + 5,
                s[pos],
                be_value(s, pos + 1, 4),
                (depth - 1) as nat,
            );
        }
        assert forall|i: int| 0 <= i < 4 implies #[trigger] s[pos + 1 + i] == t[pos + 1 + by
            + i] by {
            assert(s[pos + 1 + i] == t[(pos + 1 + i) + by]);
        }
        lemma_be_value_local(s, pos + 1, t, pos + 1 + by, 4);
        assert(s[pos] == t[pos + by]);
        if !(be_value(s, pos + 1, 4) == 0 || be_value(s, pos + 1, 4) >= 0x8000_0000) {
            lemma_items_moves(
                s,
                pos + 5,
                s[pos],
                be_value(s, pos + 1, 4),
                (depth - 1) as nat,
                t,
                by,
                to,
            );
        }
    } else if tag == TAG_COMPOUND {
        lemma_entries_moves(s, pos, (depth - 1) as nat, t, by, to);
    }
}

/// A run of payloads ends at the same place wherever its bytes stand.
pub proof fn lemma_items_moves(
    s: Seq<u8>,
    pos: int,
    tag: u8,
    count: nat,
    depth: nat,
    t: Seq<u8>,
    by: int,
    to: int,
)
    requires
        items_end(s, pos, tag, count, depth) matches Some(end) && end <= to,
        same_bytes(s, t, pos, to, by),
    ensures
        items_end(t, pos + by, tag, count, depth) == Some(
            items_end(s, pos, tag, count, depth)->Some_0 + by,
        ),
    decreases depth, count + 1,
{
    if count > 0 {
        let next = payload_end(s, pos, tag, depth)->Some_0;
        lemma_payload_bounds(s, pos, tag, depth);
        lemma_items_bounds(s, next, tag, (count - 1) as nat, depth);
        lemma_payload_moves(s, pos, tag, depth, t, by, to);
        lemma_items_moves(s, next, tag, (count - 1) as nat, depth, t, by, to);
    }
}

/// The entries of a compound end at the same place wherever their bytes
/// stand.
pub proof fn lemma_entries_moves(
    s: Seq<u8>,
    pos: int,
    depth: nat,
    t: Seq<u8>,
    by: int,
    to: int,
)
    requires
        entries_end(s, pos, depth) matches Some(end) && end <= to,
        same_bytes(s, t, pos, to, by),
    ensures
        entries_end(t, pos + by, depth) == Some(entries_end(s, pos, depth)->Some_0 + by),
    decreases depth, s.len() - pos + 1,
{
    lemma_entries_bounds(s, pos, depth);
    assert(s[pos] == t[pos + by]);
    if s[pos] != TAG_END {
        let named = counted_end(s, pos + 1, 2, 1)->Some_0;
        let next = payload_end(s, named, s[pos], depth)->Some_0;
        assert(be_value(s, pos + 1, 2) * 1 >= 0);
        lemma_payload_bounds(s, named, s[pos], depth);
        lemma_entries_bounds(s, next, depth);
        lemma_counted_moves(s, pos + 1, 2, 1, t, by, to);
        lemma_payload_moves(s, named, s[pos], depth, t, by, to);
        lemma_entries_moves(s, next, depth, t, by, to);
    }
}

/// An executable end says what the specification says.
pub open spec fn end_agrees(r: Option<usize>, end: Option<int>) -> bool {
    match end {
        Some(e) => r is Some && r->Some_0 == e,
        None => r is None,
    }
}

/// Finds the end of a count of `width` bytes at `pos` and of its items.
fn counted_end_of(src: &[u8], pos: usize, width: usize, unit: usize) -> (r: Option<usize>)
    requires
        pos <= src@.len(),
        width == 2 || width == 4,
        1 <= unit <= 8,
    ensures
        end_agrees(r, counted_end(src@, pos as int, width as nat, unit as nat)),
{
    proof {
        reveal_with_fuel(pow256, 5);
    }
    let (count, after) = match read_be(src, pos, width) {
        Ok(found) => found,
        Err(_) => {
            return None;
        },
    };
    if width == 4 && count >= 0x8000_0000 {
        return None;
    }
    assert(count * unit <= 0x8_0000_0000) by (nonlinear_arith)
        requires
            count <= 0x1_0000_0000,
            unit <= 8,
    ;
    let need: u64 = count * (unit as u64);
    let left: usize = src.len() - after;
    if need > left as u64 {
        return None;
    }
    Some(after + need as usize)
}

/// Finds the end of the payload of a tag of kind `tag` that starts at `pos`.
fn payload_end_of(src: &[u8], pos: usize, tag: u8, depth: u32) -> (r: Option<usize>)
    requires
        pos <= src@.len(),
    ensures
        end_agrees(r, payload_end(src@, pos as int, tag, depth as nat)),
    decreases depth, 0nat,
{
    let left: usize = src.len() - pos;
    if tag == TAG_BYTE {
        if left < 1 {
            None
        } else {
            Some(pos + 1)
        }
    } else if tag == TAG_SHORT {
        if left < 2 {
            None
        } else {
            Some(pos + 2)
        }
    } else if tag == TAG_INT || tag == TAG_FLOAT {
        if left < 4 {
            None
        } else {
            Some(pos + 4)
        }
    } else if tag == TAG_LONG || tag == TAG_DOUBLE {
        if left < 8 {
            None
        } else {
            Some(pos + 8)
        }
    } else if tag == TAG_BYTE_ARRAY {
        counted_end_of(src, pos, 4, 1)
    } else if tag == TAG_STRING {
        counted_end_of(src, pos, 2, 1)
    } else if tag == TAG_INT_ARRAY {
        counted_end_of(src, pos, 4, 4)
    } else if tag == TAG_LONG_ARRAY {
        counted_end_of(src, pos, 4, 8)
    } else if tag == TAG_LIST {
        if depth == 0 || left < 5 {
            return None;
        }
        let kind: u8 = src[pos];
        let count: u64 = match read_be(src, pos + 1, 4) {
            Ok((count, _)) => count,
            Err(_) => {
                return None;
            },
        };
        if count == 0 || count >= 0x8000_0000 {
            return Some(pos + 5);
        }
        if kind == TAG_END {
            return None;
        }
        let ghost whole = items_end(src@, pos + 5, kind, count as nat, (depth - 1) as nat);
        let mut at: usize = pos + 5;
        let mut done: u64 = 0;
        while done < count
            invariant
                done <= count,
                at <= src@.len(),
                depth >= 1,
                whole == payload_end(src@, pos as int, tag, depth as nat),
                whole == items_end(
                    src@,
                    at as int,
                    kind,
                    (count - done) as nat,
                    (depth - 1) as nat,
                ),
            decreases count - done,
        {
            proof {
                lemma_payload_bounds(src@, at as int, kind, (depth - 1) as nat);
            }
            match payload_end_of(src, at, kind, depth - 1) {
                Some(next) => {
                    at = next;
                },
                None => {
                    return None;
                },
            }
            done += 1;
        }
        Some(at)
    } else if tag == TAG_COMPOUND {
        if depth == 0 {
            None
        } else {
            entries_end_of(src, pos, depth - 1)
        }
    } else {
        None
    }
}

/// Finds the end of the entries of a compound, the first at `pos`.
fn entries_end_of(src: &[u8], pos: usize, depth: u32) -> (r: Option<usize>)
    requires
        pos <= src@.len(),
    ensures
        end_agrees(r, entries_end(src@, pos as int, depth as nat)),
    decreases depth, 1nat,
{
    let ghost whole = entries_end(src@, pos as int, depth as nat);
    let mut at: usize = pos;
    loop
        invariant
            at <= src@.len(),
            whole == entries_end(src@, pos as int, depth as nat),
            whole == entries_end(src@, at as int, depth as nat),
        decreases src@.len() - at,
    {
        if at >= src.len() {
            return None;
        }
        let kind: u8 = src[at];
        if kind == TAG_END {
            return Some(at + 1);
        }
        let named = match counted_end_of(src, at + 1, 2, 1) {
            Some(named) => named,
            None => {
                return None;
            },
        };
        proof {
            assert(be_value(src@, at + 1, 2) * 1 >= 0);
            lemma_payload_bounds(src@, named as int, kind, depth as nat);
        }
        let next = match payload_end_of(src, named, kind, depth) {
            Some(next) => next,
            None => {
                return None;
            },
        };
        if next <= at {
            return None;
        }
        at = next;
    }
}

/// Finds the end of a compound without a name that starts at `pos`.
pub fn compound_end_of(src: &[u8], pos: usize) -> (r: Option<usize>)
    requires
        pos <= src@.len(),
    ensures
        end_agrees(r, compound_end(src@, pos as int)),
{
    if pos < src.len() && src[pos] == TAG_COMPOUND {
        entries_end_of(src, pos + 1, MAX_DEPTH)
    } else {
        None
    }
}

/// A compound of named binary tags, held as its uncompressed bytes: the
/// kind of a compound, its entries, and the closing zero.
#[derive(Debug)]
pub struct NbtCompound {
    bytes: Vec<u8>,
}

impl View for NbtCompound {
    type V = Seq<u8>;

    closed spec fn view(&self) -> Seq<u8> {
        self.bytes@
    }
}

impl NbtCompound {
    #[verifier::type_invariant]
    spec fn well_formed(self) -> bool {
        is_compound(self.bytes@)
    }

    /// The compound that holds no entry.
    pub fn new() -> (c: NbtCompound)
        ensures
            c@ == seq![TAG_COMPOUND, TAG_END],
            is_compound(c@),
    {
        let mut bytes: Vec<u8> = Vec::new();
        bytes.push(TAG_COMPOUND);
        bytes.push(TAG_END);
        assert(bytes@ =~= seq![TAG_COMPOUND, TAG_END]);
        proof {
            reveal(is_compound);
        }
        NbtCompound { bytes }
    }

    /// Takes `bytes` as a compound if they are one and nothing more.
    pub fn from_bytes(bytes: Vec<u8>) -> (r: Option<NbtCompound>)
        ensures
            r is Some <==> is_compound(bytes@),
            r matches Some(c) ==> c@ == bytes@,
    {
        proof {
            reveal(is_compound);
        }
        match compound_end_of(bytes.as_slice(), 0) {
            Some(end) => if end == bytes.len() {
                Some(NbtCompound { bytes })
            } else {
                None
            },
            None => None,
        }
    }

    /// The bytes of this compound.
    pub fn as_bytes(&self) -> (bytes: &[u8])
        ensures
            bytes@ == self@,
            is_compound(self@),
    {
        proof {
            use_type_invariant(self);
        }
        self.bytes.as_slice()
    }

    /// A compound with the same bytes.
    pub fn duplicate(&self) -> (c: NbtCompound)
        ensures
            c@ == self@,
    {
        proof {
            use_type_invariant(self);
        }
        NbtCompound { bytes: slice_to_vec(self.bytes.as_slice()) }
    }
}

impl Prot for NbtCompound {
    type Model = Seq<u8>;

    open spec fn model(&self) -> Seq<u8> {
        self@
    }

    open spec fn valid(m: Seq<u8>) -> bool {
        is_compound(m)
    }

    open spec fn encoding(m: Seq<u8>) -> Seq<u8> {
        m
    }
}

impl SizedProt for NbtCompound {
    fn is_valid(&self) -> (ok: bool) {
        proof {
            use_type_invariant(self);
        }
        true
    }

    fn prot_size(&self) -> (n: usize) {
        self.bytes.len()
    }
}

impl WriteProt for NbtCompound {
    fn write(&self, out: &mut Vec<u8>) {
        append_bytes(out, self.bytes.as_slice());
    }
}

impl ReadProt for NbtCompound {
    /// The bytes from `pos` to where the compound that starts there ends.
    open spec fn decoding(s: Seq<u8>, pos: int) -> Result<(Seq<u8>, int), CodecError> {
        match compound_end(s, pos) {
            Some(end) => Ok((s.subrange(pos, end), end)),
            None => Err(CodecError::Nbt),
        }
    }

    proof fn lemma_decoding_sound(s: Seq<u8>, pos: int) {
        reveal(is_compound);
        match compound_end(s, pos) {
            Some(end) => {
                lemma_entries_bounds(s, pos + 1, MAX_DEPTH as nat);
                let part = s.subrange(pos, end);
                lemma_entries_moves(s, pos + 1, MAX_DEPTH as nat, part, -pos, end);
            },
            None => {},
        }
    }

    proof fn lemma_round_trip(m: Seq<u8>, pre: Seq<u8>, rest: Seq<u8>) {
        reveal(is_compound);
        let s = pre + m + rest;
        lemma_entries_bounds(m, 1, MAX_DEPTH as nat);
        lemma_entries_moves(m, 1, MAX_DEPTH as nat, s, pre.len() as int, m.len() as int);
        assert(s.subrange(pre.len() as int, (pre.len() + m.len()) as int) =~= m);
    }

    fn read(src: &[u8], pos: usize) -> (r: Result<(NbtCompound, usize), CodecError>) {
        proof {
            Self::lemma_decoding_sound(src@, pos as int);
        }
        match compound_end_of(src, pos) {
            Some(end) => {
                let bytes = slice_to_vec(slice_subrange(src, pos, end));
                Ok((NbtCompound { bytes }, end))
            },
            None => Err(CodecError::Nbt),
        }
    }
}

} // verus!
