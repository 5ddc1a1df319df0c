use crate::err::CodecError;
use crate::protocol_types::primitives::VarInt;
use crate::protocol_types::traits::{read_agrees, Prot, ReadProt, SizedProt, WriteProt};
use vstd::prelude::*;

verus! {

/// A sequence that travels behind its element count.
#[derive(Debug)]
pub struct SizedVec<T> {
    pub vec: Vec<T>,
}

impl<T> From<Vec<T>> for SizedVec<T> {
    fn from(value: Vec<T>) -> (s: SizedVec<T>) {
        SizedVec { vec: value }
    }
}

impl<T> vstd::std_specs::convert::FromSpecImpl<Vec<T>> for SizedVec<T> {
    open spec fn obeys_from_spec() -> bool {
        true
    }

    open spec fn from_spec(value: Vec<T>) -> SizedVec<T> {
        SizedVec { vec: value }
    }
}

/// The models of the items of `v`, in order.
pub open spec fn models<T: Prot>(v: Seq<T>) -> Seq<T::Model> {
    Seq::new(v.len(), |i: int| v[i].model())
}

/// Whether the format admits every model in `m`.
pub open spec fn all_valid<T: Prot>(m: Seq<T::Model>) -> bool {
    forall|i: int| 0 <= i < m.len() ==> T::valid(#[trigger] m[i])
}

/// The encodings of the models in `m`, one after the other.
pub open spec fn items_encoding<T: Prot>(m: Seq<T::Model>) -> Seq<u8>
    decreases m.len(),
{
    if m.len() == 0 {
        Seq::empty()
    } else {
        items_encoding::<T>(m.drop_last()) + T::encoding(m.last())
    }
}

/// What decoding `count` items in a row from `pos` yields: the first error
/// met, or the models and the position after the last.
pub open spec fn items_decoding<T: ReadProt>(s: Seq<u8>, pos: int, count: nat) -> Result<
    (Seq<T::Model>, int),
    CodecError,
>
    decreases count,
{
    if count == 0 {
        Ok((Seq::empty(), pos))
    } else {
        match items_decoding::<T>(s, pos, (count - 1) as nat) {
            Err(e) => Err(e),
            Ok((items, at)) => match T::decoding(s, at) {
                Err(e) => Err(e),
                Ok((m, next)) => Ok((items.push(m), next)),
            },
        }
    }
}

/// An error met after `i` items is the error of every longer run.
pub proof fn lemma_items_error_stays<T: ReadProt>(s: Seq<u8>, pos: int, i: nat, count: nat)
    requires
        i <= count,
        items_decoding::<T>(s, pos, i) is Err,
    ensures
        items_decoding::<T>(s, pos, count) == items_decoding::<T>(s, pos, i),
    decreases count,
{
    if i < count {
        lemma_items_error_stays::<T>(s, pos, i, (count - 1) as nat);
    }
}

/// Decoded items are admitted, as many as asked for, and end inside the input.
pub proof fn lemma_items_sound<T: ReadProt>(s: Seq<u8>, pos: int, count: nat)
    requires
        0 <= pos <= s.len(),
    ensures
        match items_decoding::<T>(s, pos, count) {
            Ok((items, next)) => pos <= next <= s.len() && items.len() == count && all_valid::<T>(
                items,
            ),
            Err(_) => true,
        },
    decreases count,
{
    if count > 0 {
        lemma_items_sound::<T>(s, pos, (count - 1) as nat);
        match items_decoding::<T>(s, pos, (count - 1) as nat) {
            Ok((items, at)) => {
                T::lemma_decoding_sound(s, at);
            },
            Err(_) => {},
        }
    }
}

/// The encodings of a prefix are a prefix of the encodings.
pub proof fn lemma_items_prefix<T: Prot>(m: Seq<T::Model>, i: int)
    requires
        0 <= i <= m.len(),
    ensures
        items_encoding::<T>(m.take(i)).len() <= items_encoding::<T>(m).len(),
        i < m.len() ==> items_encoding::<T>(m.take(i + 1)) == items_encoding::<T>(m.take(i))
            + T::encoding(m[i]),
    decreases m.len() - i,
{
    if i < m.len() {
        assert(m.take(i + 1).drop_last() =~= m.take(i));
        lemma_items_prefix::<T>(m, i + 1);
    } else {
        assert(m.take(i) =~= m);
    }
}

/// Decoding the encodings of admitted models gives them back.
pub proof fn lemma_items_round_trip<T: ReadProt>(m: Seq<T::Model>, pre: Seq<u8>, rest: Seq<u8>)
    requires
        all_valid::<T>(m),
    ensures
        items_decoding::<T>(pre + items_encoding::<T>(m) + rest, pre.len() as int, m.len())
            == Ok::<(Seq<T::Model>, int), CodecError>(
            (m, (pre.len() + items_encoding::<T>(m).len()) as int),
        ),
    decreases m.len(),
{
    let s = pre + items_encoding::<T>(m) + rest;
    if m.len() > 0 {
        let front = m.drop_last();
        let last = T::encoding(m.last());
        lemma_items_round_trip::<T>(front, pre, last + rest);
        assert(pre + items_encoding::<T>(front) + (last + rest) =~= s);
        T::lemma_round_trip(m.last(), pre + items_encoding::<T>(front), rest);
        assert(pre + items_encoding::<T>(front) + last + rest =~= s);
        assert(front.push(m.last()) =~= m);
        assert((pre + items_encoding::<T>(front)).len() + last.len() == pre.len()
            + items_encoding::<T>(m).len());
    } else {
        assert(m =~= Seq::empty());
    }
}

impl<T: Prot> Prot for SizedVec<T> {
    type Model = Seq<T::Model>;

    open spec fn model(&self) -> Seq<T::Model> {
        models(self.vec@)
    }

    /// The count must fit a non-negative VarInt and the format must admit
    /// every item.
    open spec fn valid(m: Seq<T::Model>) -> bool {
        m.len() <= i32::MAX && all_valid::<T>(m)
    }

    /// The number of items as a VarInt, then the items.
    open spec fn encoding(m: Seq<T::Model>) -> Seq<u8> {
        VarInt::encoding(VarInt { value: m.len() as i32 }) + items_encoding::<T>(m)
    }
}

impl<T: SizedProt> SizedProt for SizedVec<T> {
    fn is_valid(&self) -> (ok: bool) {
        if self.vec.len() > i32::MAX as usize {
            return false;
        }
        let mut i: usize = 0;
        while i < self.vec.len()
            invariant
                i <= self.vec@.len(),
                forall|j: int| 0 <= j < i ==> T::valid(#[trigger] self.model()[j]),
            decreases self.vec@.len() - i,
        {
            if !self.vec[i].is_valid() {
                assert(!T::valid(self.model()[i as int]));
                return false;
            }
            i += 1;
        }
        true
    }

    fn prot_size(&self) -> (n: usize) {
        let ghost m = self.model();
        let mut total: usize = VarInt { value: self.vec.len() as i32 }.prot_size();
        let mut i: usize = 0;
        proof {
            assert(m.take(0) =~= Seq::<T::Model>::empty());
        }
        while i < self.vec.len()
            invariant
                i <= self.vec@.len(),
                m == self.model(),
                Self::valid(m),
                Self::encoding(m).len() <= usize::MAX,
                total == VarInt::encoding(VarInt { value: m.len() as i32 }).len()
                    + items_encoding::<T>(m.take(i as int)).len(),
            decreases self.vec@.len() - i,
        {
            proof {
                lemma_items_prefix::<T>(m, i as int);
                lemma_items_prefix::<T>(m, i + 1);
                assert(T::valid(m[i as int]));
            }
            total += self.vec[i].prot_size();
            i += 1;
        }
        proof {
            assert(m.take(i as int) =~= m);
        }
        total
    }
}

/// Appends the number of `items` and then each of them to `out`.
pub fn write_items<T: WriteProt>(items: &Vec<T>, out: &mut Vec<u8>)
    requires
        SizedVec::<T>::valid(models(items@)),
    ensures
        final(out)@ == old(out)@ + SizedVec::<T>::encoding(models(items@)),
{
    let ghost m = models(items@);
    (VarInt { value: items.len() as i32 }).write(out);
    let mut i: usize = 0;
    proof {
        assert(m.take(0) =~= Seq::<T::Model>::empty());
    }
    while i < items.len()
        invariant
            i <= items@.len(),
            m == models(items@),
            SizedVec::<T>::valid(m),
            out@ == old(out)@ + VarInt::encoding(VarInt { value: m.len() as i32 })
                + items_encoding::<T>(m.take(i as int)),
        decreases items@.len() - i,
    {
        proof {
            lemma_items_prefix::<T>(m, i as int);
            assert(T::valid(m[i as int]));
        }
        items[i].write(out);
        i += 1;
        assert(out@ =~= old(out)@ + VarInt::encoding(VarInt { value: m.len() as i32 })
            + items_encoding::<T>(m.take(i as int)));
    }
    proof {
        assert(m.take(i as int) =~= m);
        assert(out@ =~= old(out)@ + SizedVec::<T>::encoding(m));
    }
}

impl<T: WriteProt> WriteProt for SizedVec<T> {
    fn write(&self, out: &mut Vec<u8>) {
        write_items(&self.vec, out);
    }
}

impl<T: ReadProt> ReadProt for SizedVec<T> {
    /// A count that must not be negative, then that many items.
    open spec fn decoding(s: Seq<u8>, pos: int) -> Result<(Seq<T::Model>, int), CodecError> {
        match VarInt::decoding(s, pos) {
            Err(e) => Err(e),
            Ok((count, start)) => if count.value < 0 {
                Err(CodecError::NegativeLength)
            } else {
                items_decoding::<T>(s, start, count.value as nat)
            },
        }
    }

    proof fn lemma_decoding_sound(s: Seq<u8>, pos: int) {
        VarInt::lemma_decoding_sound(s, pos);
        match VarInt::decoding(s, pos) {
            Ok((count, start)) => {
                if count.value >= 0 {
                    lemma_items_sound::<T>(s, start, count.value as nat);
                }
            },
            Err(_) => {},
        }
    }

    proof fn lemma_round_trip(m: Seq<T::Model>, pre: Seq<u8>, rest: Seq<u8>) {
        let count = VarInt { value: m.len() as i32 };
        let head = VarInt::encoding(count);
        let s = pre + Self::encoding(m) + rest;
        VarInt::lemma_round_trip(count, pre, items_encoding::<T>(m) + rest);
        assert(pre + head + (items_encoding::<T>(m) + rest) =~= s);
        lemma_items_round_trip::<T>(m, pre + head, rest);
        assert(pre + head + items_encoding::<T>(m) + rest =~= s);
    }

    fn read(src: &[u8], pos: usize) -> (r: Result<(SizedVec<T>, usize), CodecError>) {
        proof {
            VarInt::lemma_decoding_sound(src@, pos as int);
        }
        let (count, start) = match VarInt::read(src, pos) {
            Ok(found) => found,
            Err(e) => {
                return Err(e);
            },
        };
        if count.value < 0 {
            return Err(CodecError::NegativeLength);
        }
        let ghost whole = Self::decoding(src@, pos as int);
        let count = count.value as usize;
        let mut buf: Vec<T> = Vec::new();
        let mut at: usize = start;
        let mut i: usize = 0;
        proof {
            assert(models(buf@) =~= Seq::<T::Model>::empty());
        }
        while i < count
            invariant
                i <= count,
                start <= src@.len(),
                whole == Self::decoding(src@, pos as int),
                whole == items_decoding::<T>(src@, start as int, count as nat),
                buf@.len() == i,
                items_decoding::<T>(src@, start as int, i as nat) == Ok::<
                    (Seq<T::Model>, int),
                    CodecError,
                >((models(buf@), at as int)),
                at <= src@.len(),
            decreases count - i,
        {
            let ghost before = models(buf@);
            proof {
                T::lemma_decoding_sound(src@, at as int);
            }
            match T::read(src, at) {
                Ok((item, next)) => {
                    buf.push(item);
                    at = next;
                    assert(models(buf@) =~= before.push(item.model()));
                },
                Err(e) => {
                    proof {
                        assert(items_decoding::<T>(src@, start as int, (i + 1) as nat) == Err::<
                            (Seq<T::Model>, int),
                            CodecError,
                        >(e));
                        lemma_items_error_stays::<T>(
                            src@,
                            start as int,
                            (i + 1) as nat,
                            count as nat,
                        );
                    }
                    return Err(e);
                },
            }
            i += 1;
        }
        assert(whole == Self::decoding(src@, pos as int));
        Ok((SizedVec { vec: buf }, at))
    }
}

impl<T: Prot> Prot for Option<T> {
    type Model = Option<T::Model>;

    open spec fn model(&self) -> Option<T::Model> {
        match self {
            Some(x) => Some(x.model()),
            None => None,
        }
    }

    open spec fn valid(m: Option<T::Model>) -> bool {
        match m {
            Some(x) => T::valid(x),
            None => true,
        }
    }

    /// Nothing where the value is absent, the value's own bytes where it is
    /// there: the record around it says which.
    open spec fn encoding(m: Option<T::Model>) -> Seq<u8> {
        match m {
            Some(x) => T::encoding(x),
            None => Seq::empty(),
        }
    }
}

impl<T: SizedProt> SizedProt for Option<T> {
    fn is_valid(&self) -> (ok: bool) {
        match self {
            Some(x) => x.is_valid(),
            None => true,
        }
    }

    fn prot_size(&self) -> (n: usize) {
        match self {
            Some(x) => x.prot_size(),
            None => 0,
        }
    }
}

impl<T: WriteProt> WriteProt for Option<T> {
    fn write(&self, out: &mut Vec<u8>) {
        match self {
            Some(x) => {
                x.write(out);
            },
            None => {
                assert(out@ =~= old(out)@ + Seq::<u8>::empty());
            },
        }
    }
}

/// What decoding a value that is there only if `present` yields at `pos`.
pub open spec fn optional_decoding<T: ReadProt>(present: bool, s: Seq<u8>, pos: int) -> Result<
    (Option<T::Model>, int),
    CodecError,
> {
    if present {
        match T::decoding(s, pos) {
            Ok((m, next)) => Ok((Some(m), next)),
            Err(e) => Err(e),
        }
    } else {
        Ok((None, pos))
    }
}

/// A decoded optional value is there exactly if it was to be, is admitted,
/// and ends inside the input.
pub proof fn lemma_optional_sound<T: ReadProt>(present: bool, s: Seq<u8>, pos: int)
    requires
        0 <= pos <= s.len(),
    ensures
        match optional_decoding::<T>(present, s, pos) {
            Ok((m, next)) => pos <= next <= s.len() && Option::<T>::valid(m) && (m is Some
                <==> present),
            Err(_) => true,
        },
{
    if present {
        T::lemma_decoding_sound(s, pos);
    }
}

/// Decoding the encoding of an admitted optional value gives it back.
pub proof fn lemma_optional_round_trip<T: ReadProt>(
    m: Option<T::Model>,
    pre: Seq<u8>,
    rest: Seq<u8>,
)
    requires
        Option::<T>::valid(m),
    ensures
        optional_decoding::<T>(
            m is Some,
            pre + Option::<T>::encoding(m) + rest,
            pre.len() as int,
        ) == Ok::<(Option<T::Model>, int), CodecError>(
            (m, (pre.len() + Option::<T>::encoding(m).len()) as int),
        ),
{
    match m {
        Some(x) => {
            T::lemma_round_trip(x, pre, rest);
        },
        None => {},
    }
}

/// Decodes a value at `pos` if `present`, and nothing if not.
pub fn read_optional<T: ReadProt>(present: bool, src: &[u8], pos: usize) -> (r: Result<
    (Option<T>, usize),
    CodecError,
>)
    requires
        pos <= src@.len(),
    ensures
        read_agrees::<Option<T>>(r, optional_decoding::<T>(present, src@, pos as int)),
{
    if present {
        match T::read(src, pos) {
            Ok((value, next)) => Ok((Some(value), next)),
            Err(e) => Err(e),
        }
    } else {
        Ok((None, pos))
    }
}

} // verus!
