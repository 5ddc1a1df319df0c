use crate::err::CodecError;
use vstd::prelude::*;

verus! {

/// A value with a wire format: its mathematical model, the models that the
/// format admits, and the bytes of each.
pub trait Prot {
    /// What a value is, apart from how it is held in memory.
    type Model;

    /// The model of this value.
    spec fn model(&self) -> Self::Model;

    /// Whether the format can carry `m`.
    spec fn valid(m: Self::Model) -> bool;

    /// The bytes that stand for `m` on the wire.
    spec fn encoding(m: Self::Model) -> Seq<u8>;
}

/// A value that knows how many bytes it takes on the wire.
pub trait SizedProt: Prot {
    /// Whether this value's model is one the format admits.
    fn is_valid(&self) -> (ok: bool)
        ensures
            ok == Self::valid(self.model()),
    ;

    /// The exact length of what `write` appends.
    fn prot_size(&self) -> (n: usize)
        requires
            Self::valid(self.model()),
            Self::encoding(self.model()).len() <= usize::MAX,
        ensures
            n == Self::encoding(self.model()).len(),
    ;
}

/// A value that can be appended to a buffer in its wire format.
pub trait WriteProt: Prot {
    /// Appends the encoding of this value to `out` and touches nothing else.
    fn write(&self, out: &mut Vec<u8>)
        requires
            Self::valid(self.model()),
        ensures
            final(out)@ == old(out)@ + Self::encoding(self.model()),
    ;
}

/// A value that can be decoded from a position in a byte slice.
pub trait ReadProt: Prot + Sized {
    /// What decoding at `pos` in `s` yields: the model and the position after
    /// its last byte, or the reason why there is none.
    spec fn decoding(s: Seq<u8>, pos: int) -> Result<(Self::Model, int), CodecError>;

    /// A decoded value is admitted by the format and ends inside the input,
    /// not before where it started.
    proof fn lemma_decoding_sound(s: Seq<u8>, pos: int)
        requires
            0 <= pos <= s.len(),
        ensures
            match Self::decoding(s, pos) {
                Ok((m, next)) => pos <= next <= s.len() && Self::valid(m),
                Err(_) => true,
            },
    ;

    /// Decoding the encoding of an admitted model gives that model back and
    /// consumes exactly the encoding, whatever stands before and after it.
    proof fn lemma_round_trip(m: Self::Model, pre: Seq<u8>, rest: Seq<u8>)
        requires
            Self::valid(m),
        ensures
            Self::decoding(pre + Self::encoding(m) + rest, pre.len() as int) == Ok::<
                (Self::Model, int),
                CodecError,
            >((m, (pre.len() + Self::encoding(m).len()) as int)),
    ;

    /// Decodes one value at `pos`, returning it with the position after it.
    fn read(src: &[u8], pos: usize) -> (r: Result<(Self, usize), CodecError>)
        requires
            pos <= src@.len(),
        ensures
            read_agrees::<Self>(r, Self::decoding(src@, pos as int)),
    ;
}

/// What `write` appends for an admitted value, `read` takes back: behind
/// any bytes `before`, the encoding of `m` decodes at the end of `before`
/// to `m` again and reaches exactly the end of the buffer.
pub proof fn lemma_read_after_write<T: ReadProt>(m: T::Model, before: Seq<u8>)
    requires
        T::valid(m),
    ensures
        T::decoding(before + T::encoding(m), before.len() as int) == Ok::<
            (T::Model, int),
            CodecError,
        >((m, (before + T::encoding(m)).len() as int)),
{
    T::lemma_round_trip(m, before, Seq::empty());
    assert(before + T::encoding(m) + Seq::<u8>::empty() =~= before + T::encoding(m));
}

/// A packet that the server sends: it knows its id.
pub trait ClientPacket: SizedProt + WriteProt {
    /// The id under which the packet travels.
    spec fn spec_id() -> u8;

    /// The id under which the packet travels.
    fn id() -> (id: u8)
        ensures
            id == Self::spec_id(),
    ;
}

/// A packet that a client sends: it knows its id.
pub trait ServerPacket: SizedProt + ReadProt {
    /// The id under which the packet travels.
    spec fn spec_id() -> u8;

    /// The id under which the packet travels.
    fn id() -> (id: u8)
        ensures
            id == Self::spec_id(),
    ;
}

/// Joining byte sequences does not depend on how they are grouped.
pub proof fn lemma_concat_assoc(a: Seq<u8>, b: Seq<u8>, c: Seq<u8>)
    ensures
        (a + b) + c == a + (b + c),
{
    assert((a + b) + c =~= a + (b + c));
}

/// An executable result says what the specification says: the same error,
/// or a value with the decoded model and the same next position.
pub open spec fn read_agrees<T: Prot>(
    r: Result<(T, usize), CodecError>,
    d: Result<(T::Model, int), CodecError>,
) -> bool {
    match d {
        Ok((m, next)) => r is Ok && r->Ok_0.0.model() == m && r->Ok_0.1 == next,
        Err(e) => r == Err::<(T, usize), CodecError>(e),
    }
}

} // verus!
