use crate::err::CodecError;
use crate::protocol_types::primitives::{append_bytes, VarInt};
use crate::protocol_types::traits::{Prot, ReadProt, SizedProt, WriteProt};
use crate::protocol_types::twos::{i32_bits, unsigned32};
use vstd::prelude::*;
use vstd::slice::{slice_subrange, slice_to_vec};
use vstd::string::StringSliceAdditionalSpecFns;
use vstd::utf8::{
    decode_utf8, decode_utf8_encode_utf8, encode_utf8, encode_utf8_decode_utf8,
    encode_utf8_valid_utf8, valid_utf8,
};

verus! {

/// The most bytes that a string may take on the wire, its prefix apart.
pub const MAX_STRING_BYTES: u32 = 32767 * 4 + 3;

/// `String::from_utf8`: the text that `bytes` spell where they are well-formed
/// UTF-8, and nothing where they are not.
#[verifier::external_body]
fn string_from_utf8(bytes: Vec<u8>) -> (r: Option<String>)
    ensures
        r is Some <==> valid_utf8(bytes@),
        r is Some ==> r->Some_0@ == decode_utf8(bytes@),
{
    match String::from_utf8(bytes) {
        Ok(text) => Some(text),
        Err(_) => None,
    }
}

/// Whether two strings hold the same text.
pub fn str_eq(a: &str, b: &str) -> (same: bool)
    ensures
        same == (a@ == b@),
{
    let x = a.as_bytes();
    let y = b.as_bytes();
    proof {
        encode_utf8_decode_utf8(a@);
        encode_utf8_decode_utf8(b@);
    }
    if x.len() != y.len() {
        return false;
    }
    let mut i: usize = 0;
    while i < x.len()
        invariant
            i <= x@.len(),
            x@.len() == y@.len(),
            x@.take(i as int) == y@.take(i as int),
            x@ != y@ ==> a@ != b@,
        decreases x@.len() - i,
    {
        if x[i] != y[i] {
            return false;
        }
        i += 1;
        assert(x@.take(i as int) =~= x@.take(i - 1).push(x@[i - 1]));
        assert(y@.take(i as int) =~= y@.take(i - 1).push(y@[i - 1]));
    }
    assert(x@ =~= x@.take(i as int));
    assert(y@ =~= y@.take(i as int));
    true
}

impl Prot for String {
    type Model = Seq<char>;

    open spec fn model(&self) -> Seq<char> {
        self@
    }

    /// A string may take up to 131071 bytes of UTF-8.
    open spec fn valid(m: Seq<char>) -> bool {
        encode_utf8(m).len() <= MAX_STRING_BYTES
    }

    /// The number of UTF-8 bytes as a VarInt, then those bytes.
    open spec fn encoding(m: Seq<char>) -> Seq<u8> {
        VarInt::encoding(VarInt { value: encode_utf8(m).len() as i32 }) + encode_utf8(m)
    }
}

impl SizedProt for String {
    fn is_valid(&self) -> (ok: bool) {
        self.as_str().as_bytes().len() <= MAX_STRING_BYTES as usize
    }

    fn prot_size(&self) -> (n: usize) {
        let len = self.as_str().as_bytes().len();
        let prefix = VarInt { value: len as i32 }.prot_size();
        prefix + len
    }
}

impl WriteProt for String {
    fn write(&self, out: &mut Vec<u8>) {
        let bytes = self.as_str().as_bytes();
        (VarInt { value: bytes.len() as i32 }).write(out);
        append_bytes(out, bytes);
        assert(out@ =~= old(out)@ + Self::encoding(self@));
    }
}

impl ReadProt for String {
    /// The announced length, read as unsigned, must not pass 131071; that many
    /// bytes must follow and be UTF-8.
    open spec fn decoding(s: Seq<u8>, pos: int) -> Result<(Seq<char>, int), CodecError> {
        match VarInt::decoding(s, pos) {
            Err(e) => Err(e),
            Ok((len, start)) => {
                let n = unsigned32(len.value);
                if n > MAX_STRING_BYTES {
                    Err(CodecError::StringTooLong)
                } else if start + n > s.len() {
                    Err(CodecError::UnexpectedEnd)
                } else if !valid_utf8(s.subrange(start, start + n)) {
                    Err(CodecError::InvalidUtf8)
                } else {
                    Ok((decode_utf8(s.subrange(start, start + n)), start + n))
                }
            },
        }
    }

    proof fn lemma_decoding_sound(s: Seq<u8>, pos: int) {
        VarInt::lemma_decoding_sound(s, pos);
        match VarInt::decoding(s, pos) {
            Ok((len, start)) => {
                let n = unsigned32(len.value);
                if n <= MAX_STRING_BYTES && start + n <= s.len() {
                    let bytes = s.subrange(start, start + n);
                    if valid_utf8(bytes) {
                        decode_utf8_encode_utf8(bytes);
                    }
                }
            },
            Err(_) => {},
        }
    }

    proof fn lemma_round_trip(m: Seq<char>, pre: Seq<u8>, rest: Seq<u8>) {
        let bytes = encode_utf8(m);
        let len = VarInt { value: bytes.len() as i32 };
        let head = VarInt::encoding(len);
        let s = pre + Self::encoding(m) + rest;
        VarInt::lemma_round_trip(len, pre, bytes + rest);
        assert(pre + head + (bytes + rest) =~= s);
        let start = (pre.len() + head.len()) as int;
        assert(s.subrange(start, start + bytes.len()) =~= bytes);
        encode_utf8_valid_utf8(m);
        encode_utf8_decode_utf8(m);
    }

    fn read(src: &[u8], pos: usize) -> (r: Result<(String, usize), CodecError>) {
        proof {
            VarInt::lemma_decoding_sound(src@, pos as int);
        }
        let (len, start) = match VarInt::read(src, pos) {
            Ok(found) => found,
            Err(e) => {
                return Err(e);
            },
        };
        let len: u32 = i32_bits(len.value);
        if len > MAX_STRING_BYTES {
            return Err(CodecError::StringTooLong);
        }
        let len = len as usize;
        if src.len() - start < len {
            return Err(CodecError::UnexpectedEnd);
        }
        let buf = slice_to_vec(slice_subrange(src, start, start + len));
        match string_from_utf8(buf) {
            Some(value) => Ok((value, start + len)),
            None => Err(CodecError::InvalidUtf8),
        }
    }
}

} // verus!
