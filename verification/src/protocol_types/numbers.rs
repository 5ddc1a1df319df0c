use crate::err::CodecError;
use crate::protocol_types::endian::{
    be_bytes, be_decode, lemma_be_bytes_len, lemma_be_decode_sound, lemma_be_round_trip, pow256,
};
use crate::protocol_types::primitives::{
    append_bytes, read_be, u16tou8abe, u32tou8abe, u64tou8abe,
};
use crate::protocol_types::traits::{Prot, ReadProt, SizedProt, WriteProt};
use crate::protocol_types::twos::{
    i16_bits, i32_bits, i64_bits, signed16, signed32, signed64, u16_bits, u32_bits, u64_bits,
    unsigned16, unsigned32, unsigned64,
};
use vstd::prelude::*;

verus! {

/// A 32-bit IEEE 754 number, held as its bit pattern.
#[derive(Clone, Copy, Debug, PartialEq, Eq, Structural)]
pub struct Float {
    pub bits: u32,
}

/// A 64-bit IEEE 754 number, held as its bit pattern.
#[derive(Clone, Copy, Debug, PartialEq, Eq, Structural)]
pub struct Double {
    pub bits: u64,
}

impl Prot for u8 {
    type Model = u8;

    open spec fn model(&self) -> u8 {
        *self
    }

    open spec fn valid(m: u8) -> bool {
        true
    }

    open spec fn encoding(m: u8) -> Seq<u8> {
        seq![m]
    }
}

impl SizedProt for u8 {
    fn is_valid(&self) -> (ok: bool) {
        true
    }

    fn prot_size(&self) -> (n: usize) {
        1
    }
}

impl WriteProt for u8 {
    fn write(&self, out: &mut Vec<u8>) {
        out.push(*self);
        assert(out@ =~= old(out)@ + seq![*self]);
    }
}

impl ReadProt for u8 {
    open spec fn decoding(s: Seq<u8>, pos: int) -> Result<(u8, int), CodecError> {
        if 0 <= pos < s.len() {
            Ok((s[pos], pos + 1))
        } else {
            Err(CodecError::UnexpectedEnd)
        }
    }

    proof fn lemma_decoding_sound(s: Seq<u8>, pos: int) {
    }

    proof fn lemma_round_trip(m: u8, pre: Seq<u8>, rest: Seq<u8>) {
    }

    fn read(src: &[u8], pos: usize) -> (r: Result<(u8, usize), CodecError>) {
        if pos < src.len() {
            Ok((src[pos], pos + 1))
        } else {
            Err(CodecError::UnexpectedEnd)
        }
    }
}

impl Prot for bool {
    type Model = bool;

    open spec fn model(&self) -> bool {
        *self
    }

    open spec fn valid(m: bool) -> bool {
        true
    }

    /// One byte: 1 for true, 0 for false.
    open spec fn encoding(m: bool) -> Seq<u8> {
        seq![if m { 1u8 } else { 0u8 }]
    }
}

impl SizedProt for bool {
    fn is_valid(&self) -> (ok: bool) {
        true
    }

    fn prot_size(&self) -> (n: usize) {
        1
    }
}

impl WriteProt for bool {
    fn write(&self, out: &mut Vec<u8>) {
        let byte: u8 = if *self { 0x01 } else { 0x00 };
        out.push(byte);
        assert(out@ =~= old(out)@ + seq![byte]);
    }
}

impl ReadProt for bool {
    /// A byte that is 1 reads as true, any other byte as false.
    open spec fn decoding(s: Seq<u8>, pos: int) -> Result<(bool, int), CodecError> {
        if 0 <= pos < s.len() {
            Ok((s[pos] == 1, pos + 1))
        } else {
            Err(CodecError::UnexpectedEnd)
        }
    }

    proof fn lemma_decoding_sound(s: Seq<u8>, pos: int) {
    }

    proof fn lemma_round_trip(m: bool, pre: Seq<u8>, rest: Seq<u8>) {
    }

    fn read(src: &[u8], pos: usize) -> (r: Result<(bool, usize), CodecError>) {
        match u8::read(src, pos) {
            Ok((byte, next)) => Ok((byte == 0x01, next)),
            Err(e) => Err(e),
        }
    }
}

impl Prot for u16 {
    type Model = u16;

    open spec fn model(&self) -> u16 {
        *self
    }

    open spec fn valid(m: u16) -> bool {
        true
    }

    open spec fn encoding(m: u16) -> Seq<u8> {
        be_bytes(m as nat, 2)
    }
}

impl SizedProt for u16 {
    fn is_valid(&self) -> (ok: bool) {
        true
    }

    fn prot_size(&self) -> (n: usize) {
        proof {
            lemma_be_bytes_len(*self as nat, 2);
        }
        2
    }
}

impl WriteProt for u16 {
    fn write(&self, out: &mut Vec<u8>) {
        let data = u16tou8abe(*self);
        append_bytes(out, data.as_slice());
    }
}

impl ReadProt for u16 {
    open spec fn decoding(s: Seq<u8>, pos: int) -> Result<(u16, int), CodecError> {
        match be_decode(s, pos, 2) {
            Ok((x, next)) => Ok((x as u16, next)),
            Err(e) => Err(e),
        }
    }

    proof fn lemma_decoding_sound(s: Seq<u8>, pos: int) {
        lemma_be_decode_sound(s, pos, 2);
    }

    proof fn lemma_round_trip(m: u16, pre: Seq<u8>, rest: Seq<u8>) {
        reveal_with_fuel(pow256, 3);
        lemma_be_round_trip(m as nat, 2, pre, rest);
    }

    fn read(src: &[u8], pos: usize) -> (r: Result<(u16, usize), CodecError>) {
        proof {
            reveal_with_fuel(pow256, 3);
        }
        match read_be(src, pos, 2) {
            Ok((x, next)) => Ok((x as u16, next)),
            Err(e) => Err(e),
        }
    }
}

impl Prot for i16 {
    type Model = i16;

    open spec fn model(&self) -> i16 {
        *self
    }

    open spec fn valid(m: i16) -> bool {
        true
    }

    open spec fn encoding(m: i16) -> Seq<u8> {
        be_bytes(unsigned16(m), 2)
    }
}

impl SizedProt for i16 {
    fn is_valid(&self) -> (ok: bool) {
        true
    }

    fn prot_size(&self) -> (n: usize) {
        proof {
            lemma_be_bytes_len(unsigned16(*self), 2);
        }
        2
    }
}

impl WriteProt for i16 {
    fn write(&self, out: &mut Vec<u8>) {
        let data = u16tou8abe(i16_bits(*self));
        append_bytes(out, data.as_slice());
    }
}

impl ReadProt for i16 {
    open spec fn decoding(s: Seq<u8>, pos: int) -> Result<(i16, int), CodecError> {
        match be_decode(s, pos, 2) {
            Ok((x, next)) => Ok((signed16(x), next)),
            Err(e) => Err(e),
        }
    }

    proof fn lemma_decoding_sound(s: Seq<u8>, pos: int) {
        lemma_be_decode_sound(s, pos, 2);
    }

    proof fn lemma_round_trip(m: i16, pre: Seq<u8>, rest: Seq<u8>) {
        reveal_with_fuel(pow256, 3);
        lemma_be_round_trip(unsigned16(m), 2, pre, rest);
    }

    fn read(src: &[u8], pos: usize) -> (r: Result<(i16, usize), CodecError>) {
        proof {
            reveal_with_fuel(pow256, 3);
        }
        match read_be(src, pos, 2) {
            Ok((x, next)) => Ok((u16_bits(x as u16), next)),
            Err(e) => Err(e),
        }
    }
}

impl Prot for i32 {
    type Model = i32;

    open spec fn model(&self) -> i32 {
        *self
    }

    open spec fn valid(m: i32) -> bool {
        true
    }

    open spec fn encoding(m: i32) -> Seq<u8> {
        be_bytes(unsigned32(m), 4)
    }
}

impl SizedProt for i32 {
    fn is_valid(&self) -> (ok: bool) {
        true
    }

    fn prot_size(&self) -> (n: usize) {
        proof {
            lemma_be_bytes_len(unsigned32(*self), 4);
        }
        4
    }
}

impl WriteProt for i32 {
    fn write(&self, out: &mut Vec<u8>) {
        let data = u32tou8abe(i32_bits(*self));
        append_bytes(out, data.as_slice());
    }
}

impl ReadProt for i32 {
    open spec fn decoding(s: Seq<u8>, pos: int) -> Result<(i32, int), CodecError> {
        match be_decode(s, pos, 4) {
            Ok((x, next)) => Ok((signed32(x), next)),
            Err(e) => Err(e),
        }
    }

    proof fn lemma_decoding_sound(s: Seq<u8>, pos: int) {
        lemma_be_decode_sound(s, pos, 4);
    }

    proof fn lemma_round_trip(m: i32, pre: Seq<u8>, rest: Seq<u8>) {
        reveal_with_fuel(pow256, 5);
        lemma_be_round_trip(unsigned32(m), 4, pre, rest);
    }

    fn read(src: &[u8], pos: usize) -> (r: Result<(i32, usize), CodecError>) {
        proof {
            reveal_with_fuel(pow256, 5);
        }
        match read_be(src, pos, 4) {
            Ok((x, next)) => Ok((u32_bits(x as u32), next)),
            Err(e) => Err(e),
        }
    }
}

impl Prot for i64 {
    type Model = i64;

    open spec fn model(&self) -> i64 {
        *self
    }

    open spec fn valid(m: i64) -> bool {
        true
    }

    open spec fn encoding(m: i64) -> Seq<u8> {
        be_bytes(unsigned64(m), 8)
    }
}

impl SizedProt for i64 {
    fn is_valid(&self) -> (ok: bool) {
        true
    }

    fn prot_size(&self) -> (n: usize) {
        proof {
            lemma_be_bytes_len(unsigned64(*self), 8);
        }
        8
    }
}

impl WriteProt for i64 {
    fn write(&self, out: &mut Vec<u8>) {
        let data = u64tou8abe(i64_bits(*self));
        append_bytes(out, data.as_slice());
    }
}

impl ReadProt for i64 {
    open spec fn decoding(s: Seq<u8>, pos: int) -> Result<(i64, int), CodecError> {
        match be_decode(s, pos, 8) {
            Ok((x, next)) => Ok((signed64(x), next)),
            Err(e) => Err(e),
        }
    }

    proof fn lemma_decoding_sound(s: Seq<u8>, pos: int) {
        lemma_be_decode_sound(s, pos, 8);
    }

    proof fn lemma_round_trip(m: i64, pre: Seq<u8>, rest: Seq<u8>) {
        reveal_with_fuel(pow256, 9);
        lemma_be_round_trip(unsigned64(m), 8, pre, rest);
    }

    fn read(src: &[u8], pos: usize) -> (r: Result<(i64, usize), CodecError>) {
        proof {
            reveal_with_fuel(pow256, 9);
        }
        match read_be(src, pos, 8) {
            Ok((x, next)) => Ok((u64_bits(x), next)),
            Err(e) => Err(e),
        }
    }
}

impl Prot for u64 {
    type Model = u64;

    open spec fn model(&self) -> u64 {
        *self
    }

    open spec fn valid(m: u64) -> bool {
        true
    }

    open spec fn encoding(m: u64) -> Seq<u8> {
        be_bytes(m as nat, 8)
    }
}

impl SizedProt for u64 {
    fn is_valid(&self) -> (ok: bool) {
        true
    }

    fn prot_size(&self) -> (n: usize) {
        proof {
            lemma_be_bytes_len(*self as nat, 8);
        }
        8
    }
}

impl WriteProt for u64 {
    fn write(&self, out: &mut Vec<u8>) {
        let data = u64tou8abe(*self);
        append_bytes(out, data.as_slice());
    }
}

impl ReadProt for u64 {
    open spec fn decoding(s: Seq<u8>, pos: int) -> Result<(u64, int), CodecError> {
        match be_decode(s, pos, 8) {
            Ok((x, next)) => Ok((x as u64, next)),
            Err(e) => Err(e),
        }
    }

    proof fn lemma_decoding_sound(s: Seq<u8>, pos: int) {
        lemma_be_decode_sound(s, pos, 8);
    }

    proof fn lemma_round_trip(m: u64, pre: Seq<u8>, rest: Seq<u8>) {
        reveal_with_fuel(pow256, 9);
        lemma_be_round_trip(m as nat, 8, pre, rest);
    }

    fn read(src: &[u8], pos: usize) -> (r: Result<(u64, usize), CodecError>) {
        proof {
            reveal_with_fuel(pow256, 9);
        }
        match read_be(src, pos, 8) {
            Ok((x, next)) => Ok((x, next)),
            Err(e) => Err(e),
        }
    }
}

impl Prot for Float {
    type Model = Float;

    open spec fn model(&self) -> Float {
        *self
    }

    open spec fn valid(m: Float) -> bool {
        true
    }

    open spec fn encoding(m: Float) -> Seq<u8> {
        be_bytes(m.bits as nat, 4)
    }
}

impl SizedProt for Float {
    fn is_valid(&self) -> (ok: bool) {
        true
    }

    fn prot_size(&self) -> (n: usize) {
        proof {
            lemma_be_bytes_len(self.bits as nat, 4);
        }
        4
    }
}

impl WriteProt for Float {
    fn write(&self, out: &mut Vec<u8>) {
        let data = u32tou8abe(self.bits);
        append_bytes(out, data.as_slice());
    }
}

impl ReadProt for Float {
    open spec fn decoding(s: Seq<u8>, pos: int) -> Result<(Float, int), CodecError> {
        match be_decode(s, pos, 4) {
            Ok((x, next)) => Ok((Float { bits: x as u32 }, next)),
            Err(e) => Err(e),
        }
    }

    proof fn lemma_decoding_sound(s: Seq<u8>, pos: int) {
        lemma_be_decode_sound(s, pos, 4);
    }

    proof fn lemma_round_trip(m: Float, pre: Seq<u8>, rest: Seq<u8>) {
        reveal_with_fuel(pow256, 5);
        lemma_be_round_trip(m.bits as nat, 4, pre, rest);
    }

    fn read(src: &[u8], pos: usize) -> (r: Result<(Float, usize), CodecError>) {
        proof {
            reveal_with_fuel(pow256, 5);
        }
        match read_be(src, pos, 4) {
            Ok((x, next)) => Ok((Float { bits: x as u32 }, next)),
            Err(e) => Err(e),
        }
    }
}

impl Prot for Double {
    type Model = Double;

    open spec fn model(&self) -> Double {
        *self
    }

    open spec fn valid(m: Double) -> bool {
        true
    }

    open spec fn encoding(m: Double) -> Seq<u8> {
        be_bytes(m.bits as nat, 8)
    }
}

impl SizedProt for Double {
    fn is_valid(&self) -> (ok: bool) {
        true
    }

    fn prot_size(&self) -> (n: usize) {
        proof {
            lemma_be_bytes_len(self.bits as nat, 8);
        }
        8
    }
}

impl WriteProt for Double {
    fn write(&self, out: &mut Vec<u8>) {
        let data = u64tou8abe(self.bits);
        append_bytes(out, data.as_slice());
    }
}

impl ReadProt for Double {
    open spec fn decoding(s: Seq<u8>, pos: int) -> Result<(Double, int), CodecError> {
        match be_decode(s, pos, 8) {
            Ok((x, next)) => Ok((Double { bits: x as u64 }, next)),
            Err(e) => Err(e),
        }
    }

    proof fn lemma_decoding_sound(s: Seq<u8>, pos: int) {
        lemma_be_decode_sound(s, pos, 8);
    }

    proof fn lemma_round_trip(m: Double, pre: Seq<u8>, rest: Seq<u8>) {
        reveal_with_fuel(pow256, 9);
        lemma_be_round_trip(m.bits as nat, 8, pre, rest);
    }

    fn read(src: &[u8], pos: usize) -> (r: Result<(Double, usize), CodecError>) {
        proof {
            reveal_with_fuel(pow256, 9);
        }
        match read_be(src, pos, 8) {
            Ok((x, next)) => Ok((Double { bits: x }, next)),
            Err(e) => Err(e),
        }
    }
}

} // verus!
