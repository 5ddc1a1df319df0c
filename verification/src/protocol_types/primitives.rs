use crate::err::CodecError;
use crate::protocol_types::endian::{be_bytes, be_decode, be_value, pow256};
use crate::protocol_types::traits::{Prot, ReadProt, SizedProt, WriteProt};
use crate::protocol_types::twos::{
    i32_bits, i64_bits, signed32, signed64, u32_bits, u64_bits, unsigned32, unsigned64,
};
use crate::protocol_types::varint::{
    lemma_pow128_is_pow2, lemma_var_bytes_len, lemma_var_decode_step, lemma_var_round_trip,
    lemma_var_decode_bounds, pow128, var_bytes, var_decode, var_resume,
};
use vstd::arithmetic::power2::{lemma2_to64, lemma2_to64_rest, pow2};
use vstd::bits::lemma_u64_shl_is_mul;
use vstd::prelude::*;

verus! {

pub const SEGMENT_BITS: u8 = 0x7f;

pub const CONTINUE_BIT: u8 = 0x80;

/// A signed 32-bit number that travels in one to five bytes.
#[derive(Clone, Copy, Debug, PartialEq, Eq, Structural)]
pub struct VarInt {
    pub value: i32,
}

/// A signed 64-bit number that travels in one to ten bytes.
#[derive(Clone, Copy, Debug, PartialEq, Eq, Structural)]
pub struct VarLong {
    pub value: i64,
}

impl From<i32> for VarInt {
    fn from(value: i32) -> (v: VarInt) {
        VarInt { value }
    }
}

impl vstd::std_specs::convert::FromSpecImpl<i32> for VarInt {
    open spec fn obeys_from_spec() -> bool {
        true
    }

    open spec fn from_spec(value: i32) -> VarInt {
        VarInt { value }
    }
}

impl From<usize> for VarInt {
    /// The low 32 bits of `value`, read as a signed number.
    fn from(value: usize) -> (v: VarInt) {
        let low = #[verifier::truncate] ((value as u64) as u32);
        proof {
            lemma_low32(value as u64);
        }
        VarInt { value: u32_bits(low) }
    }
}

impl vstd::std_specs::convert::FromSpecImpl<usize> for VarInt {
    open spec fn obeys_from_spec() -> bool {
        true
    }

    open spec fn from_spec(value: usize) -> VarInt {
        VarInt { value: signed32(((value as int) % 0x1_0000_0000) as nat) }
    }
}

impl From<i64> for VarLong {
    fn from(value: i64) -> (v: VarLong) {
        VarLong { value }
    }
}

impl vstd::std_specs::convert::FromSpecImpl<i64> for VarLong {
    open spec fn obeys_from_spec() -> bool {
        true
    }

    open spec fn from_spec(value: i64) -> VarLong {
        VarLong { value }
    }
}

impl Prot for VarInt {
    type Model = VarInt;

    open spec fn model(&self) -> VarInt {
        *self
    }

    open spec fn valid(m: VarInt) -> bool {
        true
    }

    open spec fn encoding(m: VarInt) -> Seq<u8> {
        var_bytes(unsigned32(m.value))
    }
}

impl Prot for VarLong {
    type Model = VarLong;

    open spec fn model(&self) -> VarLong {
        *self
    }

    open spec fn valid(m: VarLong) -> bool {
        true
    }

    open spec fn encoding(m: VarLong) -> Seq<u8> {
        var_bytes(unsigned64(m.value))
    }
}

/// Splitting off the low seven bits is division by 128.
proof fn lemma_group(x: u64)
    by (bit_vector)
    ensures
        x & 0x7f == x % 128,
        x >> 7 == x / 128,
        (x & 0x7f) | 0x80 == 128 + x % 128,
{
}

/// Appends the 7-bit groups of `x`, low group first.
fn write_var(x: u64, out: &mut Vec<u8>)
    ensures
        final(out)@ == old(out)@ + var_bytes(x as nat),
{
    let mut x = x;
    let ghost start = out@;
    let ghost whole = x;
    loop
        invariant_except_break
            start + var_bytes(whole as nat) == out@ + var_bytes(x as nat),
        ensures
            out@ == start + var_bytes(whole as nat),
        decreases x,
    {
        let ghost before = x;
        let ghost sofar = out@;
        let mut temp: u8 = (x & 0x7f) as u8;
        proof {
            lemma_group(x);
        }
        x >>= 7;
        if x != 0 {
            temp |= 0x80;
            assert(temp == 128 + before % 128) by (bit_vector)
                requires
                    temp == ((before & 0x7f) as u8) | 0x80,
            ;
        }
        out.push(temp);
        proof {
            assert(var_bytes(before as nat) =~= if before < 128 {
                seq![temp]
            } else {
                seq![temp] + var_bytes(x as nat)
            });
            if x != 0 {
                assert(out@ + var_bytes(x as nat) =~= sofar + var_bytes(before as nat));
            } else {
                assert(out@ =~= sofar + var_bytes(before as nat));
            }
        }
        if x == 0 {
            break ;
        }
    }
}

/// The number of 7-bit groups that `x` takes.
fn var_size(x: u64) -> (count: usize)
    ensures
        count == var_bytes(x as nat).len(),
        1 <= count <= 10,
{
    let ghost whole = x;
    let mut x = x;
    let mut count: usize = 0;
    proof {
        lemma_pow128_is_pow2(9);
        lemma2_to64_rest();
        assert(pow128(10) == 128 * pow128(9));
        lemma_var_bytes_len(whole as nat, 10);
    }
    loop
        invariant_except_break
            count + var_bytes(x as nat).len() == var_bytes(whole as nat).len(),
            var_bytes(whole as nat).len() <= 10,
        ensures
            count == var_bytes(whole as nat).len(),
            1 <= count <= 10,
        decreases x,
    {
        proof {
            lemma_group(x);
        }
        x >>= 7;
        count += 1;
        if x == 0 {
            break ;
        }
    }
    count
}

/// Setting a group above the bits gathered so far adds it.
proof fn lemma_or_is_add(acc: u64, g: u64, shift: u64)
    by (bit_vector)
    requires
        shift < 64,
        acc < (1u64 << shift),
        g < 128,
    ensures
        acc | (g << shift) == acc + (g << shift),
        shift == 63 ==> g << shift == (g % 2) * 0x8000_0000_0000_0000,
{
}

/// Reads 7-bit groups at `pos` until one comes without the continuation
/// bit, taking at most `limit` bytes. The groups are gathered in 64 bits:
/// what lies above them is dropped.
fn read_var(src: &[u8], pos: usize, limit: u32, too_big: CodecError) -> (r: Result<
    (u64, usize),
    CodecError,
>)
    requires
        pos <= src@.len(),
        1 <= limit <= 10,
    ensures
        match var_decode(src@, pos as int, limit as nat, too_big) {
            Ok((raw, next)) => r is Ok && r->Ok_0.0 == raw % 0x1_0000_0000_0000_0000
                && r->Ok_0.1 == next && pos < next <= src@.len() && raw < pow128(limit as nat),
            Err(e) => r == Err::<(u64, usize), CodecError>(e),
        },
{
    let mut acc: u64 = 0;
    let mut shift: u32 = 0;
    let mut at: usize = pos;
    let mut taken: u32 = 0;
    let ghost whole = var_decode(src@, pos as int, limit as nat, too_big);
    proof {
        lemma2_to64();
        lemma2_to64_rest();
        assert(pow128(0) == 1);
    }
    loop
        invariant
            pos <= at <= src@.len(),
            at == pos + taken,
            taken < limit <= 10,
            shift == 7 * taken,
            acc < pow128(taken as nat),
            pow128(taken as nat) == pow2(shift as nat),
            whole == var_decode(src@, pos as int, limit as nat, too_big),
            whole == var_resume(
                var_decode(src@, at as int, (limit - taken) as nat, too_big),
                acc as nat,
                taken as nat,
            ),
        decreases limit - taken,
    {
        if at >= src.len() {
            assert(var_decode(src@, at as int, (limit - taken) as nat, too_big) == Err::<
                (nat, int),
                CodecError,
            >(CodecError::UnexpectedEnd));
            return Err(CodecError::UnexpectedEnd);
        }
        let b: u8 = src[at];
        let g: u64 = (b & SEGMENT_BITS) as u64;
        let more: bool = b & CONTINUE_BIT != 0;
        assert(g == b % 128 && more == (b >= 128)) by (bit_vector)
            requires
                g == (b & 0x7f) as u64,
                more == (b & 0x80 != 0),
        ;
        let ghost p = pow128(taken as nat);
        proof {
            lemma2_to64();
            lemma2_to64_rest();
            lemma_pow128_is_pow2((taken + 1) as nat);
            assert(pow128((taken + 1) as nat) == 128 * p);
            assert(p <= 0x8000_0000_0000_0000) by {
                lemma_pow128_is_pow2(9);
                lemma_pow128_monotone(taken as nat, 9);
            }
            assert((1u64 << (shift as u64)) == pow2(shift as nat)) by {
                lemma_u64_shl_is_mul(1, shift as u64);
            }
            lemma_or_is_add(acc, g, shift as u64);
            if taken < 9 {
                assert(p <= 0x100_0000_0000_0000) by {
                    lemma_pow128_is_pow2(8);
                    lemma_pow128_monotone(taken as nat, 8);
                }
                assert(g * p <= u64::MAX) by (nonlinear_arith)
                    requires
                        g < 128,
                        p <= 0x100_0000_0000_0000,
                ;
                lemma_u64_shl_is_mul(g, shift as u64);
            }
        }
        let lower = acc;
        acc |= g << shift;
        at += 1;
        if !more {
            proof {
                let raw = lower as nat + p * (b as nat);
                assert(whole == Ok::<(nat, int), CodecError>((raw, at as int)));
                assert(raw < pow128((taken + 1) as nat)) by (nonlinear_arith)
                    requires
                        raw == lower as nat + p * (b as nat),
                        lower < p,
                        b < 128,
                        pow128((taken + 1) as nat) == 128 * p,
                ;
                lemma_pow128_monotone((taken + 1) as nat, limit as nat);
                if taken == 9 {
                    assert(p == 0x8000_0000_0000_0000) by {
                        lemma_pow128_is_pow2(9);
                    }
                    assert(acc == raw % 0x1_0000_0000_0000_0000) by (nonlinear_arith)
                        requires
                            acc == lower + (g % 2) * 0x8000_0000_0000_0000,
                            raw == lower as nat + 0x8000_0000_0000_0000 * (g as nat),
                            lower < 0x8000_0000_0000_0000,
                    ;
                } else {
                    assert(g * p == p * (b as nat)) by (nonlinear_arith)
                        requires
                            g == b,
                    ;
                    assert(acc == raw);
                }
            }
            return Ok((acc, at));
        }
        proof {
            lemma_var_decode_step(
                src@,
                (at - 1) as int,
                (limit - taken) as nat,
                too_big,
                lower as nat,
                taken as nat,
            );
        }
        shift += 7;
        taken += 1;
        if taken >= limit {
            return Err(too_big);
        }
        proof {
            assert(g * p == p * (b - 128)) by (nonlinear_arith)
                requires
                    g == b - 128,
            ;
            assert(acc == lower + p * (b - 128));
            assert(acc < pow128(taken as nat)) by (nonlinear_arith)
                requires
                    acc == lower + p * (b - 128),
                    lower < p,
                    b < 256,
                    pow128(taken as nat) == 128 * p,
            ;
        }
    }
}

/// 128^a is at most 128^b when a is at most b.
proof fn lemma_pow128_monotone(a: nat, b: nat)
    requires
        a <= b,
    ensures
        pow128(a) <= pow128(b),
        pow128(a) >= 1,
    decreases b,
{
    if a < b {
        lemma_pow128_monotone(a, (b - 1) as nat);
    } else if a > 0 {
        lemma_pow128_monotone((a - 1) as nat, (a - 1) as nat);
    }
}

impl SizedProt for VarInt {
    fn is_valid(&self) -> (ok: bool) {
        true
    }

    fn prot_size(&self) -> (n: usize) {
        var_size(i32_bits(self.value) as u64)
    }
}

impl WriteProt for VarInt {
    fn write(&self, out: &mut Vec<u8>) {
        write_var(i32_bits(self.value) as u64, out);
    }
}

/// Dropping all but the low 32 bits is the remainder by 2^32.
proof fn lemma_low32(x: u64)
    by (bit_vector)
    ensures
        (x as u32) == x % 0x1_0000_0000,
{
}

impl ReadProt for VarInt {
    /// The groups of up to five bytes; of their sum the low 32 bits count.
    open spec fn decoding(s: Seq<u8>, pos: int) -> Result<(VarInt, int), CodecError> {
        match var_decode(s, pos, 5, CodecError::VarIntTooBig) {
            Ok((raw, next)) => Ok((VarInt { value: signed32(raw % 0x1_0000_0000) }, next)),
            Err(e) => Err(e),
        }
    }

    proof fn lemma_decoding_sound(s: Seq<u8>, pos: int) {
        lemma_var_decode_bounds(s, pos, 5, CodecError::VarIntTooBig);
    }

    proof fn lemma_round_trip(m: VarInt, pre: Seq<u8>, rest: Seq<u8>) {
        let x = unsigned32(m.value);
        lemma_pow128_is_pow2(5);
        lemma2_to64_rest();
        lemma_var_bytes_len(x, 5);
        lemma_var_round_trip(x, pre, rest, 5, CodecError::VarIntTooBig);
    }

    fn read(src: &[u8], pos: usize) -> (r: Result<(VarInt, usize), CodecError>) {
        match read_var(src, pos, 5, CodecError::VarIntTooBig) {
            Ok((raw, next)) => {
                proof {
                    lemma_pow128_is_pow2(5);
                    lemma2_to64_rest();
                    lemma_low32(raw);
                }
                let low = #[verifier::truncate] (raw as u32);
                Ok((VarInt { value: u32_bits(low) }, next))
            },
            Err(e) => Err(e),
        }
    }
}

impl SizedProt for VarLong {
    fn is_valid(&self) -> (ok: bool) {
        true
    }

    fn prot_size(&self) -> (n: usize) {
        var_size(i64_bits(self.value))
    }
}

impl WriteProt for VarLong {
    fn write(&self, out: &mut Vec<u8>) {
        write_var(i64_bits(self.value), out);
    }
}

impl ReadProt for VarLong {
    /// The groups of up to ten bytes; of their sum the low 64 bits count.
    open spec fn decoding(s: Seq<u8>, pos: int) -> Result<(VarLong, int), CodecError> {
        match var_decode(s, pos, 10, CodecError::VarLongTooBig) {
            Ok((raw, next)) => Ok(
                (VarLong { value: signed64(raw % 0x1_0000_0000_0000_0000) }, next),
            ),
            Err(e) => Err(e),
        }
    }

    proof fn lemma_decoding_sound(s: Seq<u8>, pos: int) {
        lemma_var_decode_bounds(s, pos, 10, CodecError::VarLongTooBig);
    }

    proof fn lemma_round_trip(m: VarLong, pre: Seq<u8>, rest: Seq<u8>) {
        let x = unsigned64(m.value);
        lemma_pow128_is_pow2(9);
        lemma2_to64_rest();
        assert(pow128(10) == 128 * pow128(9));
        lemma_var_bytes_len(x, 10);
        lemma_var_round_trip(x, pre, rest, 10, CodecError::VarLongTooBig);
    }

    fn read(src: &[u8], pos: usize) -> (r: Result<(VarLong, usize), CodecError>) {
        match read_var(src, pos, 10, CodecError::VarLongTooBig) {
            Ok((raw, next)) => Ok((VarLong { value: u64_bits(raw) }, next)),
            Err(e) => Err(e),
        }
    }
}

/// Appends `bytes` to `out`.
pub fn append_bytes(out: &mut Vec<u8>, bytes: &[u8])
    ensures
        final(out)@ == old(out)@ + bytes@,
{
    let mut i: usize = 0;
    while i < bytes.len()
        invariant
            i <= bytes@.len(),
            out@ == old(out)@ + bytes@.take(i as int),
        decreases bytes@.len() - i,
    {
        out.push(bytes[i]);
        i += 1;
        assert(bytes@.take(i as int) =~= bytes@.take(i - 1).push(bytes@[i - 1]));
    }
    assert(bytes@.take(i as int) =~= bytes@);
}

/// Each byte of a number is a quotient by a power of 256, reduced.
proof fn lemma_byte_split(v: u64)
    by (bit_vector)
    ensures
        (v as u8) == v % 256,
        ((v >> 8) as u8) == v / 256 % 256,
        ((v >> 16) as u8) == v / 256 / 256 % 256,
        ((v >> 24) as u8) == v / 256 / 256 / 256 % 256,
        ((v >> 32) as u8) == v / 256 / 256 / 256 / 256 % 256,
        ((v >> 40) as u8) == v / 256 / 256 / 256 / 256 / 256 % 256,
        ((v >> 48) as u8) == v / 256 / 256 / 256 / 256 / 256 / 256 % 256,
        ((v >> 56) as u8) == v / 256 / 256 / 256 / 256 / 256 / 256 / 256 % 256,
{
}

/// The eight bytes of `v`, most significant first.
#[inline]
pub fn u64tou8abe(v: u64) -> (r: [u8; 8])
    ensures
        r@ == be_bytes(v as nat, 8),
{
    let r = [
        #[verifier::truncate] ((v >> 56) as u8),
        #[verifier::truncate] ((v >> 48) as u8),
        #[verifier::truncate] ((v >> 40) as u8),
        #[verifier::truncate] ((v >> 32) as u8),
        #[verifier::truncate] ((v >> 24) as u8),
        #[verifier::truncate] ((v >> 16) as u8),
        #[verifier::truncate] ((v >> 8) as u8),
        #[verifier::truncate] (v as u8),
    ];
    proof {
        lemma_byte_split(v);
        reveal_with_fuel(be_bytes, 9);
        assert(r@ =~= be_bytes(v as nat, 8));
    }
    r
}

/// The four bytes of `v`, most significant first.
#[inline]
pub fn u32tou8abe(v: u32) -> (r: [u8; 4])
    ensures
        r@ == be_bytes(v as nat, 4),
{
    let r = [
        #[verifier::truncate] ((v >> 24) as u8),
        #[verifier::truncate] ((v >> 16) as u8),
        #[verifier::truncate] ((v >> 8) as u8),
        #[verifier::truncate] (v as u8),
    ];
    proof {
        lemma_byte_split(v as u64);
        reveal_with_fuel(be_bytes, 5);
        assert(r@ =~= be_bytes(v as nat, 4));
    }
    r
}

/// The two bytes of `v`, most significant first.
#[inline]
pub fn u16tou8abe(v: u16) -> (r: [u8; 2])
    ensures
        r@ == be_bytes(v as nat, 2),
{
    let r = [#[verifier::truncate] ((v >> 8) as u8), #[verifier::truncate] (v as u8)];
    proof {
        lemma_byte_split(v as u64);
        reveal_with_fuel(be_bytes, 3);
        assert(r@ =~= be_bytes(v as nat, 2));
    }
    r
}

/// Shifting a byte in from the right is multiplying by 256 and adding it.
proof fn lemma_shift_in(acc: u64, b: u8)
    by (bit_vector)
    requires
        acc <= 0x00ff_ffff_ffff_ffff,
    ensures
        (acc << 8) | (b as u64) == acc * 256 + (b as u64),
{
}

/// Reads `n` bytes at `pos` as one number, most significant byte first.
pub fn read_be(src: &[u8], pos: usize, n: usize) -> (r: Result<(u64, usize), CodecError>)
    requires
        pos <= src@.len(),
        1 <= n <= 8,
    ensures
        match be_decode(src@, pos as int, n as nat) {
            Ok((x, next)) => r is Ok && r->Ok_0.0 == x && r->Ok_0.1 == next && next == pos + n
                && next <= src@.len() && x < pow256(n as nat),
            Err(e) => r == Err::<(u64, usize), CodecError>(e),
        },
{
    if src.len() - pos < n {
        return Err(CodecError::UnexpectedEnd);
    }
    let mut value: u64 = 0;
    let mut i: usize = 0;
    proof {
        lemma_pow256_monotone(0, 8);
    }
    while i < n
        invariant
            i <= n <= 8,
            pos + n <= src@.len(),
            pos + n <= usize::MAX,
            value == be_value(src@, pos as int, i as nat),
            value < pow256(i as nat),
            pow256(i as nat) <= pow256(8),
        decreases n - i,
    {
        let b = src[pos + i];
        proof {
            reveal_with_fuel(pow256, 9);
            lemma_pow256_monotone((i + 1) as nat, 8);
            assert(pow256((i + 1) as nat) == 256 * pow256(i as nat));
            lemma_shift_in(value, b);
        }
        value = (value << 8) | (b as u64);
        i += 1;
    }
    Ok((value, pos + n))
}

/// 256^a is at most 256^b when a is at most b.
pub proof fn lemma_pow256_monotone(a: nat, b: nat)
    requires
        a <= b,
    ensures
        pow256(a) <= pow256(b),
        pow256(a) >= 1,
    decreases b,
{
    if a < b {
        lemma_pow256_monotone(a, (b - 1) as nat);
    } else if a > 0 {
        lemma_pow256_monotone((a - 1) as nat, (a - 1) as nat);
    }
}

} // verus!
