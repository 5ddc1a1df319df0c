use crate::err::CodecError;
use vstd::arithmetic::power2::{lemma2_to64, lemma_pow2_adds, pow2};
use vstd::prelude::*;

verus! {

/// The bytes of `x` in 7-bit groups, least significant group first, every
/// byte but the last carrying the continuation bit.
pub open spec fn var_bytes(x: nat) -> Seq<u8>
    decreases x,
{
    if x < 128 {
        seq![x as u8]
    } else {
        seq![(128 + x % 128) as u8] + var_bytes(x / 128)
    }
}

/// What reading 7-bit groups from `s` at `pos` yields when at most `limit`
/// bytes may be taken: the number and the position after it, or
/// `too_big` after `limit` continuation bytes, or `UnexpectedEnd`.
pub open spec fn var_decode(s: Seq<u8>, pos: int, limit: nat, too_big: CodecError) -> Result<
    (nat, int),
    CodecError,
>
    decreases limit,
{
    if limit == 0 {
        Err(too_big)
    } else if pos < 0 || pos >= s.len() {
        Err(CodecError::UnexpectedEnd)
    } else if s[pos] < 128 {
        Ok((s[pos] as nat, pos + 1))
    } else {
        match var_decode(s, pos + 1, (limit - 1) as nat, too_big) {
            Ok((v, next)) => Ok(((s[pos] - 128) as nat + 128 * v, next)),
            Err(e) => Err(e),
        }
    }
}

/// 128 to the power `k`.
pub open spec fn pow128(k: nat) -> nat
    decreases k,
{
    if k == 0 {
        1
    } else {
        128 * pow128((k - 1) as nat)
    }
}

/// A number below 128^k takes at most k bytes, and every number takes one.
pub proof fn lemma_var_bytes_len(x: nat, k: nat)
    requires
        k >= 1,
        x < pow128(k),
    ensures
        1 <= var_bytes(x).len() <= k,
    decreases k,
{
    if x >= 128 {
        assert(k >= 2) by {
            reveal_with_fuel(pow128, 2);
        }
        lemma_var_bytes_len(x / 128, (k - 1) as nat);
    }
}

/// Decoding what `var_bytes` wrote gives the number back, whatever stands
/// before and after it, provided the limit admits its length.
pub proof fn lemma_var_round_trip(
    x: nat,
    pre: Seq<u8>,
    rest: Seq<u8>,
    limit: nat,
    too_big: CodecError,
)
    requires
        var_bytes(x).len() <= limit,
    ensures
        var_decode(pre + var_bytes(x) + rest, pre.len() as int, limit, too_big) == Ok::<
            (nat, int),
            CodecError,
        >((x, (pre.len() + var_bytes(x).len()) as int)),
    decreases x,
{
    let s = pre + var_bytes(x) + rest;
    let p = pre.len() as int;
    assert(s[p] == var_bytes(x)[0]);
    if x >= 128 {
        let first = seq![(128 + x % 128) as u8];
        let pre2 = pre + first;
        lemma_var_round_trip(x / 128, pre2, rest, (limit - 1) as nat, too_big);
        assert(pre2 + var_bytes(x / 128) + rest =~= s);
    }
}

/// A decoded number ends after where it started and inside the input.
pub proof fn lemma_var_decode_bounds(s: Seq<u8>, pos: int, limit: nat, too_big: CodecError)
    requires
        0 <= pos <= s.len(),
    ensures
        match var_decode(s, pos, limit, too_big) {
            Ok((_, next)) => pos < next <= s.len(),
            Err(_) => true,
        },
    decreases limit,
{
    if limit > 0 && pos < s.len() && s[pos] >= 128 {
        lemma_var_decode_bounds(s, pos + 1, (limit - 1) as nat, too_big);
    }
}

/// 128^k is 2^(7k).
pub proof fn lemma_pow128_is_pow2(k: nat)
    ensures
        pow128(k) == pow2(7 * k),
    decreases k,
{
    lemma2_to64();
    if k > 0 {
        lemma_pow128_is_pow2((k - 1) as nat);
        lemma_pow2_adds(7, (7 * (k - 1)) as nat);
    }
}

/// The value that `k` continuation bytes before `pos` have gathered,
/// `lead`, put in front of what decoding goes on to find at `pos`.
pub open spec fn var_resume(
    tail: Result<(nat, int), CodecError>,
    lead: nat,
    k: nat,
) -> Result<(nat, int), CodecError> {
    match tail {
        Ok((v, next)) => Ok((lead + pow128(k) * v, next)),
        Err(e) => Err(e),
    }
}

/// One continuation byte moves from the tail of a decoding to its lead.
pub proof fn lemma_var_decode_step(
    s: Seq<u8>,
    pos: int,
    limit: nat,
    too_big: CodecError,
    lead: nat,
    k: nat,
)
    requires
        limit >= 1,
        0 <= pos < s.len(),
        s[pos] >= 128,
    ensures
        var_resume(var_decode(s, pos, limit, too_big), lead, k) == var_resume(
            var_decode(s, pos + 1, (limit - 1) as nat, too_big),
            lead + pow128(k) * ((s[pos] - 128) as nat),
            k + 1,
        ),
{
    let g = (s[pos] - 128) as nat;
    match var_decode(s, pos + 1, (limit - 1) as nat, too_big) {
        Ok((v, next)) => {
            assert(pow128(k + 1) == 128 * pow128(k));
            assert(pow128(k) * (g + 128 * v) == pow128(k) * g + pow128(k + 1) * v)
                by (nonlinear_arith)
                requires
                    pow128(k + 1) == 128 * pow128(k),
            ;
        },
        Err(e) => {},
    }
}

} // verus!
