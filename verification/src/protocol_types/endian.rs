use crate::err::CodecError;
use vstd::prelude::*;

verus! {

/// The `n` low bytes of `x`, most significant first.
pub open spec fn be_bytes(x: nat, n: nat) -> Seq<u8>
    decreases n,
{
    if n == 0 {
        Seq::empty()
    } else {
        be_bytes(x / 256, (n - 1) as nat).push((x % 256) as u8)
    }
}

/// The number that the `n` bytes of `s` from `pos` on spell, most
/// significant first.
pub open spec fn be_value(s: Seq<u8>, pos: int, n: nat) -> nat
    decreases n,
{
    if n == 0 {
        0
    } else {
        be_value(s, pos, (n - 1) as nat) * 256 + s[pos + n - 1] as nat
    }
}

/// 256 to the power `n`.
pub open spec fn pow256(n: nat) -> nat
    decreases n,
{
    if n == 0 {
        1
    } else {
        256 * pow256((n - 1) as nat)
    }
}

/// What reading `n` bytes at `pos` as one big-endian number yields.
pub open spec fn be_decode(s: Seq<u8>, pos: int, n: nat) -> Result<(nat, int), CodecError> {
    if 0 <= pos && pos + n <= s.len() {
        Ok((be_value(s, pos, n), pos + n))
    } else {
        Err(CodecError::UnexpectedEnd)
    }
}

/// A decoded number ends `n` bytes on, inside the input, and is below 256^n.
pub proof fn lemma_be_decode_sound(s: Seq<u8>, pos: int, n: nat)
    ensures
        match be_decode(s, pos, n) {
            Ok((x, next)) => next == pos + n && next <= s.len() && x < pow256(n),
            Err(_) => true,
        },
{
    lemma_be_value_bound(s, pos, n);
}

pub proof fn lemma_be_bytes_len(x: nat, n: nat)
    ensures
        be_bytes(x, n).len() == n,
    decreases n,
{
    if n > 0 {
        lemma_be_bytes_len(x / 256, (n - 1) as nat);
    }
}

/// The value of `n` bytes is below 256^n.
pub proof fn lemma_be_value_bound(s: Seq<u8>, pos: int, n: nat)
    ensures
        be_value(s, pos, n) < pow256(n),
    decreases n,
{
    if n > 0 {
        lemma_be_value_bound(s, pos, (n - 1) as nat);
    }
}

/// The value of a stretch of bytes depends on those bytes alone.
pub proof fn lemma_be_value_local(s: Seq<u8>, pos: int, t: Seq<u8>, at: int, n: nat)
    requires
        0 <= pos,
        pos + n <= s.len(),
        0 <= at,
        at + n <= t.len(),
        forall|i: int| 0 <= i < n ==> #[trigger] s[pos + i] == t[at + i],
    ensures
        be_value(s, pos, n) == be_value(t, at, n),
    decreases n,
{
    if n > 0 {
        lemma_be_value_local(s, pos, t, at, (n - 1) as nat);
        assert(s[pos + (n - 1)] == t[at + (n - 1)]);
    }
}

/// Reading back the `n` bytes of a number below 256^n gives the number.
pub proof fn lemma_be_round_trip(x: nat, n: nat, pre: Seq<u8>, rest: Seq<u8>)
    requires
        x < pow256(n),
    ensures
        be_decode(pre + be_bytes(x, n) + rest, pre.len() as int, n) == Ok::<
            (nat, int),
            CodecError,
        >((x, (pre.len() + n) as int)),
        (pre + be_bytes(x, n) + rest).len() == pre.len() + n + rest.len(),
    decreases n,
{
    lemma_be_bytes_len(x, n);
    let s = pre + be_bytes(x, n) + rest;
    if n > 0 {
        let m = (n - 1) as nat;
        let last = seq![(x % 256) as u8];
        lemma_be_bytes_len(x / 256, m);
        lemma_be_round_trip(x / 256, m, pre, last + rest);
        let t = pre + be_bytes(x / 256, m) + (last + rest);
        assert(s =~= t);
        assert(s[pre.len() + n - 1] == (x % 256) as u8);
    }
}

} // verus!
