use vstd::prelude::*;

verus! {

/// The unsigned number with the same 32 bits as `v`.
pub open spec fn unsigned32(v: i32) -> nat {
    if v >= 0 {
        v as nat
    } else {
        (v + 0x1_0000_0000) as nat
    }
}

/// The signed number with the same 32 bits as `n`, for `n` below 2^32.
pub open spec fn signed32(n: nat) -> i32 {
    if n < 0x8000_0000 {
        n as i32
    } else {
        (n - 0x1_0000_0000) as i32
    }
}

/// The unsigned number with the same 64 bits as `v`.
pub open spec fn unsigned64(v: i64) -> nat {
    if v >= 0 {
        v as nat
    } else {
        (v + 0x1_0000_0000_0000_0000) as nat
    }
}

/// The signed number with the same 64 bits as `n`, for `n` below 2^64.
pub open spec fn signed64(n: nat) -> i64 {
    if n < 0x8000_0000_0000_0000 {
        n as i64
    } else {
        (n - 0x1_0000_0000_0000_0000) as i64
    }
}

/// The unsigned number with the same 16 bits as `v`.
pub open spec fn unsigned16(v: i16) -> nat {
    if v >= 0 {
        v as nat
    } else {
        (v + 0x1_0000) as nat
    }
}

/// The signed number with the same 16 bits as `n`, for `n` below 2^16.
pub open spec fn signed16(n: nat) -> i16 {
    if n < 0x8000 {
        n as i16
    } else {
        (n - 0x1_0000) as i16
    }
}

/// Reinterprets the bits of a signed 16-bit number as unsigned.
pub fn i16_bits(v: i16) -> (r: u16)
    ensures
        r == unsigned16(v),
        signed16(r as nat) == v,
{
    let r = #[verifier::truncate] (v as u16);
    assert(r == (if v >= 0i16 { v as int } else { v as int + 0x1_0000 })) by (bit_vector)
        requires
            r == #[verifier::truncate] (v as u16),
    ;
    r
}

/// Reinterprets the bits of an unsigned 16-bit number as signed.
pub fn u16_bits(n: u16) -> (r: i16)
    ensures
        r == signed16(n as nat),
        unsigned16(r) == n,
{
    let r = #[verifier::truncate] (n as i16);
    assert(r == (if n < 0x8000u16 { n as int } else { n as int - 0x1_0000 })) by (bit_vector)
        requires
            r == #[verifier::truncate] (n as i16),
    ;
    r
}

/// Reinterprets the bits of a signed 32-bit number as unsigned.
pub fn i32_bits(v: i32) -> (r: u32)
    ensures
        r == unsigned32(v),
        signed32(r as nat) == v,
{
    let r = #[verifier::truncate] (v as u32);
    assert(r == (if v >= 0i32 { v as int } else { v as int + 0x1_0000_0000 })) by (bit_vector)
        requires
            r == #[verifier::truncate] (v as u32),
    ;
    r
}

/// Reinterprets the bits of an unsigned 32-bit number as signed.
pub fn u32_bits(n: u32) -> (r: i32)
    ensures
        r == signed32(n as nat),
        unsigned32(r) == n,
{
    let r = #[verifier::truncate] (n as i32);
    assert(r == (if n < 0x8000_0000u32 { n as int } else { n as int - 0x1_0000_0000 })) by (bit_vector)
        requires
            r == #[verifier::truncate] (n as i32),
    ;
    r
}

/// Reinterprets the bits of a signed 64-bit number as unsigned.
pub fn i64_bits(v: i64) -> (r: u64)
    ensures
        r == unsigned64(v),
        signed64(r as nat) == v,
{
    let r = #[verifier::truncate] (v as u64);
    assert(r == (if v >= 0i64 { v as int } else { v as int + 0x1_0000_0000_0000_0000 })) by (bit_vector)
        requires
            r == #[verifier::truncate] (v as u64),
    ;
    r
}

/// Reinterprets the bits of an unsigned 64-bit number as signed.
pub fn u64_bits(n: u64) -> (r: i64)
    ensures
        r == signed64(n as nat),
        unsigned64(r) == n,
{
    let r = #[verifier::truncate] (n as i64);
    assert(r == (if n < 0x8000_0000_0000_0000u64 { n as int } else { n as int - 0x1_0000_0000_0000_0000 })) by (bit_vector)
        requires
            r == #[verifier::truncate] (n as i64),
    ;
    r
}

} // verus!
