//! Content identities.
//!
//! An object id is the 160-bit identity of a blob, tree or commit,
//! carried as three plain integers and rendered as forty lowercase
//! hexadecimal digits.

use vstd::prelude::*;
use vstd::arithmetic::div_mod::{
    lemma_breakdown,
    lemma_div_denominator,
    lemma_fundamental_div_mod_converse,
};
use crate::textfmt::{hex_digit_char, hex_spec, u64_to_hex_fixed};

verus! {

/// Powers of sixteen.
pub open spec fn pow16(k: nat) -> int
    decreases k,
{
    if k == 0 {
        1
    } else {
        16 * pow16((k - 1) as nat)
    }
}

proof fn lemma_pow16_pos(k: nat)
    ensures
        pow16(k) >= 1,
    decreases k,
{
    if k > 0 {
        lemma_pow16_pos((k - 1) as nat);
    }
}

proof fn lemma_hex_len(n: int, w: nat)
    ensures
        hex_spec(n, w).len() == w,
    decreases w,
{
    if w > 0 {
        lemma_hex_len(n / 16, (w - 1) as nat);
    }
}

/// A fixed-width numeral splits at any point: the high digits render
/// the quotient, the low digits the remainder.
proof fn lemma_hex_split(n: int, a: nat, b: nat)
    requires
        n >= 0,
    ensures
        hex_spec(n, a + b) == hex_spec(n / pow16(b), a) + hex_spec(n % pow16(b), b),
    decreases b,
{
    lemma_pow16_pos(b);
    if b == 0 {
        assert(n / 1 == n);
        assert(n % 1 == 0) by {
            lemma_fundamental_div_mod_converse(n, 1, n, 0);
        }
        assert(hex_spec(n, a + 0) =~= hex_spec(n / pow16(0), a) + hex_spec(
            n % pow16(0),
            0,
        ));
    } else {
        lemma_pow16_pos((b - 1) as nat);
        let m = pow16((b - 1) as nat);
        lemma_hex_split(n / 16, a, (b - 1) as nat);
        lemma_div_denominator(n, 16, m);
        lemma_breakdown(n, 16, m);
        // The low `b` digits of `n` are the low digit of `n` under the
        // low `b - 1` digits of `n / 16`.
        let low = n % (16 * m);
        assert(low == 16 * ((n / 16) % m) + n % 16);
        assert(0 <= n % 16 < 16);
        assert((n / 16) % m >= 0);
        lemma_fundamental_div_mod_converse(low, 16, (n / 16) % m, n % 16);
        assert(low / 16 == (n / 16) % m);
        assert(low % 16 == n % 16);
        assert(hex_spec(low, b) == hex_spec(low / 16, (b - 1) as nat) + seq![
            hex_digit_char(low % 16),
        ]);
        assert(hex_spec(n, a + b) =~= hex_spec(n / pow16(b), a) + hex_spec(
            n % pow16(b),
            b,
        ));
    }
}

/// A 160-bit content identity: `hi` holds the first 16 hex digits,
/// `mid` the next 16, `lo` the last 8.
#[derive(Clone, Copy, Debug, PartialEq, Eq, Structural)]
pub struct ObjId {
    pub hi: u64,
    pub mid: u64,
    pub lo: u32,
}

/// The forty-digit hexadecimal rendering of an id.
pub open spec fn oid_hex_spec(id: ObjId) -> Seq<char> {
    hex_spec(id.hi as int, 16) + hex_spec(id.mid as int, 16) + hex_spec(id.lo as int, 8)
}

/// The eight-digit short form: the first eight hex digits of the id.
pub open spec fn oid_short_hex_spec(id: ObjId) -> Seq<char> {
    hex_spec((id.hi >> 32) as int, 8)
}

/// The short id is the first eight digits of the full id.
pub proof fn lemma_short_hex_is_prefix(id: ObjId)
    ensures
        oid_short_hex_spec(id) == oid_hex_spec(id).subrange(0, 8),
{
    lemma_hex_len(id.hi as int, 16);
    lemma_hex_len(id.mid as int, 16);
    lemma_hex_len(id.lo as int, 8);
    lemma_hex_split(id.hi as int, 8, 8);
    lemma_hex_len((id.hi as int) / pow16(8), 8);
    assert(pow16(8) == 0x100000000) by {
        reveal_with_fuel(pow16, 9);
    }
    let hi = id.hi;
    assert((hi >> 32) as int == (hi as int) / 0x100000000) by (bit_vector);
    assert(oid_hex_spec(id).subrange(0, 8) =~= hex_spec(
        (id.hi as int) / pow16(8),
        8,
    ));
}

impl ObjId {
    /// Renders the full forty-digit id.
    pub fn to_hex(&self) -> (out: String)
        ensures
            out@ == oid_hex_spec(*self),
    {
        let mut out = u64_to_hex_fixed(self.hi, 16);
        out.append(u64_to_hex_fixed(self.mid, 16).as_str());
        out.append(u64_to_hex_fixed(self.lo as u64, 8).as_str());
        out
    }

    /// Renders the eight-digit short id.
    pub fn short_hex(&self) -> (out: String)
        ensures
            out@ == oid_short_hex_spec(*self),
    {
        u64_to_hex_fixed(self.hi >> 32, 8)
    }
}

} // verus!
