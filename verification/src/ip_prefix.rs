//! Privacy truncation of client IP addresses.
//!
//! An address is collapsed to a fixed-length network prefix — 28 bits for v4,
//! 56 bits for v6 — and rendered as a CIDR string such as
//! `167.98.105.176/28`. The low-order host bits are masked to zero.

use vstd::prelude::*;
use crate::errors::PipelineError;
use crate::text::{push_dec_u64, push_hex_u16, spec_dec, spec_hex};

verus! {

/// An IP address, modeled as its numeric value.
#[derive(Clone, Copy, PartialEq, Eq, Structural, Debug)]
pub enum IpAddress {
    V4(u32),
    V6(u128),
}

/// A v4 address truncated to its 28-bit network prefix.
pub open spec fn spec_truncate_v4(a: u32) -> u32 {
    a & 0xffff_fff0
}

/// A v6 address truncated to its 56-bit network prefix.
pub open spec fn spec_truncate_v6(a: u128) -> u128 {
    a & 0xffff_ffff_ffff_ff00_0000_0000_0000_0000
}

/// Truncation of a v4 address zeroes exactly the low 4 host bits: the result
/// is divisible by 16, agrees with the input on all higher bits, and
/// re-truncating the network address changes nothing.
pub proof fn lemma_v4_truncation_masks_low_bits(a: u32)
    ensures
        spec_truncate_v4(a) % 16 == 0,
        spec_truncate_v4(a) >> 4 == a >> 4,
        spec_truncate_v4(spec_truncate_v4(a)) == spec_truncate_v4(a),
{
    assert((a & 0xffff_fff0) % 16 == 0) by (bit_vector);
    assert((a & 0xffff_fff0) >> 4 == a >> 4) by (bit_vector);
    assert(((a & 0xffff_fff0) & 0xffff_fff0) == (a & 0xffff_fff0)) by (bit_vector);
}

/// Truncation of a v6 address zeroes exactly the low 72 host bits (keeping
/// the 56-bit prefix) and is idempotent under repeated truncation.
pub proof fn lemma_v6_truncation_idempotent(a: u128)
    ensures
        spec_truncate_v6(a) % 0x100_0000_0000_0000_0000 == 0,
        spec_truncate_v6(a) >> 72 == a >> 72,
        spec_truncate_v6(spec_truncate_v6(a)) == spec_truncate_v6(a),
{
    assert((a & 0xffff_ffff_ffff_ff00_0000_0000_0000_0000u128) % 0x100_0000_0000_0000_0000 == 0)
        by (bit_vector);
    assert((a & 0xffff_ffff_ffff_ff00_0000_0000_0000_0000u128) >> 72 == a >> 72) by (bit_vector);
    assert(((a & 0xffff_ffff_ffff_ff00_0000_0000_0000_0000u128)
        & 0xffff_ffff_ffff_ff00_0000_0000_0000_0000u128) == (
    a & 0xffff_ffff_ffff_ff00_0000_0000_0000_0000u128)) by (bit_vector);
}

/// The dotted-quad text of a v4 address.
pub open spec fn spec_v4_text(a: u32) -> Seq<u8> {
    spec_dec(((a >> 24) & 0xff) as nat) + seq![46u8] + spec_dec(((a >> 16) & 0xff) as nat)
        + seq![46u8] + spec_dec(((a >> 8) & 0xff) as nat) + seq![46u8] + spec_dec((a & 0xff) as nat)
}

/// The `k`-th 16-bit group of a v6 address, most significant first.
pub open spec fn spec_v6_group(a: u128, k: int) -> u16
    recommends
        0 <= k < 8,
{
    ((a >> (((7 - k) * 16) as usize)) & 0xffff) as u16
}

/// The eight 16-bit groups of a v6 address, most significant first.
pub open spec fn spec_v6_groups(a: u128) -> Seq<u16> {
    Seq::new(8, |k: int| spec_v6_group(a, k))
}

/// The number of consecutive zero groups of `g` starting at `k`.
pub open spec fn spec_zero_run_len(g: Seq<u16>, k: int) -> int
    decreases g.len() - k,
{
    if k < 0 || k >= g.len() || g[k] != 0 {
        0
    } else {
        1 + spec_zero_run_len(g, k + 1)
    }
}

/// The start of the leftmost longest run of at least two zero groups at or
/// after `k`, or `-1` if there is none. This is the run that the conventional
/// `::` shorthand elides.
pub open spec fn spec_best_zero_run(g: Seq<u16>, k: int) -> int
    decreases g.len() - k,
{
    if k >= g.len() {
        -1
    } else {
        let rest = spec_best_zero_run(g, k + 1);
        if spec_zero_run_len(g, k) >= 2 && (rest == -1 || spec_zero_run_len(g, k)
            >= spec_zero_run_len(g, rest)) {
            k
        } else {
            rest
        }
    }
}

/// The groups `g[from..to]` in lowercase hexadecimal, joined by `:`.
pub open spec fn spec_groups_text(g: Seq<u16>, from: int, to: int) -> Seq<u8>
    decreases to - from,
{
    if from >= to {
        Seq::empty()
    } else if to == from + 1 {
        spec_hex(g[from] as nat)
    } else {
        spec_groups_text(g, from, to - 1) + seq![58u8] + spec_hex(g[to - 1] as nat)
    }
}

/// The conventional text of a v6 address: lowercase hexadecimal groups with
/// the leftmost longest run of two or more zero groups elided as `::`.
pub open spec fn spec_v6_text(a: u128) -> Seq<u8> {
    let g = spec_v6_groups(a);
    let b = spec_best_zero_run(g, 0);
    if b == -1 {
        spec_groups_text(g, 0, 8)
    } else {
        spec_groups_text(g, 0, b) + seq![58u8, 58u8] + spec_groups_text(
            g,
            b + spec_zero_run_len(g, b),
            8,
        )
    }
}

/// The CIDR string of the privacy-truncated network of `ip`.
pub open spec fn spec_truncated_cidr(ip: IpAddress) -> Seq<u8> {
    match ip {
        IpAddress::V4(a) => spec_v4_text(spec_truncate_v4(a)) + seq![47u8, 50u8, 56u8],
        IpAddress::V6(a) => spec_v6_text(spec_truncate_v6(a)) + seq![47u8, 53u8, 54u8],
    }
}

/// Appends the dotted-quad text of `a` to `out`.
fn push_v4_text(out: &mut Vec<u8>, a: u32)
    ensures
        final(out)@ == old(out)@ + spec_v4_text(a),
{
    push_dec_u64(out, ((a >> 24) & 0xff) as u64);
    out.push(46u8);
    push_dec_u64(out, ((a >> 16) & 0xff) as u64);
    out.push(46u8);
    push_dec_u64(out, ((a >> 8) & 0xff) as u64);
    out.push(46u8);
    push_dec_u64(out, (a & 0xff) as u64);
    assert(out@ =~= old(out)@ + spec_v4_text(a));
}

/// Appends `g[from..to]` in lowercase hexadecimal, joined by `:`, to `out`.
fn push_groups_text(out: &mut Vec<u8>, g: &Vec<u16>, from: usize, to: usize)
    requires
        from <= to <= g@.len(),
    ensures
        final(out)@ == old(out)@ + spec_groups_text(g@, from as int, to as int),
{
    let mut k: usize = from;
    while k < to
        invariant
            from <= k <= to <= g@.len(),
            out@ == old(out)@ + spec_groups_text(g@, from as int, k as int),
        decreases to - k,
    {
        if k > from {
            out.push(58u8);
        }
        push_hex_u16(out, g[k]);
        assert(out@ =~= old(out)@ + spec_groups_text(g@, from as int, k + 1));
        k = k + 1;
    }
}

/// The number of consecutive zero groups of `g` starting at `k`.
fn zero_run_len(g: &Vec<u16>, k: usize) -> (r: usize)
    requires
        k <= g@.len(),
    ensures
        r == spec_zero_run_len(g@, k as int),
        k + r <= g@.len(),
{
    let mut j: usize = k;
    while j < g.len() && g[j] == 0
        invariant
            k <= j <= g@.len(),
            spec_zero_run_len(g@, k as int) == j - k + spec_zero_run_len(g@, j as int),
        decreases g@.len() - j,
    {
        j = j + 1;
    }
    j - k
}

/// The start of the leftmost longest run of at least two zero groups, or
/// `g.len()` if there is none.
fn best_zero_run(g: &Vec<u16>) -> (r: usize)
    ensures
        r <= g@.len(),
        r < g@.len() ==> r == spec_best_zero_run(g@, 0),
        r == g@.len() ==> spec_best_zero_run(g@, 0) == -1,
{
    let n = g.len();
    let mut best: usize = n;
    let mut k: usize = n;
    while k > 0
        invariant
            k <= n,
            n == g@.len(),
            best <= n,
            best < n ==> best == spec_best_zero_run(g@, k as int),
            best == n ==> spec_best_zero_run(g@, k as int) == -1,
        decreases k,
    {
        k = k - 1;
        let here = zero_run_len(g, k);
        if here >= 2 && (best == n || here >= zero_run_len(g, best)) {
            best = k;
        }
    }
    best
}

/// Appends the conventional text of the v6 address `a` to `out`.
fn push_v6_text(out: &mut Vec<u8>, a: u128)
    ensures
        final(out)@ == old(out)@ + spec_v6_text(a),
{
    let mut g: Vec<u16> = Vec::new();
    let mut k: usize = 0;
    while k < 8
        invariant
            k <= 8,
            g@.len() == k,
            forall|i: int| 0 <= i < k ==> g@[i] == spec_v6_group(a, i),
        decreases 8 - k,
    {
        let shift: usize = (7 - k) * 16;
        g.push(((a >> shift) & 0xffff) as u16);
        k = k + 1;
    }
    proof {
        assert(g@ =~= spec_v6_groups(a));
    }
    let b = best_zero_run(&g);
    if b == g.len() {
        push_groups_text(out, &g, 0, 8);
        assert(out@ =~= old(out)@ + spec_v6_text(a));
    } else {
        let run = zero_run_len(&g, b);
        push_groups_text(out, &g, 0, b);
        out.push(58u8);
        out.push(58u8);
        push_groups_text(out, &g, b + run, 8);
        assert(out@ =~= old(out)@ + spec_v6_text(a));
    }
}

/// Truncates an IP address to a privacy-safe prefix mask and returns the
/// network as a CIDR string, such as `167.98.105.176/28`.
///
/// v4 addresses are truncated to a /28 prefix and v6 addresses to /56. Every
/// address representable by `IpAddress` forms a valid network at that prefix
/// length, so the defensive `InvalidNetwork` failure is never produced.
pub fn truncate_ip_to_prefix(ip: IpAddress) -> (r: Result<Vec<u8>, PipelineError>)
    ensures
        r matches Ok(b) && b@ == spec_truncated_cidr(ip),
{
    let mut out: Vec<u8> = Vec::new();
    match ip {
        IpAddress::V4(a) => {
            push_v4_text(&mut out, a & 0xffff_fff0);
            out.push(47u8);
            out.push(50u8);
            out.push(56u8);
        },
        IpAddress::V6(a) => {
            push_v6_text(&mut out, a & 0xffff_ffff_ffff_ff00_0000_0000_0000_0000);
            out.push(47u8);
            out.push(53u8);
            out.push(54u8);
        },
    }
    assert(out@ =~= spec_truncated_cidr(ip));
    Ok(out)
}

} // verus!
