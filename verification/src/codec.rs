//! Canonical binary codec of the wire protocol.
//!
//! The encoding is deterministic and canonical, identical on both ends of
//! the extension call: fixed-width little-endian integers, and a
//! variable-length "compact" encoding for balance-typed fields that spends
//! fewer bytes on smaller values. Decoders accept exactly the canonical
//! encodings and reject everything else, so encoding and decoding are
//! mutually inverse.

use vstd::prelude::*;
use vstd::arithmetic::div_mod::lemma_fundamental_div_mod;
use vstd::arithmetic::div_mod::lemma_mod_mod;
use crate::wire::AccountId;
use crate::wire::BondStakeInput;
use crate::wire::DSErrorCode;
use crate::wire::EraInfo;
use crate::wire::RewardInfo;

verus! {

/// `256^n`, the number of values `n` bytes can hold.
pub open spec fn pow256(n: nat) -> nat
    decreases n,
{
    if n == 0 {
        1
    } else {
        256 * pow256((n - 1) as nat)
    }
}

/// The little-endian byte string of `v`, exactly `n` bytes long
/// (meaningful when `v < pow256(n)`).
pub open spec fn le_bytes(v: nat, n: nat) -> Seq<u8>
    decreases n,
{
    if n == 0 {
        Seq::empty()
    } else {
        seq![(v % 256) as u8] + le_bytes(v / 256, (n - 1) as nat)
    }
}

/// The value a little-endian byte string stands for.
pub open spec fn le_val(s: Seq<u8>) -> nat
    decreases s.len(),
{
    if s.len() == 0 {
        0
    } else {
        (s[0] + 256 * le_val(s.subrange(1, s.len() as int))) as nat
    }
}

/// The least number of bytes that can hold `v`; at least one.
pub open spec fn min_len(v: nat) -> nat
    decreases v,
{
    if v < 256 {
        1
    } else {
        1 + min_len(v / 256)
    }
}

pub proof fn lemma_pow256_is_positive(n: nat)
    ensures
        pow256(n) >= 1,
    decreases n,
{
    if n > 0 {
        lemma_pow256_is_positive((n - 1) as nat);
    }
}

pub proof fn lemma_pow256_increases(a: nat, b: nat)
    requires
        a <= b,
    ensures
        pow256(a) <= pow256(b),
        a < b ==> 256 * pow256(a) <= pow256(b),
    decreases b,
{
    lemma_pow256_is_positive(a);
    if a < b {
        lemma_pow256_increases(a, (b - 1) as nat);
        assert(pow256(b) == 256 * pow256((b - 1) as nat));
    }
}

/// `pow256(16)` is one past the largest `u128`.
pub proof fn lemma_pow256_16()
    ensures
        pow256(16) == 0x100000000000000000000000000000000,
{
    reveal_with_fuel(pow256, 17);
}

pub proof fn lemma_le_bytes_len(v: nat, n: nat)
    ensures
        le_bytes(v, n).len() == n,
    decreases n,
{
    if n > 0 {
        lemma_le_bytes_len(v / 256, (n - 1) as nat);
    }
}

/// Decoding the little-endian bytes of `v` gives `v` back.
pub proof fn lemma_le_val_le_bytes(v: nat, n: nat)
    requires
        v < pow256(n),
    ensures
        le_val(le_bytes(v, n)) == v,
    decreases n,
{
    if n == 0 {
    } else {
        let s = le_bytes(v, n);
        let tail = le_bytes(v / 256, (n - 1) as nat);
        lemma_le_bytes_len(v / 256, (n - 1) as nat);
        assert(s.subrange(1, s.len() as int) =~= tail);
        assert(v / 256 < pow256((n - 1) as nat)) by (nonlinear_arith)
            requires
                v < 256 * pow256((n - 1) as nat),
        ;
        lemma_le_val_le_bytes(v / 256, (n - 1) as nat);
        lemma_fundamental_div_mod(v as int, 256);
    }
}

/// `min_len(v)` is the exact byte length of `v`: `v` fits in `min_len(v)`
/// bytes and (unless zero) not in fewer.
pub proof fn lemma_min_len_bounds(v: nat)
    ensures
        1 <= min_len(v),
        v < pow256(min_len(v)),
        v >= 1 ==> pow256((min_len(v) - 1) as nat) <= v,
    decreases v,
{
    if v < 256 {
        assert(pow256(1) == 256 * pow256(0));
    } else {
        let q = v / 256;
        lemma_fundamental_div_mod(v as int, 256);
        assert(1 <= q && q < v) by (nonlinear_arith)
            requires
                v >= 256,
                v == 256 * q + v % 256,
                0 <= v % 256 < 256,
        ;
        lemma_min_len_bounds(q);
        let m = min_len(q);
        assert(v < 256 * pow256(m)) by (nonlinear_arith)
            requires
                q < pow256(m),
                v == 256 * q + v % 256,
                v % 256 < 256,
        ;
        assert(256 * pow256((m - 1) as nat) <= v) by (nonlinear_arith)
            requires
                pow256((m - 1) as nat) <= q,
                v == 256 * q + v % 256,
                v % 256 >= 0,
        ;
        assert(pow256(min_len(v)) == 256 * pow256(m));
        assert(pow256((min_len(v) - 1) as nat) == 256 * pow256((m - 1) as nat));
    }
}

/// The canonical compact encoding of a balance value: the two low bits of
/// the first byte select one of four modes, the remaining bits and bytes
/// hold the value, and every value has exactly one encoding (the shortest
/// mode that holds it).
pub open spec fn compact_enc(v: u128) -> Seq<u8> {
    if v < 64 {
        seq![(v * 4) as u8]
    } else if v < 16384 {
        le_bytes((v * 4 + 1) as nat, 2)
    } else if v < 1073741824 {
        le_bytes((v * 4 + 2) as nat, 4)
    } else {
        seq![((min_len(v as nat) - 4) * 4 + 3) as u8] + le_bytes(v as nat, min_len(v as nat))
    }
}

/// Canonical compact decoding: the value and the number of bytes consumed
/// from the front of `s`, or `None` where `s` does not start with the
/// canonical encoding of any value (too short, or a value written in a
/// longer mode than it needs).
pub open spec fn compact_dec(s: Seq<u8>) -> Option<(u128, int)> {
    if s.len() == 0 {
        None
    } else {
        let b0 = s[0] as nat;
        if b0 % 4 == 0 {
            Some(((b0 / 4) as u128, 1))
        } else if b0 % 4 == 1 {
            if s.len() >= 2 {
                let v = le_val(s.subrange(0, 2)) / 4;
                if v >= 64 {
                    Some((v as u128, 2))
                } else {
                    None
                }
            } else {
                None
            }
        } else if b0 % 4 == 2 {
            if s.len() >= 4 {
                let v = le_val(s.subrange(0, 4)) / 4;
                if v >= 16384 {
                    Some((v as u128, 4))
                } else {
                    None
                }
            } else {
                None
            }
        } else {
            let n = b0 / 4 + 4;
            if n <= 16 && s.len() >= 1 + n {
                let v = le_val(s.subrange(1, (1 + n) as int));
                if v >= 1073741824 && v >= pow256((n - 1) as nat) {
                    Some((v as u128, (1 + n) as int))
                } else {
                    None
                }
            } else {
                None
            }
        }
    }
}

/// Decoding what was encoded, with anything behind it, gives the value
/// back and consumes exactly the encoding.
pub proof fn lemma_compact_round_trip(v: u128, rest: Seq<u8>)
    ensures
        compact_dec(compact_enc(v) + rest) == Some((v, compact_enc(v).len() as int)),
{
    let enc = compact_enc(v);
    let s = enc + rest;
    if v < 64 {
        assert(s[0] == (v * 4) as u8);
        assert((v * 4) as nat % 4 == 0 && (v * 4) as nat / 4 == v as nat) by (nonlinear_arith)
            requires
                v < 64,
        ;
    } else if v < 16384 {
        let x = (v * 4 + 1) as nat;
        lemma_le_bytes_len(x, 2);
        assert(s.subrange(0, 2) =~= le_bytes(x, 2));
        assert(pow256(2) == 65536) by {
            reveal_with_fuel(pow256, 3);
        }
        lemma_le_val_le_bytes(x, 2);
        assert(s[0] == ((x % 256) as u8));
        lemma_mod_mod(x as int, 4, 64);
        assert(x % 4 == 1 && x / 4 == v as nat) by (nonlinear_arith)
            requires
                x == 4 * (v as nat) + 1,
        ;
        assert((s[0] as nat) % 4 == 1);
    } else if v < 1073741824 {
        let x = (v * 4 + 2) as nat;
        lemma_le_bytes_len(x, 4);
        assert(s.subrange(0, 4) =~= le_bytes(x, 4));
        assert(pow256(4) == 0x100000000) by {
            reveal_with_fuel(pow256, 5);
        }
        lemma_le_val_le_bytes(x, 4);
        assert(s[0] == ((x % 256) as u8));
        lemma_mod_mod(x as int, 4, 64);
        assert(x % 4 == 2 && x / 4 == v as nat) by (nonlinear_arith)
            requires
                x == 4 * (v as nat) + 2,
        ;
        assert((s[0] as nat) % 4 == 2);
    } else {
        let n = min_len(v as nat);
        lemma_min_len_bounds(v as nat);
        lemma_pow256_16();
        lemma_min_len_le(v as nat, 16);
        assert(pow256(3) == 0x1000000 && pow256(4) == 0x100000000) by {
            reveal_with_fuel(pow256, 5);
        }
        if n < 4 {
            lemma_pow256_increases(n, 3);
        }
        assert(4 <= n <= 16);
        let b0v = ((n - 4) * 4 + 3) as nat;
        assert(b0v < 256);
        assert(enc[0] == (b0v as u8));
        assert(s[0] == (b0v as u8));
        assert(b0v % 4 == 3 && b0v / 4 == (n - 4) as nat) by (nonlinear_arith)
            requires
                b0v == (n - 4) * 4 + 3,
                4 <= n <= 16,
        ;
        lemma_le_bytes_len(v as nat, n);
        assert(s.subrange(1, (1 + n) as int) =~= le_bytes(v as nat, n));
        lemma_le_val_le_bytes(v as nat, n);
        assert(enc.len() == 1 + n);
    }
}

/// If `v` fits in `n` bytes (`n >= 1`), then `min_len(v) <= n`.
pub proof fn lemma_min_len_le(v: nat, n: nat)
    requires
        n >= 1,
        v < pow256(n),
    ensures
        min_len(v) <= n,
{
    lemma_min_len_bounds(v);
    if min_len(v) > n {
        lemma_pow256_increases(n, (min_len(v) - 1) as nat);
        lemma_pow256_is_positive(n);
    }
}

/// Appends the `n`-byte little-endian encoding of `v`.
pub fn write_le(v: u128, n: usize, out: &mut Vec<u8>)
    ensures
        final(out)@ == old(out)@ + le_bytes(v as nat, n as nat),
{
    let mut cur: u128 = v;
    let mut i: usize = 0;
    while i < n
        invariant
            i <= n,
            out@ + le_bytes(cur as nat, (n - i) as nat) == old(out)@ + le_bytes(
                v as nat,
                n as nat,
            ),
        decreases n - i,
    {
        let ghost prev = out@;
        let ghost pcur = cur as nat;
        out.push((cur % 256) as u8);
        cur = cur / 256;
        i = i + 1;
        proof {
            assert(le_bytes(pcur, (n - i + 1) as nat) == seq![(pcur % 256) as u8] + le_bytes(
                pcur / 256,
                (n - i) as nat,
            ));
            assert(out@ + le_bytes(cur as nat, (n - i) as nat) =~= prev + le_bytes(
                pcur,
                (n - i + 1) as nat,
            ));
        }
    }
    proof {
        assert(out@ + le_bytes(cur as nat, 0) =~= out@);
    }
}

/// Reads the `n`-byte little-endian value starting at `pos`.
pub fn read_le(bytes: &Vec<u8>, pos: usize, n: usize) -> (v: u128)
    requires
        n <= 16,
        pos + n <= bytes@.len(),
    ensures
        v as nat == le_val(bytes@.subrange(pos as int, (pos + n) as int)),
        (v as nat) < pow256(n as nat),
{
    let mut v: u128 = 0;
    let mut i: usize = 0;
    let len = bytes.len();
    proof {
        lemma_pow256_16();
    }
    while i < n
        invariant
            i <= n <= 16,
            len == bytes@.len(),
            pos + n <= len,
            v as nat == le_val(bytes@.subrange((pos + n - i) as int, (pos + n) as int)),
            (v as nat) < pow256(i as nat),
            pow256(16) == 0x100000000000000000000000000000000,
        decreases n - i,
    {
        let b = bytes[pos + n - i - 1];
        proof {
            let lo = (pos + n - i - 1) as int;
            let hi = (pos + n) as int;
            let sub = bytes@.subrange(lo, hi);
            assert(sub[0] == bytes@[lo]);
            assert(sub.subrange(1, sub.len() as int) =~= bytes@.subrange(lo + 1, hi));
            assert(pow256((i + 1) as nat) == 256 * pow256(i as nat));
            lemma_pow256_increases((i + 1) as nat, 16);
            assert(256 * (v as nat) + (b as nat) < pow256((i + 1) as nat)) by (nonlinear_arith)
                requires
                    (v as nat) < pow256(i as nat),
                    (b as nat) < 256,
                    pow256((i + 1) as nat) == 256 * pow256(i as nat),
            ;
        }
        v = v * 256 + (b as u128);
        i = i + 1;
    }
    v
}

/// The exact byte length of `v`: how many little-endian bytes the value
/// needs.
pub fn byte_len(v: u128) -> (n: usize)
    ensures
        n as nat == min_len(v as nat),
        1 <= n <= 16,
{
    proof {
        lemma_pow256_16();
    }
    let mut t: u128 = v;
    let mut n: usize = 1;
    while t >= 256
        invariant
            1 <= n <= 16,
            min_len(v as nat) == (n - 1) + min_len(t as nat),
            (t as nat) < pow256((17 - n) as nat),
        decreases t,
    {
        proof {
            assert(pow256(1) == 256) by {
                reveal_with_fuel(pow256, 2);
            }
            if n == 16 {
                assert((t as nat) < pow256(1));
            }
            lemma_fundamental_div_mod(t as int, 256);
            assert(pow256((17 - n) as nat) == 256 * pow256((16 - n) as nat));
            assert((t as nat) / 256 < pow256((16 - n) as nat) && (t as nat) / 256 < t as nat)
                by (nonlinear_arith)
                requires
                    (t as nat) < 256 * pow256((16 - n) as nat),
                    t as nat >= 256,
                    (t as nat) == 256 * ((t as nat) / 256) + (t as nat) % 256,
                    0 <= (t as nat) % 256 < 256,
            ;
        }
        t = t / 256;
        n = n + 1;
    }
    n
}

/// `256^n`, computed at run time.
pub fn pow_of_256(n: usize) -> (p: u128)
    requires
        n <= 15,
    ensures
        p as nat == pow256(n as nat),
{
    let mut p: u128 = 1;
    let mut i: usize = 0;
    proof {
        lemma_pow256_16();
    }
    while i < n
        invariant
            i <= n <= 15,
            p as nat == pow256(i as nat),
            pow256(16) == 0x100000000000000000000000000000000,
        decreases n - i,
    {
        proof {
            assert(256 * pow256(i as nat) == pow256((i + 1) as nat));
            lemma_pow256_increases((i + 1) as nat, 16);
        }
        p = p * 256;
        i = i + 1;
    }
    p
}

/// Appends the canonical compact encoding of `v`.
pub fn encode_compact(v: u128, out: &mut Vec<u8>)
    ensures
        final(out)@ == old(out)@ + compact_enc(v),
{
    if v < 64 {
        let ghost prev = out@;
        let b: u8 = (v * 4) as u8;
        out.push(b);
        proof {
            assert(out@ =~= prev + seq![(v * 4) as u8]);
        }
    } else if v < 16384 {
        write_le(v * 4 + 1, 2, out);
    } else if v < 1073741824 {
        write_le(v * 4 + 2, 4, out);
    } else {
        let n = byte_len(v);
        proof {
            lemma_min_len_bounds(v as nat);
            assert(pow256(3) == 0x1000000) by {
                reveal_with_fuel(pow256, 4);
            }
            if n < 4 {
                lemma_pow256_increases(n as nat, 3);
            }
        }
        let ghost prev = out@;
        let b0: u8 = ((n - 4) * 4 + 3) as u8;
        out.push(b0);
        write_le(v, n, out);
        proof {
            assert(out@ =~= prev + compact_enc(v));
        }
    }
}

/// Decodes one compact value starting at `pos`: the value and the position
/// just past it, or `None` where the bytes are not a canonical encoding.
pub fn decode_compact(bytes: &Vec<u8>, pos: usize) -> (r: Option<(u128, usize)>)
    requires
        pos <= bytes@.len(),
    ensures
        match compact_dec(bytes@.skip(pos as int)) {
            Some(vl) => r == Some((vl.0, (pos + vl.1) as usize)),
            None => r is None,
        },
{
    let ghost suf = bytes@.skip(pos as int);
    if pos >= bytes.len() {
        return None;
    }
    let b0 = bytes[pos];
    proof {
        assert(suf[0] == bytes@[pos as int]);
    }
    let tag = b0 % 4;
    if tag == 0 {
        Some(((b0 / 4) as u128, pos + 1))
    } else if tag == 1 {
        if bytes.len() - pos >= 2 {
            let x = read_le(bytes, pos, 2);
            proof {
                assert(suf.subrange(0, 2) =~= bytes@.subrange(pos as int, pos as int + 2));
            }
            let v = x / 4;
            if v >= 64 {
                Some((v, pos + 2))
            } else {
                None
            }
        } else {
            None
        }
    } else if tag == 2 {
        if bytes.len() - pos >= 4 {
            let x = read_le(bytes, pos, 4);
            proof {
                assert(suf.subrange(0, 4) =~= bytes@.subrange(pos as int, pos as int + 4));
            }
            let v = x / 4;
            if v >= 16384 {
                Some((v, pos + 4))
            } else {
                None
            }
        } else {
            None
        }
    } else {
        let n = (b0 / 4) as usize + 4;
        if n <= 16 && bytes.len() - pos >= 1 + n {
            let v = read_le(bytes, pos + 1, n);
            proof {
                assert(suf.subrange(1, (1 + n) as int) =~= bytes@.subrange(
                    pos as int + 1,
                    pos as int + 1 + n,
                ));
            }
            let low = pow_of_256(n - 1);
            if v >= 1073741824 && v >= low {
                Some((v, pos + 1 + n))
            } else {
                None
            }
        } else {
            None
        }
    }
}

/// A decoder consumes at least one byte and never more than it was given.
pub proof fn lemma_compact_dec_len(s: Seq<u8>)
    ensures
        match compact_dec(s) {
            Some(vl) => 1 <= vl.1 <= s.len(),
            None => true,
        },
{
}

/// The fixed-width little-endian encoding of a 32-bit integer.
pub open spec fn enc_u32(v: u32) -> Seq<u8> {
    le_bytes(v as nat, 4)
}

/// Encodes a 32-bit integer as four little-endian bytes.
pub fn encode_u32(v: u32) -> (out: Vec<u8>)
    ensures
        out@ == enc_u32(v),
{
    let mut out: Vec<u8> = Vec::new();
    write_le(v as u128, 4, &mut out);
    proof {
        assert(out@ =~= le_bytes(v as nat, 4));
    }
    out
}

/// Decodes a four-byte little-endian 32-bit integer.
pub fn decode_u32(bytes: &Vec<u8>) -> (v: u32)
    requires
        bytes@.len() == 4,
    ensures
        v as nat == le_val(bytes@),
{
    proof {
        assert(pow256(4) == 0x100000000) by {
            reveal_with_fuel(pow256, 5);
        }
    }
    let x = read_le(bytes, 0, 4);
    proof {
        assert(bytes@.subrange(0, 4) =~= bytes@);
    }
    x as u32
}

/// Fixed-width little-endian decoding inverts the encoding.
pub proof fn lemma_u32_round_trip(v: u32)
    ensures
        le_val(enc_u32(v)) == v,
{
    assert(pow256(4) == 0x100000000) by {
        reveal_with_fuel(pow256, 5);
    }
    lemma_le_val_le_bytes(v as nat, 4);
}

/// The wire shape of a reward record: both amounts, compact, in order.
pub open spec fn enc_reward_info(r: RewardInfo) -> Seq<u8> {
    compact_enc(r.stakers) + compact_enc(r.dapps)
}

pub open spec fn dec_reward_info(s: Seq<u8>) -> Option<(RewardInfo, int)> {
    match compact_dec(s) {
        Some((stakers, l1)) => match compact_dec(s.skip(l1)) {
            Some((dapps, l2)) => Some((RewardInfo { stakers, dapps }, l1 + l2)),
            None => None,
        },
        None => None,
    }
}

/// The wire shape of an era record: the reward record, then the staked and
/// locked amounts, compact, in order.
pub open spec fn enc_era_info(e: EraInfo) -> Seq<u8> {
    enc_reward_info(e.rewards) + compact_enc(e.staked) + compact_enc(e.locked)
}

pub open spec fn dec_era_info(s: Seq<u8>) -> Option<(EraInfo, int)> {
    match dec_reward_info(s) {
        Some((rewards, l1)) => match compact_dec(s.skip(l1)) {
            Some((staked, l2)) => match compact_dec(s.skip(l1 + l2)) {
                Some((locked, l3)) => Some(
                    (EraInfo { rewards, staked, locked }, l1 + l2 + l3),
                ),
                None => None,
            },
            None => None,
        },
        None => None,
    }
}

pub proof fn lemma_dec_reward_info_len(s: Seq<u8>)
    ensures
        match dec_reward_info(s) {
            Some(vl) => 2 <= vl.1 <= s.len(),
            None => true,
        },
{
    lemma_compact_dec_len(s);
    if compact_dec(s) is Some {
        let l1 = compact_dec(s)->Some_0.1;
        lemma_compact_dec_len(s.skip(l1));
    }
}

pub proof fn lemma_dec_era_info_len(s: Seq<u8>)
    ensures
        match dec_era_info(s) {
            Some(vl) => 4 <= vl.1 <= s.len(),
            None => true,
        },
{
    lemma_dec_reward_info_len(s);
    if dec_reward_info(s) is Some {
        let l1 = dec_reward_info(s)->Some_0.1;
        lemma_compact_dec_len(s.skip(l1));
        if compact_dec(s.skip(l1)) is Some {
            let l2 = compact_dec(s.skip(l1))->Some_0.1;
            lemma_compact_dec_len(s.skip(l1 + l2));
        }
    }
}

/// Decoding an encoded reward record, with anything behind it, gives the
/// record back.
pub proof fn lemma_reward_info_round_trip(r: RewardInfo, rest: Seq<u8>)
    ensures
        dec_reward_info(enc_reward_info(r) + rest) == Some(
            (r, enc_reward_info(r).len() as int),
        ),
{
    let c1 = compact_enc(r.stakers);
    let c2 = compact_enc(r.dapps);
    let s = enc_reward_info(r) + rest;
    assert(s =~= c1 + (c2 + rest));
    lemma_compact_round_trip(r.stakers, c2 + rest);
    assert(s.skip(c1.len() as int) =~= c2 + rest);
    lemma_compact_round_trip(r.dapps, rest);
    assert(RewardInfo { stakers: r.stakers, dapps: r.dapps } == r);
}

/// Decoding an encoded era record, with anything behind it, gives the
/// record back: the codec loses nothing, including zero and
/// maximum-representable amounts.
pub proof fn lemma_era_info_round_trip(e: EraInfo, rest: Seq<u8>)
    ensures
        dec_era_info(enc_era_info(e) + rest) == Some((e, enc_era_info(e).len() as int)),
{
    let cr = enc_reward_info(e.rewards);
    let c3 = compact_enc(e.staked);
    let c4 = compact_enc(e.locked);
    let s = enc_era_info(e) + rest;
    assert(s =~= cr + (c3 + (c4 + rest)));
    lemma_reward_info_round_trip(e.rewards, c3 + (c4 + rest));
    assert(s.skip(cr.len() as int) =~= c3 + (c4 + rest));
    lemma_compact_round_trip(e.staked, c4 + rest);
    assert(s.skip(cr.len() + c3.len() as int) =~= c4 + rest);
    lemma_compact_round_trip(e.locked, rest);
    assert(EraInfo { rewards: e.rewards, staked: e.staked, locked: e.locked } == e);
    assert(enc_era_info(e).len() == cr.len() + c3.len() + c4.len());
}

/// Appends the encoding of a reward record.
pub fn encode_reward_info(r: &RewardInfo, out: &mut Vec<u8>)
    ensures
        final(out)@ == old(out)@ + enc_reward_info(*r),
{
    let ghost prev = out@;
    encode_compact(r.stakers, out);
    encode_compact(r.dapps, out);
    proof {
        assert(out@ =~= prev + enc_reward_info(*r));
    }
}

/// Appends the encoding of an era record.
pub fn encode_era_info(e: &EraInfo, out: &mut Vec<u8>)
    ensures
        final(out)@ == old(out)@ + enc_era_info(*e),
{
    let ghost prev = out@;
    encode_reward_info(&e.rewards, out);
    encode_compact(e.staked, out);
    encode_compact(e.locked, out);
    proof {
        assert(out@ =~= prev + enc_era_info(*e));
    }
}

/// Decodes a reward record starting at `pos`.
pub fn decode_reward_info(bytes: &Vec<u8>, pos: usize) -> (r: Option<(RewardInfo, usize)>)
    requires
        pos <= bytes@.len(),
    ensures
        match dec_reward_info(bytes@.skip(pos as int)) {
            Some(vl) => r == Some((vl.0, (pos + vl.1) as usize)),
            None => r is None,
        },
{
    let ghost suf = bytes@.skip(pos as int);
    let len = bytes.len();
    proof {
        lemma_compact_dec_len(suf);
    }
    match decode_compact(bytes, pos) {
        None => None,
        Some((stakers, p1)) => {
            proof {
                assert(pos <= p1 <= len);
                assert(suf.skip(p1 - pos) =~= bytes@.skip(p1 as int));
                lemma_compact_dec_len(suf.skip(p1 - pos));
            }
            match decode_compact(bytes, p1) {
                None => None,
                Some((dapps, p2)) => Some((RewardInfo { stakers, dapps }, p2)),
            }
        },
    }
}

/// Decodes an era record starting at `pos`.
pub fn decode_era_info(bytes: &Vec<u8>, pos: usize) -> (r: Option<(EraInfo, usize)>)
    requires
        pos <= bytes@.len(),
    ensures
        match dec_era_info(bytes@.skip(pos as int)) {
            Some(vl) => r == Some((vl.0, (pos + vl.1) as usize)),
            None => r is None,
        },
{
    let ghost suf = bytes@.skip(pos as int);
    let len = bytes.len();
    proof {
        lemma_dec_reward_info_len(suf);
    }
    match decode_reward_info(bytes, pos) {
        None => None,
        Some((rewards, p1)) => {
            proof {
                assert(pos <= p1 <= len);
                assert(suf.skip(p1 - pos) =~= bytes@.skip(p1 as int));
                lemma_compact_dec_len(suf.skip(p1 - pos));
            }
            match decode_compact(bytes, p1) {
                None => None,
                Some((staked, p2)) => {
                    proof {
                        assert(pos <= p2 <= len);
                        assert(suf.skip(p2 - pos) =~= bytes@.skip(p2 as int));
                        lemma_compact_dec_len(suf.skip(p2 - pos));
                    }
                    match decode_compact(bytes, p2) {
                        None => None,
                        Some((locked, p3)) => Some((EraInfo { rewards, staked, locked }, p3)),
                    }
                },
            }
        },
    }
}

/// The wire shape of the known failure class: its variant index.
pub open spec fn enc_error_code(c: DSErrorCode) -> Seq<u8> {
    match c {
        DSErrorCode::Failed => seq![0u8],
    }
}

pub open spec fn dec_error_code(s: Seq<u8>) -> Option<(DSErrorCode, int)> {
    if s.len() >= 1 && s[0] == 0 {
        Some((DSErrorCode::Failed, 1))
    } else {
        None
    }
}

/// The wire envelope of a checked era-info call: an `Ok` or `Err` tag
/// byte, then the payload.
pub open spec fn enc_result_era_info(r: Result<EraInfo, DSErrorCode>) -> Seq<u8> {
    match r {
        Ok(e) => seq![0u8] + enc_era_info(e),
        Err(c) => seq![1u8] + enc_error_code(c),
    }
}

pub open spec fn dec_result_era_info(s: Seq<u8>) -> Option<
    (Result<EraInfo, DSErrorCode>, int),
> {
    if s.len() == 0 {
        None
    } else if s[0] == 0 {
        match dec_era_info(s.skip(1)) {
            Some((e, l)) => Some((Ok(e), 1 + l)),
            None => None,
        }
    } else if s[0] == 1 {
        match dec_error_code(s.skip(1)) {
            Some((c, l)) => Some((Err(c), 1 + l)),
            None => None,
        }
    } else {
        None
    }
}

/// The wire envelope of a checked bond-and-stake call.
pub open spec fn enc_result_unit(r: Result<(), DSErrorCode>) -> Seq<u8> {
    match r {
        Ok(u) => seq![0u8],
        Err(c) => seq![1u8] + enc_error_code(c),
    }
}

pub open spec fn dec_result_unit(s: Seq<u8>) -> Option<(Result<(), DSErrorCode>, int)> {
    if s.len() == 0 {
        None
    } else if s[0] == 0 {
        Some((Ok(()), 1))
    } else if s[0] == 1 {
        match dec_error_code(s.skip(1)) {
            Some((c, l)) => Some((Err(c), 1 + l)),
            None => None,
        }
    } else {
        None
    }
}

/// Decoding an encoded era-info envelope gives the envelope back.
pub proof fn lemma_result_era_info_round_trip(r: Result<EraInfo, DSErrorCode>, rest: Seq<u8>)
    ensures
        dec_result_era_info(enc_result_era_info(r) + rest) == Some(
            (r, enc_result_era_info(r).len() as int),
        ),
{
    let s = enc_result_era_info(r) + rest;
    match r {
        Ok(e) => {
            assert(s[0] == 0);
            assert(s.skip(1) =~= enc_era_info(e) + rest);
            lemma_era_info_round_trip(e, rest);
        },
        Err(c) => {
            assert(s[0] == 1);
            assert(s.skip(1) =~= enc_error_code(c) + rest);
            assert(s.skip(1)[0] == 0);
        },
    }
}

/// Decoding an encoded bond-and-stake envelope gives the envelope back.
pub proof fn lemma_result_unit_round_trip(r: Result<(), DSErrorCode>, rest: Seq<u8>)
    ensures
        dec_result_unit(enc_result_unit(r) + rest) == Some(
            (r, enc_result_unit(r).len() as int),
        ),
{
    let s = enc_result_unit(r) + rest;
    match r {
        Ok(u) => {
            assert(s[0] == 0);
        },
        Err(c) => {
            assert(s[0] == 1);
            assert(s.skip(1) =~= enc_error_code(c) + rest);
            assert(s.skip(1)[0] == 0);
        },
    }
}

/// Appends the era-info envelope.
pub fn encode_result_era_info(r: &Result<EraInfo, DSErrorCode>, out: &mut Vec<u8>)
    ensures
        final(out)@ == old(out)@ + enc_result_era_info(*r),
{
    let ghost prev = out@;
    match r {
        Ok(e) => {
            out.push(0u8);
            encode_era_info(e, out);
            proof {
                assert(out@ =~= prev + enc_result_era_info(*r));
            }
        },
        Err(c) => {
            match c {
                DSErrorCode::Failed => {
                    out.push(1u8);
                    out.push(0u8);
                    proof {
                        assert(out@ =~= prev + enc_result_era_info(*r));
                    }
                },
            }
        },
    }
}

/// Appends the bond-and-stake envelope.
pub fn encode_result_unit(r: &Result<(), DSErrorCode>, out: &mut Vec<u8>)
    ensures
        final(out)@ == old(out)@ + enc_result_unit(*r),
{
    let ghost prev = out@;
    match r {
        Ok(u) => {
            out.push(0u8);
            proof {
                assert(out@ =~= prev + enc_result_unit(*r));
            }
        },
        Err(c) => {
            match c {
                DSErrorCode::Failed => {
                    out.push(1u8);
                    out.push(0u8);
                    proof {
                        assert(out@ =~= prev + enc_result_unit(*r));
                    }
                },
            }
        },
    }
}

/// Decodes an era-info envelope starting at `pos`.
pub fn decode_result_era_info(bytes: &Vec<u8>, pos: usize) -> (r: Option<
    (Result<EraInfo, DSErrorCode>, usize),
>)
    requires
        pos <= bytes@.len(),
    ensures
        match dec_result_era_info(bytes@.skip(pos as int)) {
            Some(vl) => r == Some((vl.0, (pos + vl.1) as usize)),
            None => r is None,
        },
{
    let ghost suf = bytes@.skip(pos as int);
    let len = bytes.len();
    if pos >= len {
        return None;
    }
    let b = bytes[pos];
    proof {
        assert(suf[0] == bytes@[pos as int]);
    }
    if b == 0 {
        proof {
            assert(suf.skip(1) =~= bytes@.skip(pos as int + 1));
            lemma_dec_era_info_len(suf.skip(1));
        }
        match decode_era_info(bytes, pos + 1) {
            None => None,
            Some((e, p)) => Some((Ok(e), p)),
        }
    } else if b == 1 {
        if len - pos >= 2 {
            let b1 = bytes[pos + 1];
            proof {
                assert(suf.skip(1) =~= bytes@.skip(pos as int + 1));
                assert(suf.skip(1)[0] == bytes@[pos as int + 1]);
            }
            if b1 == 0 {
                Some((Err(DSErrorCode::Failed), pos + 2))
            } else {
                None
            }
        } else {
            None
        }
    } else {
        None
    }
}

/// Decodes a bond-and-stake envelope starting at `pos`.
pub fn decode_result_unit(bytes: &Vec<u8>, pos: usize) -> (r: Option<
    (Result<(), DSErrorCode>, usize),
>)
    requires
        pos <= bytes@.len(),
    ensures
        match dec_result_unit(bytes@.skip(pos as int)) {
            Some(vl) => r == Some((vl.0, (pos + vl.1) as usize)),
            None => r is None,
        },
{
    let ghost suf = bytes@.skip(pos as int);
    let len = bytes.len();
    if pos >= len {
        return None;
    }
    let b = bytes[pos];
    proof {
        assert(suf[0] == bytes@[pos as int]);
    }
    if b == 0 {
        Some((Ok(()), pos + 1))
    } else if b == 1 {
        if len - pos >= 2 {
            let b1 = bytes[pos + 1];
            proof {
                assert(suf.skip(1) =~= bytes@.skip(pos as int + 1));
                assert(suf.skip(1)[0] == bytes@[pos as int + 1]);
            }
            if b1 == 0 {
                Some((Err(DSErrorCode::Failed), pos + 2))
            } else {
                None
            }
        } else {
            None
        }
    } else {
        None
    }
}

/// Copies a byte string.
pub fn clone_bytes(v: &Vec<u8>) -> (r: Vec<u8>)
    ensures
        r@ == v@,
{
    let mut r: Vec<u8> = Vec::new();
    let mut i: usize = 0;
    let len = v.len();
    while i < len
        invariant
            i <= len,
            len == v@.len(),
            r@ == v@.take(i as int),
        decreases len - i,
    {
        r.push(v[i]);
        i = i + 1;
        proof {
            assert(r@ =~= v@.take(i as int));
        }
    }
    proof {
        assert(v@.take(len as int) =~= v@);
    }
    r
}

/// The wire shape of a bond-and-stake input: the raw account bytes, then
/// the amount as a fixed-width little-endian integer.
pub open spec fn enc_bond_stake_input(b: BondStakeInput) -> Seq<u8> {
    b.account_id.bytes@ + le_bytes(b.value as nat, 16)
}

/// Appends the raw bytes of an account identifier.
pub fn encode_account_id(a: &AccountId, out: &mut Vec<u8>)
    ensures
        final(out)@ == old(out)@ + a.bytes@,
{
    let mut i: usize = 0;
    while i < 32
        invariant
            i <= 32,
            out@ == old(out)@ + a.bytes@.take(i as int),
        decreases 32 - i,
    {
        out.push(a.bytes[i]);
        i = i + 1;
        proof {
            assert(out@ =~= old(out)@ + a.bytes@.take(i as int));
        }
    }
    proof {
        assert(a.bytes@.take(32) =~= a.bytes@);
    }
}

/// Encodes a bond-and-stake input.
pub fn encode_bond_stake_input(b: &BondStakeInput) -> (out: Vec<u8>)
    ensures
        out@ == enc_bond_stake_input(*b),
{
    let mut out: Vec<u8> = Vec::new();
    encode_account_id(&b.account_id, &mut out);
    write_le(b.value, 16, &mut out);
    proof {
        assert(out@ =~= enc_bond_stake_input(*b));
    }
    out
}

} // verus!
