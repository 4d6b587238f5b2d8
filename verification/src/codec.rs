use vstd::prelude::*;
use vstd::arithmetic::div_mod::{
    lemma_fundamental_div_mod, lemma_fundamental_div_mod_converse, lemma_multiply_divide_lt,
};

verus! {

// Canonical byte encodings used for everything the ledger persists: amounts,
// composite bounty keys, and the root state record. All of them are fixed-width
// or length-prefixed little-endian base-256 forms, so that a value set has
// exactly one byte representation.

/// 256 raised to the power `n`.
pub open spec fn pow256(n: nat) -> nat
    decreases n,
{
    if n == 0 {
        1
    } else {
        256 * pow256((n - 1) as nat)
    }
}

/// The little-endian base-256 digits of `a`, exactly `n` bytes long
/// (higher digits are dropped if `a` does not fit).
pub open spec fn le_bytes(a: nat, n: nat) -> Seq<u8>
    decreases n,
{
    if n == 0 {
        Seq::empty()
    } else {
        seq![(a % 256) as u8] + le_bytes(a / 256, (n - 1) as nat)
    }
}

/// The number a little-endian base-256 byte string stands for.
pub open spec fn from_le(s: Seq<u8>) -> nat
    decreases s.len(),
{
    if s.len() == 0 {
        0
    } else {
        s[0] as nat + 256 * from_le(s.skip(1))
    }
}

pub proof fn lemma_pow256_16()
    ensures
        pow256(8) == 0x1_0000_0000_0000_0000,
        pow256(16) == 0x1_0000_0000_0000_0000_0000_0000_0000_0000,
{
    reveal_with_fuel(pow256, 17);
}

pub proof fn lemma_le_bytes_len(a: nat, n: nat)
    ensures
        le_bytes(a, n).len() == n,
    decreases n,
{
    if n > 0 {
        lemma_le_bytes_len(a / 256, (n - 1) as nat);
    }
}

pub proof fn lemma_from_le_bound(s: Seq<u8>)
    ensures
        from_le(s) < pow256(s.len()),
    decreases s.len(),
{
    if s.len() == 0 {
    } else {
        lemma_from_le_bound(s.skip(1));
        let r = from_le(s.skip(1));
        let p = pow256((s.len() - 1) as nat);
        assert(s[0] as nat + 256 * r < 256 * p) by (nonlinear_arith)
            requires
                r < p,
                s[0] < 256,
        ;
    }
}

/// Decoding inverts encoding: an `n`-byte little-endian string reads back as
/// the number it was written from, whenever that number fits in `n` bytes.
pub proof fn lemma_le_round_trip(a: nat, n: nat)
    requires
        a < pow256(n),
    ensures
        from_le(le_bytes(a, n)) == a,
    decreases n,
{
    if n == 0 {
    } else {
        let p = pow256((n - 1) as nat);
        assert(pow256(n) == 256 * p);
        if a > 0 {
            lemma_multiply_divide_lt(a as int, 256, p as int);
        }
        lemma_le_round_trip(a / 256, (n - 1) as nat);
        lemma_fundamental_div_mod(a as int, 256);
        let s = le_bytes(a, n);
        assert(s.skip(1) =~= le_bytes(a / 256, (n - 1) as nat));
        assert(s[0] == (a % 256) as u8);
    }
}

/// Encoding inverts decoding: re-encoding the number a byte string stands for,
/// at the string's own width, reproduces the string.
pub proof fn lemma_le_bytes_of_from_le(s: Seq<u8>)
    ensures
        le_bytes(from_le(s), s.len()) == s,
    decreases s.len(),
{
    if s.len() == 0 {
        assert(le_bytes(from_le(s), s.len()) =~= s);
    } else {
        let r = from_le(s.skip(1));
        let a = s[0] as nat + 256 * r;
        lemma_fundamental_div_mod_converse(a as int, 256, r as int, s[0] as int);
        lemma_le_bytes_of_from_le(s.skip(1));
        assert(le_bytes(a, s.len()) =~= s);
    }
}

/// Appends every byte of `src` to `dst`.
pub fn push_all(dst: &mut Vec<u8>, src: &Vec<u8>)
    ensures
        final(dst)@ == old(dst)@ + src@,
{
    let mut i: usize = 0;
    while i < src.len()
        invariant
            i <= src.len(),
            dst@ == old(dst)@ + src@.take(i as int),
        decreases src.len() - i,
    {
        dst.push(src[i]);
        proof {
            assert(old(dst)@ + src@.take(i + 1) =~= (old(dst)@ + src@.take(i as int)).push(
                src@[i as int],
            ));
        }
        i = i + 1;
    }
    proof {
        assert(src@.take(src@.len() as int) =~= src@);
    }
}

/// Copies the byte range `[from, to)` of `src` out into a fresh vector.
pub fn copy_range(src: &Vec<u8>, from: usize, to: usize) -> (r: Vec<u8>)
    requires
        from <= to <= src.len(),
    ensures
        r@ == src@.subrange(from as int, to as int),
{
    let mut out: Vec<u8> = Vec::new();
    let mut i: usize = from;
    while i < to
        invariant
            from <= i <= to <= src.len(),
            out@ == src@.subrange(from as int, i as int),
        decreases to - i,
    {
        out.push(src[i]);
        proof {
            assert(src@.subrange(from as int, i + 1) =~= src@.subrange(from as int, i as int).push(
                src@[i as int],
            ));
        }
        i = i + 1;
    }
    out
}

/// Writes `x` as exactly `n` little-endian base-256 bytes.
pub fn encode_le(x: u128, n: usize) -> (r: Vec<u8>)
    ensures
        r@ == le_bytes(x as nat, n as nat),
{
    let mut out: Vec<u8> = Vec::new();
    let mut cur: u128 = x;
    let mut i: usize = 0;
    while i < n
        invariant
            i <= n,
            out@ + le_bytes(cur as nat, (n - i) as nat) == le_bytes(x as nat, n as nat),
        decreases n - i,
    {
        proof {
            assert((out@ + seq![(cur % 256) as u8]) + le_bytes(cur as nat / 256, (n - i - 1) as nat)
                =~= out@ + (seq![(cur % 256) as u8] + le_bytes(cur as nat / 256, (n - i - 1) as nat)));
        }
        out.push((cur % 256) as u8);
        cur = cur / 256;
        i = i + 1;
    }
    proof {
        assert(out@ + le_bytes(cur as nat, 0) =~= out@);
    }
    out
}

/// Reads back a number of at most 16 little-endian base-256 bytes.
pub fn decode_le(b: &Vec<u8>) -> (r: u128)
    requires
        b@.len() <= 16,
    ensures
        r as nat == from_le(b@),
{
    proof {
        lemma_pow256_16();
    }
    let mut acc: u128 = 0;
    let mut i: usize = b.len();
    while i > 0
        invariant
            i <= b@.len() <= 16,
            acc as nat == from_le(b@.skip(i as int)),
        decreases i,
    {
        i = i - 1;
        proof {
            assert(b@.skip(i as int).skip(1) =~= b@.skip(i + 1));
            lemma_from_le_bound(b@.skip(i + 1));
            lemma_pow256_16();
            assert(pow256(b@.skip(i + 1).len()) <= pow256(15)) by {
                lemma_pow256_monotone(b@.skip(i + 1).len(), 15);
            }
            assert(256 * from_le(b@.skip(i + 1)) + b@[i as int] < 256 * pow256(15)) by (
            nonlinear_arith)
                requires
                    from_le(b@.skip(i + 1)) < pow256(15),
                    b@[i as int] < 256,
            ;
        }
        acc = acc * 256 + (b[i] as u128);
    }
    proof {
        assert(b@.skip(0) =~= b@);
    }
    acc
}

pub proof fn lemma_pow256_monotone(m: nat, n: nat)
    requires
        m <= n,
    ensures
        pow256(m) <= pow256(n),
    decreases n,
{
    if m < n {
        lemma_pow256_monotone(m, (n - 1) as nat);
        assert(pow256(n) == 256 * pow256((n - 1) as nat));
    }
}

// ---------------------------------------------------------------------------
// Amounts: one balance is stored as exactly 16 little-endian bytes.
// ---------------------------------------------------------------------------

pub open spec fn amount_enc_spec(a: u128) -> Seq<u8> {
    le_bytes(a as nat, 16)
}

pub open spec fn amount_dec_spec(s: Seq<u8>) -> Option<u128> {
    if s.len() == 16 {
        Some(from_le(s) as u128)
    } else {
        None
    }
}

pub fn encode_amount(a: u128) -> (r: Vec<u8>)
    ensures
        r@ == amount_enc_spec(a),
{
    encode_le(a, 16)
}

pub fn decode_amount(b: &Vec<u8>) -> (r: Option<u128>)
    ensures
        r == amount_dec_spec(b@),
{
    if b.len() == 16 {
        let v = decode_le(b);
        proof {
            lemma_from_le_bound(b@);
            lemma_pow256_16();
        }
        Some(v)
    } else {
        None
    }
}

/// A stored amount reads back exactly as it was written.
pub proof fn lemma_amount_round_trip(a: u128)
    ensures
        amount_dec_spec(amount_enc_spec(a)) == Some(a),
{
    lemma_le_bytes_len(a as nat, 16);
    lemma_pow256_16();
    lemma_le_round_trip(a as nat, 16);
}

// ---------------------------------------------------------------------------
// Pairs: two byte strings are framed as an 8-byte little-endian length of the
// first, then the first, then the second. This is the canonical form of both
// the composite bounty key and the root state record.
// ---------------------------------------------------------------------------

pub open spec fn lp_enc(a: Seq<u8>, b: Seq<u8>) -> Seq<u8> {
    le_bytes(a.len(), 8) + a + b
}

pub open spec fn lp_dec(s: Seq<u8>) -> Option<(Seq<u8>, Seq<u8>)> {
    if s.len() < 8 {
        None
    } else {
        let l = from_le(s.subrange(0, 8));
        if l + 8 <= s.len() {
            Some((s.subrange(8, 8 + l as int), s.subrange(8 + l as int, s.len() as int)))
        } else {
            None
        }
    }
}

/// Decoding inverts encoding for any pair whose first part's length fits in
/// the 8-byte prefix; every in-memory vector satisfies that bound.
pub proof fn lemma_lp_round_trip(a: Seq<u8>, b: Seq<u8>)
    requires
        a.len() < pow256(8),
    ensures
        lp_dec(lp_enc(a, b)) == Some((a, b)),
{
    lemma_le_bytes_len(a.len(), 8);
    lemma_le_round_trip(a.len(), 8);
    let s = lp_enc(a, b);
    assert(s.subrange(0, 8) =~= le_bytes(a.len(), 8));
    assert(s.subrange(8, 8 + a.len() as int) =~= a);
    assert(s.subrange(8 + a.len() as int, s.len() as int) =~= b);
}

/// Encoding inverts decoding: any byte string that parses as a pair is
/// reproduced exactly by re-encoding the two parts.
pub proof fn lemma_lp_dec_enc(s: Seq<u8>)
    requires
        lp_dec(s) is Some,
    ensures
        lp_enc(lp_dec(s).unwrap().0, lp_dec(s).unwrap().1) == s,
{
    let t = s.subrange(0, 8);
    let l = from_le(t);
    lemma_le_bytes_of_from_le(t);
    let a = s.subrange(8, 8 + l as int);
    let b = s.subrange(8 + l as int, s.len() as int);
    assert(le_bytes(a.len(), 8) == t);
    assert(lp_enc(a, b) =~= s);
}

/// The canonical pair form is injective: equal encodings mean equal parts.
pub proof fn lemma_lp_injective(a1: Seq<u8>, b1: Seq<u8>, a2: Seq<u8>, b2: Seq<u8>)
    requires
        a1.len() < pow256(8),
        a2.len() < pow256(8),
        lp_enc(a1, b1) == lp_enc(a2, b2),
    ensures
        a1 == a2,
        b1 == b2,
{
    lemma_lp_round_trip(a1, b1);
    lemma_lp_round_trip(a2, b2);
}

pub fn encode_pair(a: &Vec<u8>, b: &Vec<u8>) -> (r: Vec<u8>)
    ensures
        r@ == lp_enc(a@, b@),
{
    let mut out = encode_le(a.len() as u128, 8);
    push_all(&mut out, a);
    push_all(&mut out, b);
    out
}

pub fn decode_pair(s: &Vec<u8>) -> (r: Option<(Vec<u8>, Vec<u8>)>)
    ensures
        r matches Some(p) ==> lp_dec(s@) == Some((p.0@, p.1@)),
        r is None ==> lp_dec(s@) is None,
{
    if s.len() < 8 {
        return None;
    }
    let head = copy_range(s, 0, 8);
    let l = decode_le(&head);
    proof {
        lemma_from_le_bound(head@);
        lemma_pow256_16();
        lemma_pow256_monotone(8, 16);
    }
    if l > (s.len() - 8) as u128 {
        return None;
    }
    let lu = l as usize;
    let a = copy_range(s, 8, 8 + lu);
    let b = copy_range(s, 8 + lu, s.len());
    Some((a, b))
}

// ---------------------------------------------------------------------------
// Caller identities: an actor id becomes its canonical id-address byte form,
// a zero protocol byte followed by the unsigned LEB128 digits of the id.
// ---------------------------------------------------------------------------

pub open spec fn leb128(n: nat) -> Seq<u8>
    decreases n,
{
    if n < 128 {
        seq![n as u8]
    } else {
        seq![(128 + n % 128) as u8] + leb128(n / 128)
    }
}

pub open spec fn id_addr_spec(id: u64) -> Seq<u8> {
    seq![0u8] + leb128(id as nat)
}

pub fn id_address_bytes(id: u64) -> (r: Vec<u8>)
    ensures
        r@ == id_addr_spec(id),
{
    let mut out: Vec<u8> = Vec::new();
    out.push(0u8);
    let mut x: u64 = id;
    proof {
        assert(out@ + leb128(x as nat) =~= id_addr_spec(id));
    }
    while x >= 128
        invariant
            out@ + leb128(x as nat) == id_addr_spec(id),
        decreases x,
    {
        proof {
            assert((out@ + seq![(128 + (x as nat) % 128) as u8]) + leb128((x as nat) / 128) =~= out@
                + (seq![(128 + (x as nat) % 128) as u8] + leb128((x as nat) / 128)));
            assert((x as nat) / 128 < x as nat) by (nonlinear_arith)
                requires
                    x >= 128,
            ;
        }
        out.push(128u8 + (x % 128) as u8);
        x = x / 128;
    }
    proof {
        assert(leb128(x as nat) =~= seq![x as u8]);
    }
    out.push(x as u8);
    out
}

} // verus!
