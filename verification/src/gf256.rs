//! Arithmetic in the field of 256 elements, the bytes read as polynomials
//! over GF(2) modulo x^8 + x^4 + x^3 + x + 1: addition is XOR, and
//! multiplication is carry-less multiplication reduced by that polynomial.

use vstd::prelude::*;

verus! {

/// `a` times x.
pub open spec fn xtime(a: u8) -> u8 {
    if a & 0x80u8 != 0u8 {
        (a << 1u8) ^ 0x1bu8
    } else {
        a << 1u8
    }
}

/// `a` if bit `k` of `b` is set, else 0.
pub open spec fn pick(a: u8, b: u8, k: u8) -> u8 {
    if (b >> k) & 1u8 != 0u8 {
        a
    } else {
        0u8
    }
}

/// The product of `a` and `b` in the field.
pub open spec fn gf_mul(a: u8, b: u8) -> u8 {
    let a1 = xtime(a);
    let a2 = xtime(a1);
    let a3 = xtime(a2);
    let a4 = xtime(a3);
    let a5 = xtime(a4);
    let a6 = xtime(a5);
    let a7 = xtime(a6);
    pick(a, b, 0) ^ pick(a1, b, 1) ^ pick(a2, b, 2) ^ pick(a3, b, 3) ^ pick(a4, b, 4) ^ pick(a5, b, 5) ^ pick(
        a6,
        b,
        6,
    ) ^ pick(a7, b, 7)
}

fn xtime_exec(a: u8) -> (r: u8)
    ensures
        r == xtime(a),
{
    if a & 0x80u8 != 0u8 {
        (a << 1u8) ^ 0x1bu8
    } else {
        a << 1u8
    }
}

fn pick_exec(a: u8, b: u8, k: u8) -> (r: u8)
    requires
        k < 8,
    ensures
        r == pick(a, b, k),
{
    if (b >> k) & 1u8 != 0u8 {
        a
    } else {
        0u8
    }
}

/// The product of `a` and `b` in the field.
pub fn gf_mul_exec(a: u8, b: u8) -> (r: u8)
    ensures
        r == gf_mul(a, b),
{
    let a1 = xtime_exec(a);
    let a2 = xtime_exec(a1);
    let a3 = xtime_exec(a2);
    let a4 = xtime_exec(a3);
    let a5 = xtime_exec(a4);
    let a6 = xtime_exec(a5);
    let a7 = xtime_exec(a6);
    pick_exec(a, b, 0) ^ pick_exec(a1, b, 1) ^ pick_exec(a2, b, 2) ^ pick_exec(a3, b, 3) ^ pick_exec(a4, b, 4)
        ^ pick_exec(a5, b, 5) ^ pick_exec(a6, b, 6) ^ pick_exec(a7, b, 7)
}

/// One is the unit of multiplication.
pub proof fn lemma_gf_mul_one(a: u8)
    ensures
        gf_mul(a, 1) == a,
{
    assert(gf_mul(a, 1) == a) by (bit_vector);
}

proof fn lemma_xtime_add(a: u8, b: u8)
    ensures
        xtime(a ^ b) == xtime(a) ^ xtime(b),
{
    assert(xtime(a ^ b) == xtime(a) ^ xtime(b)) by (bit_vector);
}

proof fn lemma_pick_add(a: u8, b: u8, c: u8, k: u8)
    ensures
        pick(a ^ b, c, k) == pick(a, c, k) ^ pick(b, c, k),
{
    assert(pick(a ^ b, c, k) == pick(a, c, k) ^ pick(b, c, k)) by (bit_vector);
}

proof fn lemma_xor_regroup(x0: u8, x1: u8, x2: u8, x3: u8, x4: u8, x5: u8, x6: u8, x7: u8, y0: u8, y1: u8, y2: u8, y3: u8, y4: u8, y5: u8, y6: u8, y7: u8)
    ensures
        (x0 ^ y0) ^ (x1 ^ y1) ^ (x2 ^ y2) ^ (x3 ^ y3) ^ (x4 ^ y4) ^ (x5 ^ y5) ^ (x6 ^ y6) ^ (x7 ^ y7) == (x0 ^ x1 ^ x2
            ^ x3 ^ x4 ^ x5 ^ x6 ^ x7) ^ (y0 ^ y1 ^ y2 ^ y3 ^ y4 ^ y5 ^ y6 ^ y7),
{
    assert((x0 ^ y0) ^ (x1 ^ y1) ^ (x2 ^ y2) ^ (x3 ^ y3) ^ (x4 ^ y4) ^ (x5 ^ y5) ^ (x6 ^ y6) ^ (x7 ^ y7) == (x0 ^ x1
        ^ x2 ^ x3 ^ x4 ^ x5 ^ x6 ^ x7) ^ (y0 ^ y1 ^ y2 ^ y3 ^ y4 ^ y5 ^ y6 ^ y7)) by (bit_vector);
}

/// Multiplication distributes over addition in its first factor.
pub proof fn lemma_gf_mul_add_left(a: u8, b: u8, c: u8)
    ensures
        gf_mul(a ^ b, c) == gf_mul(a, c) ^ gf_mul(b, c),
{
    let a1 = xtime(a);
    let a2 = xtime(a1);
    let a3 = xtime(a2);
    let a4 = xtime(a3);
    let a5 = xtime(a4);
    let a6 = xtime(a5);
    let a7 = xtime(a6);
    let b1 = xtime(b);
    let b2 = xtime(b1);
    let b3 = xtime(b2);
    let b4 = xtime(b3);
    let b5 = xtime(b4);
    let b6 = xtime(b5);
    let b7 = xtime(b6);
    lemma_xtime_add(a, b);
    lemma_xtime_add(a1, b1);
    lemma_xtime_add(a2, b2);
    lemma_xtime_add(a3, b3);
    lemma_xtime_add(a4, b4);
    lemma_xtime_add(a5, b5);
    lemma_xtime_add(a6, b6);
    lemma_pick_add(a, b, c, 0);
    lemma_pick_add(a1, b1, c, 1);
    lemma_pick_add(a2, b2, c, 2);
    lemma_pick_add(a3, b3, c, 3);
    lemma_pick_add(a4, b4, c, 4);
    lemma_pick_add(a5, b5, c, 5);
    lemma_pick_add(a6, b6, c, 6);
    lemma_pick_add(a7, b7, c, 7);
    lemma_xor_regroup(
        pick(a, c, 0),
        pick(a1, c, 1),
        pick(a2, c, 2),
        pick(a3, c, 3),
        pick(a4, c, 4),
        pick(a5, c, 5),
        pick(a6, c, 6),
        pick(a7, c, 7),
        pick(b, c, 0),
        pick(b1, c, 1),
        pick(b2, c, 2),
        pick(b3, c, 3),
        pick(b4, c, 4),
        pick(b5, c, 5),
        pick(b6, c, 6),
        pick(b7, c, 7),
    );
}

/// Multiplication distributes over addition in its second factor.
pub proof fn lemma_gf_mul_add_right(a: u8, b: u8, c: u8)
    ensures
        gf_mul(a, b ^ c) == gf_mul(a, b) ^ gf_mul(a, c),
{
    assert(gf_mul(a, b ^ c) == gf_mul(a, b) ^ gf_mul(a, c)) by (bit_vector);
}

/// The product of two nonzero elements is nonzero.
pub proof fn lemma_gf_no_zero_divisors(a: u8, b: u8)
    ensures
        a != 0 && b != 0 ==> gf_mul(a, b) != 0,
{
    assert(a != 0 && b != 0 ==> gf_mul(a, b) != 0) by (bit_vector);
}

/// Multiplying by a nonzero element loses nothing: equal products mean
/// equal factors.
pub proof fn lemma_gf_mul_cancel(x: u8, y: u8, c: u8)
    requires
        c != 0,
        gf_mul(x, c) == gf_mul(y, c),
    ensures
        x == y,
{
    lemma_gf_mul_add_left(x, y, c);
    let p = gf_mul(x, c);
    assert(p ^ p == 0) by (bit_vector);
    lemma_gf_no_zero_divisors(x ^ y, c);
    assert(x ^ y == 0 ==> x == y) by (bit_vector);
}

proof fn lemma_gf_mul_comm_nibbles(a: u8, b: u8)
    ensures
        gf_mul(a & 0x0fu8, b & 0x0fu8) == gf_mul(b & 0x0fu8, a & 0x0fu8),
        gf_mul(a & 0x0fu8, b & 0xf0u8) == gf_mul(b & 0xf0u8, a & 0x0fu8),
        gf_mul(a & 0xf0u8, b & 0x0fu8) == gf_mul(b & 0x0fu8, a & 0xf0u8),
        gf_mul(a & 0xf0u8, b & 0xf0u8) == gf_mul(b & 0xf0u8, a & 0xf0u8),
{
    assert(gf_mul(a & 0x0fu8, b & 0x0fu8) == gf_mul(b & 0x0fu8, a & 0x0fu8)) by (bit_vector);
    assert(gf_mul(a & 0x0fu8, b & 0xf0u8) == gf_mul(b & 0xf0u8, a & 0x0fu8)) by (bit_vector);
    assert(gf_mul(a & 0xf0u8, b & 0x0fu8) == gf_mul(b & 0x0fu8, a & 0xf0u8)) by (bit_vector);
    assert(gf_mul(a & 0xf0u8, b & 0xf0u8) == gf_mul(b & 0xf0u8, a & 0xf0u8)) by (bit_vector);
}

/// Multiplication commutes.
pub proof fn lemma_gf_mul_comm(a: u8, b: u8)
    ensures
        gf_mul(a, b) == gf_mul(b, a),
{
    let al = a & 0x0fu8;
    let ah = a & 0xf0u8;
    let bl = b & 0x0fu8;
    let bh = b & 0xf0u8;
    assert(a == (a & 0x0fu8) ^ (a & 0xf0u8) && b == (b & 0x0fu8) ^ (b & 0xf0u8)) by (bit_vector);
    lemma_gf_mul_comm_nibbles(a, b);
    lemma_gf_mul_add_left(al, ah, b);
    lemma_gf_mul_add_right(al, bl, bh);
    lemma_gf_mul_add_right(ah, bl, bh);
    lemma_gf_mul_add_left(bl, bh, a);
    lemma_gf_mul_add_right(bl, al, ah);
    lemma_gf_mul_add_right(bh, al, ah);
    let p1 = gf_mul(al, bl);
    let p2 = gf_mul(al, bh);
    let p3 = gf_mul(ah, bl);
    let p4 = gf_mul(ah, bh);
    assert((p1 ^ p2) ^ (p3 ^ p4) == (p1 ^ p3) ^ (p2 ^ p4)) by (bit_vector);
}

/// Multiplying by x commutes with multiplying by `b`.
proof fn lemma_xtime_mul(a: u8, b: u8)
    ensures
        xtime(gf_mul(a, b)) == gf_mul(xtime(a), b),
{
    assert(xtime(gf_mul(a, b)) == gf_mul(xtime(a), b)) by (bit_vector);
}

proof fn lemma_pick_mul(w: u8, p: u8, y: u8, k: u8)
    ensures
        pick(gf_mul(w, p), y, k) == gf_mul(pick(w, y, k), p),
{
    lemma_gf_mul_zero(p);
}

/// The two factors multiplied onto `u` may be taken in either order.
pub proof fn lemma_gf_mul_swap(u: u8, p: u8, y: u8)
    ensures
        gf_mul(gf_mul(u, p), y) == gf_mul(gf_mul(u, y), p),
{
    let u1 = xtime(u);
    let u2 = xtime(u1);
    let u3 = xtime(u2);
    let u4 = xtime(u3);
    let u5 = xtime(u4);
    let u6 = xtime(u5);
    let u7 = xtime(u6);
    lemma_xtime_mul(u, p);
    lemma_xtime_mul(u1, p);
    lemma_xtime_mul(u2, p);
    lemma_xtime_mul(u3, p);
    lemma_xtime_mul(u4, p);
    lemma_xtime_mul(u5, p);
    lemma_xtime_mul(u6, p);
    lemma_pick_mul(u, p, y, 0);
    lemma_pick_mul(u1, p, y, 1);
    lemma_pick_mul(u2, p, y, 2);
    lemma_pick_mul(u3, p, y, 3);
    lemma_pick_mul(u4, p, y, 4);
    lemma_pick_mul(u5, p, y, 5);
    lemma_pick_mul(u6, p, y, 6);
    lemma_pick_mul(u7, p, y, 7);
    let w0 = pick(u, y, 0);
    let w1 = pick(u1, y, 1);
    let w2 = pick(u2, y, 2);
    let w3 = pick(u3, y, 3);
    let w4 = pick(u4, y, 4);
    let w5 = pick(u5, y, 5);
    let w6 = pick(u6, y, 6);
    let w7 = pick(u7, y, 7);
    lemma_gf_mul_add_left(w0, w1, p);
    lemma_gf_mul_add_left(w0 ^ w1, w2, p);
    lemma_gf_mul_add_left(w0 ^ w1 ^ w2, w3, p);
    lemma_gf_mul_add_left(w0 ^ w1 ^ w2 ^ w3, w4, p);
    lemma_gf_mul_add_left(w0 ^ w1 ^ w2 ^ w3 ^ w4, w5, p);
    lemma_gf_mul_add_left(w0 ^ w1 ^ w2 ^ w3 ^ w4 ^ w5, w6, p);
    lemma_gf_mul_add_left(w0 ^ w1 ^ w2 ^ w3 ^ w4 ^ w5 ^ w6, w7, p);
}

/// Multiplication is associative.
pub proof fn lemma_gf_mul_assoc(a: u8, b: u8, c: u8)
    ensures
        gf_mul(gf_mul(a, b), c) == gf_mul(a, gf_mul(b, c)),
{
    lemma_gf_mul_swap(a, b, c);
    lemma_gf_mul_comm(a, c);
    lemma_gf_mul_swap(c, a, b);
    lemma_gf_mul_comm(c, b);
    lemma_gf_mul_comm(gf_mul(c, b), a);
    lemma_gf_mul_comm(gf_mul(b, c), a);
}

/// Zero annihilates.
pub proof fn lemma_gf_mul_zero(a: u8)
    ensures
        gf_mul(a, 0) == 0,
        gf_mul(0, a) == 0,
{
    assert(gf_mul(a, 0) == 0 && gf_mul(0, a) == 0) by (bit_vector);
}

/// The field element `x` with `x * c == t`, when there is one.
pub open spec fn gf_solve(t: u8, c: u8) -> u8 {
    if exists|x: u8| gf_mul(x, c) == t {
        choose|x: u8| gf_mul(x, c) == t
    } else {
        0
    }
}

/// For a nonzero `c`: which bytes are multiples of `c`, and the byte that
/// each multiple is `c` times.
pub fn solve_table(c: u8) -> (r: (Vec<bool>, Vec<u8>))
    requires
        c != 0,
    ensures
        r.0@.len() == 256,
        r.1@.len() == 256,
        forall|t: u8| (if r.0@[t as int] { r.1@[t as int] } else { 0u8 }) == #[trigger] gf_solve(t, c),
{
    let mut hit: Vec<bool> = Vec::new();
    let mut tab: Vec<u8> = Vec::new();
    let mut k: usize = 0;
    while k < 256
        invariant
            k <= 256,
            hit@.len() == k,
            tab@.len() == k,
            forall|t: int| 0 <= t < k ==> !(#[trigger] hit@[t]) && tab@[t] == 0,
        decreases 256 - k,
    {
        hit.push(false);
        tab.push(0u8);
        k = k + 1;
    }
    let mut x: u16 = 0;
    while x < 256
        invariant
            x <= 256,
            c != 0,
            hit@.len() == 256,
            tab@.len() == 256,
            forall|t: u8| #[trigger] hit@[t as int] ==> gf_mul(tab@[t as int], c) == t,
            forall|y: u8| y < x ==> #[trigger] hit@[gf_mul(y, c) as int],
            forall|t: u8| #[trigger] hit@[t as int] ==> exists|y: u8| y < x && #[trigger] gf_mul(y, c) == t,
        decreases 256 - x,
    {
        let xb = x as u8;
        let y = gf_mul_exec(xb, c);
        hit.set(y as usize, true);
        tab.set(y as usize, xb);
        proof {
            assert forall|t: u8| #[trigger] hit@[t as int] implies exists|z: u8| z < x + 1 && #[trigger] gf_mul(z, c) == t by {
                if t != y {
                    let z = choose|z: u8| z < x && #[trigger] gf_mul(z, c) == t;
                    assert(z < x + 1 && gf_mul(z, c) == t);
                } else {
                    assert(xb < x + 1 && gf_mul(xb, c) == t);
                }
            }
        }
        x = x + 1;
    }
    proof {
        assert forall|t: u8| (if hit@[t as int] { tab@[t as int] } else { 0u8 }) == #[trigger] gf_solve(t, c) by {
            if hit@[t as int] {
                let z = choose|z: u8| z < 256 && #[trigger] gf_mul(z, c) == t;
                assert(gf_mul(z, c) == t);
                let w = choose|w: u8| gf_mul(w, c) == t;
                lemma_gf_mul_cancel(w, tab@[t as int], c);
            } else {
                if exists|w: u8| gf_mul(w, c) == t {
                    let w = choose|w: u8| gf_mul(w, c) == t;
                    assert(hit@[gf_mul(w, c) as int]);
                }
            }
        }
    }
    (hit, tab)
}

} // verus!
