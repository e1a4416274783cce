//! Solving for erased values in the field of 256 elements.
//!
//! `k` unknown bytes `u_0 .. u_{k-1}` sit at distinct points `x_0 ..
//! x_{k-1}`, and for each `p < k` the sum (XOR) of `u_t * x_t^p` is known.
//! These `k` equations determine the unknowns: multiplying equation `p` by
//! the last point and adding equation `p + 1` cancels the last unknown and
//! leaves a system of the same shape in `k - 1` unknowns, each scaled by
//! `x_t - x_last`; solving that, dividing the scale back out, and taking the
//! last unknown from equation 0 gives all of them.

use vstd::prelude::*;
use crate::fec::views;
use crate::gf256::{
    gf_mul, gf_mul_exec, gf_solve, solve_table, lemma_gf_mul_add_left, lemma_gf_mul_add_right,
    lemma_gf_mul_assoc, lemma_gf_mul_cancel, lemma_gf_mul_comm, lemma_gf_mul_one, lemma_gf_mul_swap,
    lemma_gf_mul_zero,
};

verus! {

/// `x` to the power `p`.
pub open spec fn gf_pow(x: u8, p: nat) -> u8
    decreases p,
{
    if p == 0 {
        1
    } else {
        gf_mul(gf_pow(x, (p - 1) as nat), x)
    }
}

/// XOR over the first `m` unknowns of `u_t * x_t^p`.
pub open spec fn vsum(xs: Seq<u8>, us: Seq<u8>, p: nat, m: int) -> u8
    decreases m,
{
    if m <= 0 {
        0
    } else {
        vsum(xs, us, p, m - 1) ^ gf_mul(us[m - 1], gf_pow(xs[m - 1], p))
    }
}

/// XOR of the first `m` bytes.
pub open spec fn xor_all(s: Seq<u8>, m: int) -> u8
    decreases m,
{
    if m <= 0 {
        0
    } else {
        xor_all(s, m - 1) ^ s[m - 1]
    }
}

/// The sums of the smaller system: sum `p + 1` plus `y` times sum `p`.
pub open spec fn reduce(y: u8, r: Seq<u8>) -> Seq<u8> {
    Seq::new((r.len() - 1) as nat, |p: int| r[p + 1] ^ gf_mul(r[p], y))
}

/// The unknowns at the points `xs` whose power sums are `r`.
pub open spec fn vsolve(xs: Seq<u8>, r: Seq<u8>) -> Seq<u8>
    decreases xs.len(),
{
    if xs.len() == 0 {
        Seq::empty()
    } else {
        let k = xs.len() - 1;
        let y = xs[k];
        let sub = vsolve(xs.drop_last(), reduce(y, r));
        let head = Seq::new(k as nat, |t: int| gf_solve(sub[t], xs[t] ^ y));
        head.push(r[0] ^ xor_all(head, k))
    }
}

/// The unknowns scaled by their distance to `y`.
pub open spec fn scaled(xs: Seq<u8>, us: Seq<u8>, y: u8) -> Seq<u8> {
    Seq::new(us.len(), |t: int| gf_mul(us[t], xs[t] ^ y))
}

proof fn lemma_xor_facts(a: u8, b: u8, c: u8, d: u8)
    ensures
        a ^ 0u8 == a,
        a ^ a == 0u8,
        a != b ==> a ^ b != 0u8,
        0u8 ^ 0u8 == 0u8,
        (a ^ b) ^ a == b,
        (a ^ b) ^ (c ^ d) == (a ^ c) ^ (b ^ d),
{
    assert(a ^ 0u8 == a && a ^ a == 0u8 && (a != b ==> a ^ b != 0u8) && 0u8 ^ 0u8 == 0u8 && (a ^ b) ^ a == b && (a ^ b) ^ (c ^ d) == (a ^ c) ^ (b ^ d)) by (bit_vector);
}

pub proof fn lemma_vsum_prefix(xs: Seq<u8>, us: Seq<u8>, xs2: Seq<u8>, us2: Seq<u8>, p: nat, m: int)
    requires
        forall|t: int| 0 <= t < m ==> xs[t] == xs2[t] && us[t] == us2[t],
    ensures
        vsum(xs, us, p, m) == vsum(xs2, us2, p, m),
    decreases m,
{
    if m > 0 {
        lemma_vsum_prefix(xs, us, xs2, us2, p, m - 1);
    }
}

proof fn lemma_xor_all_prefix(s: Seq<u8>, s2: Seq<u8>, m: int)
    requires
        forall|t: int| 0 <= t < m ==> s[t] == s2[t],
    ensures
        xor_all(s, m) == xor_all(s2, m),
    decreases m,
{
    if m > 0 {
        lemma_xor_all_prefix(s, s2, m - 1);
    }
}

/// The power sums of exponent 0 are plain XORs.
proof fn lemma_vsum_zero(xs: Seq<u8>, us: Seq<u8>, m: int)
    ensures
        vsum(xs, us, 0, m) == xor_all(us, m),
    decreases m,
{
    if m > 0 {
        lemma_vsum_zero(xs, us, m - 1);
        lemma_gf_mul_one(us[m - 1]);
    }
}

/// One term of the reduction: `u x^(p+1) + y u x^p == (u (x - y)) x^p`.
proof fn lemma_reduce_term(u: u8, x: u8, y: u8, p: nat)
    ensures
        gf_mul(u, gf_pow(x, p + 1)) ^ gf_mul(gf_mul(u, gf_pow(x, p)), y) == gf_mul(gf_mul(u, x ^ y), gf_pow(x, p)),
{
    let pw = gf_pow(x, p);
    assert(gf_pow(x, p + 1) == gf_mul(pw, x));
    lemma_gf_mul_assoc(u, pw, x);
    lemma_gf_mul_swap(u, pw, x);
    lemma_gf_mul_swap(u, pw, y);
    lemma_gf_mul_add_left(gf_mul(u, x), gf_mul(u, y), pw);
    lemma_gf_mul_add_right(u, x, y);
}

/// Sum `p + 1` plus `y` times sum `p` is sum `p` of the scaled unknowns.
proof fn lemma_reduce_sum(xs: Seq<u8>, us: Seq<u8>, p: nat, y: u8, m: int)
    requires
        m <= xs.len(),
        xs.len() == us.len(),
    ensures
        vsum(xs, us, p + 1, m) ^ gf_mul(vsum(xs, us, p, m), y) == vsum(xs, scaled(xs, us, y), p, m),
    decreases m,
{
    if m <= 0 {
        lemma_gf_mul_zero(y);
        lemma_xor_facts(0, 0, 0, 0);
    } else {
        lemma_reduce_sum(xs, us, p, y, m - 1);
        let a1 = vsum(xs, us, p + 1, m - 1);
        let a0 = vsum(xs, us, p, m - 1);
        let t1 = gf_mul(us[m - 1], gf_pow(xs[m - 1], p + 1));
        let t0 = gf_mul(us[m - 1], gf_pow(xs[m - 1], p));
        lemma_gf_mul_add_left(a0, t0, y);
        lemma_reduce_term(us[m - 1], xs[m - 1], y, p);
        let b0 = gf_mul(a0, y);
        let c0 = gf_mul(t0, y);
        lemma_xor_facts(a1, t1, b0, c0);
        assert(scaled(xs, us, y)[m - 1] == gf_mul(us[m - 1], xs[m - 1] ^ y));
    }
}

/// The power sums of `k` unknowns at `k` distinct points determine them.
pub proof fn lemma_vsolve(xs: Seq<u8>, us: Seq<u8>, r: Seq<u8>)
    requires
        xs.len() == us.len(),
        r.len() == xs.len(),
        xs.no_duplicates(),
        forall|p: int| 0 <= p < r.len() ==> #[trigger] r[p] == vsum(xs, us, p as nat, xs.len() as int),
    ensures
        vsolve(xs, r) == us,
    decreases xs.len(),
{
    if xs.len() > 0 {
        let k = xs.len() - 1;
        let y = xs[k];
        let xs1 = xs.drop_last();
        let w = scaled(xs, us, y);
        let us1 = w.drop_last();
        let r1 = reduce(y, r);
        assert forall|p: int| 0 <= p < r1.len() implies #[trigger] r1[p] == vsum(xs1, us1, p as nat, xs1.len() as int) by {
            lemma_reduce_sum(xs, us, p as nat, y, xs.len() as int);
            assert(r[p + 1] == vsum(xs, us, (p + 1) as nat, xs.len() as int));
            assert(w[k] == gf_mul(us[k], xs[k] ^ y));
            lemma_xor_facts(y, 0, 0, 0);
            lemma_gf_mul_zero(us[k]);
            lemma_gf_mul_zero(gf_pow(xs[k], p as nat));
            assert(vsum(xs, w, p as nat, k + 1) == vsum(xs, w, p as nat, k) ^ 0u8);
            lemma_xor_facts(vsum(xs, w, p as nat, k), 0, 0, 0);
            lemma_vsum_prefix(xs, w, xs1, us1, p as nat, k);
        }
        assert(xs1.no_duplicates()) by {
            assert forall|i: int, j: int| 0 <= i < xs1.len() && 0 <= j < xs1.len() && i != j implies xs1[i] != xs1[j] by {
                assert(xs1[i] == xs[i] && xs1[j] == xs[j]);
            }
        }
        lemma_vsolve(xs1, us1, r1);
        let sub = vsolve(xs1, r1);
        let head = Seq::new(k as nat, |t: int| gf_solve(sub[t], xs[t] ^ y));
        assert forall|t: int| 0 <= t < k implies #[trigger] head[t] == us[t] by {
            let c = xs[t] ^ y;
            assert(xs[t] != xs[k]);
            lemma_xor_facts(xs[t], y, 0, 0);
            assert(gf_mul(us[t], c) == sub[t]);
            let z = choose|z: u8| gf_mul(z, c) == sub[t];
            lemma_gf_mul_cancel(z, us[t], c);
        }
        lemma_xor_all_prefix(head, us, k);
        lemma_vsum_zero(xs, us, xs.len() as int);
        assert(r[0] == vsum(xs, us, 0, xs.len() as int));
        let a = xor_all(us, k);
        let b = us[k];
        lemma_xor_facts(a, b, 0, 0);
        assert(vsolve(xs, r) =~= us);
    }
}

/// Column `j` of some rows.
pub open spec fn column(rows: Seq<Seq<u8>>, j: int) -> Seq<u8> {
    Seq::new(rows.len(), |p: int| rows[p][j])
}

/// All but the last unknown, as `vsolve` finds them.
pub open spec fn vhead(xs: Seq<u8>, r: Seq<u8>) -> Seq<u8> {
    let k = xs.len() - 1;
    let y = xs[k];
    let sub = vsolve(xs.drop_last(), reduce(y, r));
    Seq::new(k as nat, |t: int| gf_solve(sub[t], xs[t] ^ y))
}

/// Solves, position by position, the systems whose power sums are the
/// columns of `rows`, at the distinct points `xs`: row `t` of the result
/// holds unknown `t` at every position.
pub fn solve_rows(xs: &Vec<u8>, rows: &Vec<Vec<u8>>, size: usize) -> (out: Vec<Vec<u8>>)
    requires
        rows@.len() == xs@.len(),
        xs@.no_duplicates(),
        forall|p: int| 0 <= p < rows@.len() ==> #[trigger] rows@[p]@.len() == size,
    ensures
        out@.len() == xs@.len(),
        forall|t: int| 0 <= t < out@.len() ==> #[trigger] out@[t]@.len() == size,
        forall|t: int, j: int|
            0 <= t < out@.len() && 0 <= j < size ==> #[trigger] out@[t]@[j] == vsolve(xs@, column(views(rows@), j))[t],
    decreases xs@.len(),
{
    let k = xs.len();
    if k == 0 {
        return Vec::new();
    }
    let y = xs[k - 1];
    let mut red: Vec<Vec<u8>> = Vec::new();
    let mut p: usize = 0;
    while p + 1 < k
        invariant
            p < k,
            k == rows@.len(),
            forall|q: int| 0 <= q < rows@.len() ==> #[trigger] rows@[q]@.len() == size,
            red@.len() == p,
            forall|q: int| 0 <= q < p ==> #[trigger] red@[q]@.len() == size,
            forall|q: int, j: int|
                0 <= q < p && 0 <= j < size ==> #[trigger] red@[q]@[j] == rows@[q + 1]@[j] ^ gf_mul(rows@[q]@[j], y),
        decreases k - p,
    {
        let mut row: Vec<u8> = Vec::new();
        let mut j: usize = 0;
        while j < size
            invariant
                j <= size,
                p + 1 < k,
                k == rows@.len(),
                forall|q: int| 0 <= q < rows@.len() ==> #[trigger] rows@[q]@.len() == size,
                row@.len() == j,
                forall|jj: int| 0 <= jj < j ==> #[trigger] row@[jj] == rows@[p + 1]@[jj] ^ gf_mul(rows@[p as int]@[jj], y),
            decreases size - j,
        {
            assert(rows@[p + 1]@.len() == size && rows@[p as int]@.len() == size);
            let v = rows[p + 1][j] ^ gf_mul_exec(rows[p][j], y);
            row.push(v);
            j = j + 1;
        }
        red.push(row);
        p = p + 1;
    }
    let mut xs1: Vec<u8> = Vec::new();
    let mut i: usize = 0;
    while i + 1 < k
        invariant
            i < k,
            k == xs@.len(),
            xs1@ == xs@.take(i as int),
        decreases k - i,
    {
        xs1.push(xs[i]);
        i = i + 1;
        assert(xs1@ =~= xs@.take(i as int));
    }
    assert(xs1@ =~= xs@.drop_last());
    assert(xs1@.no_duplicates()) by {
        assert forall|a: int, b: int| 0 <= a < xs1@.len() && 0 <= b < xs1@.len() && a != b implies xs1@[a] != xs1@[b] by {
            assert(xs1@[a] == xs@[a] && xs1@[b] == xs@[b]);
        }
    }
    assert forall|q: int| 0 <= q < red@.len() implies #[trigger] red@[q]@.len() == size by {}
    let sub = solve_rows(&xs1, &red, size);
    proof {
        assert forall|j: int| 0 <= j < size implies #[trigger] column(views(red@), j) == reduce(y, column(views(rows@), j)) by {
            assert(column(views(red@), j) =~= reduce(y, column(views(rows@), j)));
        }
    }
    let mut out: Vec<Vec<u8>> = Vec::new();
    let mut acc: Vec<u8> = Vec::new();
    let mut j: usize = 0;
    while j < size
        invariant
            j <= size,
            acc@.len() == j,
            forall|jj: int| 0 <= jj < j ==> #[trigger] acc@[jj] == 0u8,
        decreases size - j,
    {
        acc.push(0u8);
        j = j + 1;
    }
    let mut t: usize = 0;
    while t + 1 < k
        invariant
            t < k,
            k == xs@.len(),
            k == rows@.len(),
            y == xs@[k - 1],
            xs@.no_duplicates(),
            sub@.len() == k - 1,
            forall|q: int| 0 <= q < sub@.len() ==> #[trigger] sub@[q]@.len() == size,
            forall|q: int, jj: int|
                0 <= q < sub@.len() && 0 <= jj < size ==> #[trigger] sub@[q]@[jj] == vsolve(xs1@, column(views(red@), jj))[q],
            xs1@ == xs@.drop_last(),
            forall|jj: int| 0 <= jj < size ==> #[trigger] column(views(red@), jj) == reduce(y, column(views(rows@), jj)),
            acc@.len() == size,
            out@.len() == t,
            forall|q: int| 0 <= q < t ==> #[trigger] out@[q]@.len() == size,
            forall|q: int, jj: int|
                0 <= q < t && 0 <= jj < size ==> #[trigger] out@[q]@[jj] == vhead(xs@, column(views(rows@), jj))[q],
            forall|jj: int| 0 <= jj < size ==> #[trigger] acc@[jj] == xor_all(vhead(xs@, column(views(rows@), jj)), t as int),
        decreases k - t,
    {
        let c = xs[t] ^ y;
        proof {
            assert(xs@[t as int] != xs@[k - 1]);
            lemma_xor_facts(xs@[t as int], y, 0, 0);
        }
        let (hit, tab) = solve_table(c);
        let mut row: Vec<u8> = Vec::new();
        let mut j: usize = 0;
        while j < size
            invariant
                j <= size,
                t + 1 < k,
                k == xs@.len(),
                y == xs@[k - 1],
                c == xs@[t as int] ^ y,
                hit@.len() == 256,
                tab@.len() == 256,
                forall|v: u8| (if hit@[v as int] { tab@[v as int] } else { 0u8 }) == #[trigger] gf_solve(v, c),
                sub@.len() == k - 1,
                forall|q: int| 0 <= q < sub@.len() ==> #[trigger] sub@[q]@.len() == size,
                forall|q: int, jj: int|
                    0 <= q < sub@.len() && 0 <= jj < size ==> #[trigger] sub@[q]@[jj] == vsolve(xs1@, column(views(red@), jj))[q],
                xs1@ == xs@.drop_last(),
                forall|jj: int| 0 <= jj < size ==> #[trigger] column(views(red@), jj) == reduce(y, column(views(rows@), jj)),
                acc@.len() == size,
                row@.len() == j,
                forall|jj: int| 0 <= jj < j ==> #[trigger] row@[jj] == vhead(xs@, column(views(rows@), jj))[t as int],
                forall|jj: int| 0 <= jj < j ==> #[trigger] acc@[jj] == xor_all(vhead(xs@, column(views(rows@), jj)), t + 1),
                forall|jj: int| j <= jj < size ==> #[trigger] acc@[jj] == xor_all(vhead(xs@, column(views(rows@), jj)), t as int),
            decreases size - j,
        {
            assert(sub@[t as int]@.len() == size);
            let s = sub[t][j];
            let v = if hit[s as usize] {
                tab[s as usize]
            } else {
                0u8
            };
            proof {
                let col = column(views(rows@), j as int);
                assert(s == vsolve(xs1@, column(views(red@), j as int))[t as int]);
                assert(v == gf_solve(s, c));
                assert(vhead(xs@, col)[t as int] == v);
            }
            row.push(v);
            let a = acc[j] ^ v;
            acc.set(j, a);
            j = j + 1;
        }
        out.push(row);
        t = t + 1;
    }
    let mut last: Vec<u8> = Vec::new();
    let mut j: usize = 0;
    while j < size
        invariant
            j <= size,
            k == xs@.len(),
            k == rows@.len(),
            k >= 1,
            forall|q: int| 0 <= q < rows@.len() ==> #[trigger] rows@[q]@.len() == size,
            acc@.len() == size,
            forall|jj: int| 0 <= jj < size ==> #[trigger] acc@[jj] == xor_all(vhead(xs@, column(views(rows@), jj)), k - 1),
            last@.len() == j,
            forall|jj: int| 0 <= jj < j ==> #[trigger] last@[jj] == rows@[0]@[jj] ^ xor_all(vhead(xs@, column(views(rows@), jj)), k - 1),
        decreases size - j,
    {
        assert(rows@[0]@.len() == size);
        let v = rows[0][j] ^ acc[j];
        last.push(v);
        j = j + 1;
    }
    out.push(last);
    proof {
        assert forall|q: int, jj: int| 0 <= q < out@.len() && 0 <= jj < size implies #[trigger] out@[q]@[jj] == vsolve(
            xs@,
            column(views(rows@), jj),
        )[q] by {
            let col = column(views(rows@), jj);
            assert(vsolve(xs@, col) == vhead(xs@, col).push(col[0] ^ xor_all(vhead(xs@, col), k - 1)));
            assert(col[0] == rows@[0]@[jj]);
        }
    }
    out
}

} // verus!
