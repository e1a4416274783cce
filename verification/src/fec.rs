//! Forward error correction: data is cut into fixed-size shards, grouped
//! into blocks, and each block carries parity shards, Reed-Solomon style.
//!
//! Data shard `i` stands for the field element `i + 1` of the field of 256
//! elements, and parity shard `p` holds, at byte `j`, the XOR over the data
//! shards of `shard_i[j] * (i + 1)^p`; the first parity shard is the plain
//! XOR. When a block lost `k` data shards and has at least `k` parity
//! shards, the first `k` parity shards give `k` equations in the lost bytes
//! at each position, which are solved exactly (see `erasure`). The points
//! are distinct when the block has at most 255 data shards; a block whose
//! listed shards cannot be solved for that way has each listed shard
//! rebuilt from the first parity shard in turn.

use vstd::prelude::*;
use crate::erasure::{gf_pow, vsolve, vsum, lemma_vsolve, lemma_vsum_prefix, solve_rows, column};
use crate::gf256::{gf_mul, gf_mul_exec, lemma_gf_mul_one};
use std::collections::HashMap;
use crate::codec::append_bytes;

verus! {

broadcast use vstd::std_specs::hash::group_hash_axioms;

/// FEC configuration.
#[derive(Debug, Clone, Copy, PartialEq, Eq, Structural)]
pub struct FecConfig {
    /// Number of data shards (original packets)
    pub data_shards: usize,
    /// Number of parity shards (redundancy packets)
    pub parity_shards: usize,
    /// Shard size in bytes
    pub shard_size: usize,
    /// Enable adaptive FEC based on packet loss rate
    pub adaptive: bool,
}

impl FecConfig {
    /// The default configuration.
    pub open spec fn default_spec() -> Self {
        FecConfig { data_shards: 8, parity_shards: 2, shard_size: 1024, adaptive: true }
    }

    /// Configuration for low packet loss (< 1%): 16 data, 1 parity.
    pub fn low_loss() -> (c: Self)
        ensures
            c == (FecConfig { data_shards: 16, parity_shards: 1, shard_size: 1024, adaptive: true }),
    {
        FecConfig { data_shards: 16, parity_shards: 1, shard_size: 1024, adaptive: true }
    }

    /// Configuration for medium packet loss (1-5%): 8 data, 2 parity.
    pub fn medium_loss() -> (c: Self)
        ensures
            c == (FecConfig { data_shards: 8, parity_shards: 2, shard_size: 1024, adaptive: true }),
    {
        FecConfig { data_shards: 8, parity_shards: 2, shard_size: 1024, adaptive: true }
    }

    /// Configuration for high packet loss (5-10%): 4 data, 2 parity.
    pub fn high_loss() -> (c: Self)
        ensures
            c == (FecConfig { data_shards: 4, parity_shards: 2, shard_size: 1024, adaptive: true }),
    {
        FecConfig { data_shards: 4, parity_shards: 2, shard_size: 1024, adaptive: true }
    }

    /// Maximum number of lost shards per block that decoding accepts.
    pub fn max_recoverable_loss(&self) -> (r: usize)
        ensures
            r == self.parity_shards,
    {
        self.parity_shards
    }
}

impl Default for FecConfig {
    /// 8 data shards, 2 parity shards of 1 KB, adaptive.
    fn default() -> (c: Self)
        ensures
            c == Self::default_spec(),
    {
        FecConfig { data_shards: 8, parity_shards: 2, shard_size: 1024, adaptive: true }
    }
}

/// The field element that stands for data shard `i`: the byte `i + 1`.
pub open spec fn point(i: int) -> u8 {
    ((i + 1) % 256) as u8
}

/// Weight of data shard `i` in parity shard `p`: its point to the power
/// `p`, so the first parity shard is the plain XOR of the data shards.
pub open spec fn coef(i: int, p: int) -> u8 {
    gf_pow(point(i), p as nat)
}

/// Contribution of data shard `i` at byte `j` to parity shard `p`; bytes
/// past the end of a shard contribute nothing.
pub open spec fn term(shards: Seq<Seq<u8>>, i: int, j: int, p: int) -> u8 {
    if 0 <= j < shards[i].len() {
        gf_mul(shards[i][j], coef(i, p))
    } else {
        0
    }
}

/// XOR of the contributions at byte `j` of the first `n` data shards to
/// parity shard `p`, leaving out shard `skip`.
pub open spec fn xor_fold(shards: Seq<Seq<u8>>, n: int, j: int, p: int, skip: int) -> u8
    decreases n,
{
    if n <= 0 {
        0
    } else {
        let prev = xor_fold(shards, n - 1, j, p, skip);
        if n - 1 == skip {
            prev
        } else {
            prev ^ term(shards, n - 1, j, p)
        }
    }
}

/// Parity shard `p` of `size` bytes over the given data shards.
pub open spec fn parity_shard(shards: Seq<Seq<u8>>, p: int, size: nat) -> Seq<u8> {
    Seq::new(size, |j: int| xor_fold(shards, shards.len() as int, j, p, -1))
}

/// The shard rebuilt for a lost data shard `lost` from the other data
/// shards and the first parity shard.
pub open spec fn rebuilt_shard(shards: Seq<Seq<u8>>, parity0: Seq<u8>, lost: int, size: nat) -> Seq<u8> {
    Seq::new(
        size,
        |j: int|
            xor_fold(shards, shards.len() as int, j, 0, lost) ^ (if j < parity0.len() {
                parity0[j]
            } else {
                0u8
            }),
    )
}

/// Byte `j` of a shard, or 0 past its end.
pub open spec fn byte_or_zero(s: Seq<u8>, j: int) -> u8 {
    if 0 <= j < s.len() {
        s[j]
    } else {
        0
    }
}

/// The byte views of a list of shards.
pub open spec fn views(v: Seq<Vec<u8>>) -> Seq<Seq<u8>> {
    v.map_values(|s: Vec<u8>| s@)
}

/// Whether every shard is at most `size` bytes long.
pub open spec fn shards_fit(shards: Seq<Seq<u8>>, size: nat) -> bool {
    forall|i: int| 0 <= i < shards.len() ==> #[trigger] shards[i].len() <= size
}

proof fn lemma_xor_zero(a: u8)
    ensures
        a ^ 0 == a,
        0 ^ a == a,
        a ^ a == 0,
{
    assert(a ^ 0 == a && 0 ^ a == a && a ^ a == 0) by (bit_vector);
}

proof fn lemma_xor_assoc(a: u8, b: u8, c: u8)
    ensures
        (a ^ b) ^ c == a ^ (b ^ c),
        a ^ b == b ^ a,
{
    assert((a ^ b) ^ c == a ^ (b ^ c) && a ^ b == b ^ a) by (bit_vector);
}

/// Leaving one shard out of the XOR and adding it back gives the full XOR.
pub proof fn lemma_xor_fold_skip(shards: Seq<Seq<u8>>, n: int, j: int, p: int, skip: int)
    requires
        0 <= skip < n,
    ensures
        xor_fold(shards, n, j, p, -1) == xor_fold(shards, n, j, p, skip) ^ term(shards, skip, j, p),
    decreases n,
{
    let t = term(shards, skip, j, p);
    if n - 1 == skip {
        if skip > 0 {
            lemma_xor_fold_same(shards, n - 1, j, p, skip);
        }
        assert(xor_fold(shards, n - 1, j, p, -1) == xor_fold(shards, n - 1, j, p, skip)) by {
            lemma_xor_fold_same(shards, n - 1, j, p, skip);
        }
    } else {
        lemma_xor_fold_skip(shards, n - 1, j, p, skip);
        let a = xor_fold(shards, n - 1, j, p, skip);
        let u = term(shards, n - 1, j, p);
        lemma_xor_assoc(a, t, u);
        lemma_xor_assoc(a, u, t);
        lemma_xor_assoc(t, u, 0);
    }
}

/// Skipping an index at or past `n` changes nothing.
proof fn lemma_xor_fold_same(shards: Seq<Seq<u8>>, n: int, j: int, p: int, skip: int)
    requires
        skip >= n,
    ensures
        xor_fold(shards, n, j, p, -1) == xor_fold(shards, n, j, p, skip),
    decreases n,
{
    if n > 0 {
        lemma_xor_fold_same(shards, n - 1, j, p, skip);
    }
}

/// A lost data shard is rebuilt exactly from the other data shards and the
/// first parity shard, when that parity shard is the true one and every
/// shard has the full size.
pub proof fn lemma_rebuilt_shard(shards: Seq<Seq<u8>>, lost: int, size: nat)
    requires
        0 <= lost < shards.len(),
        forall|i: int| 0 <= i < shards.len() ==> #[trigger] shards[i].len() == size,
    ensures
        rebuilt_shard(shards, parity_shard(shards, 0, size), lost, size) == shards[lost],
{
    let par = parity_shard(shards, 0, size);
    let r = rebuilt_shard(shards, par, lost, size);
    assert forall|j: int| 0 <= j < size implies r[j] == shards[lost][j] by {
        let a = xor_fold(shards, shards.len() as int, j, 0, lost);
        let t = term(shards, lost, j, 0);
        lemma_xor_fold_skip(shards, shards.len() as int, j, 0, lost);
        assert(par[j] == a ^ t);
        lemma_xor_assoc(a, a, t);
        lemma_xor_zero(a);
        lemma_xor_zero(t);
        lemma_gf_mul_one(shards[lost][j]);
        assert(t == shards[lost][j]);
    }
    assert(r =~= shards[lost]);
}

/// FEC-encoded block.
#[derive(Debug, Clone)]
pub struct FecBlock {
    /// Block ID
    pub block_id: u64,
    /// Data shards
    pub data_shards: Vec<Vec<u8>>,
    /// Parity shards
    pub parity_shards: Vec<Vec<u8>>,
    /// Total shards (data + parity)
    pub total_shards: usize,
}

/// Why decoding failed.
#[derive(Debug, Clone, Copy, PartialEq, Eq, Structural)]
pub enum FecError {
    /// A block lost more shards than there are parity shards.
    Unrecoverable { block_id: u64, lost: usize, recoverable: usize },
}

/// Which loss profile to tune the codec for.
#[derive(Debug, Clone, Copy, PartialEq, Eq, Structural)]
pub enum LossProfile {
    /// Under 1% packet loss.
    Low,
    /// From 1% to 5% packet loss.
    Medium,
    /// Above 5% packet loss.
    High,
}

/// The configuration of a loss profile.
pub open spec fn profile_config(p: LossProfile) -> FecConfig {
    match p {
        LossProfile::Low => FecConfig { data_shards: 16, parity_shards: 1, shard_size: 1024, adaptive: true },
        LossProfile::Medium => FecConfig { data_shards: 8, parity_shards: 2, shard_size: 1024, adaptive: true },
        LossProfile::High => FecConfig { data_shards: 4, parity_shards: 2, shard_size: 1024, adaptive: true },
    }
}

/// Concatenation of a list of byte strings.
pub open spec fn flatten(ss: Seq<Seq<u8>>) -> Seq<u8>
    decreases ss.len(),
{
    if ss.len() == 0 {
        Seq::empty()
    } else {
        flatten(ss.drop_last()) + ss.last()
    }
}

/// Data shards after rebuilding the lost ones listed, one after the other.
/// Indices past the data shards, or a block without parity, rebuild nothing.
pub open spec fn recover_spec(data: Seq<Seq<u8>>, parity: Seq<Seq<u8>>, lost: Seq<usize>, size: nat) -> Seq<Seq<u8>>
    decreases lost.len(),
{
    if lost.len() == 0 {
        data
    } else {
        let prev = recover_spec(data, parity, lost.drop_last(), size);
        let l = lost.last() as int;
        if l >= data.len() || parity.len() == 0 {
            prev
        } else {
            prev.update(l, rebuilt_shard(data, parity[0], l, size))
        }
    }
}

/// Rebuilding will read the shards: there is parity and some listed index
/// names a data shard.
pub open spec fn rebuild_needed(data_len: nat, parity_len: nat, lost: Seq<usize>) -> bool {
    parity_len > 0 && exists|k: int| 0 <= k < lost.len() && (#[trigger] lost[k]) < data_len
}

/// The shards have the size that rebuilding needs: no data shard and no
/// parity shard is longer than `size`.
pub open spec fn block_fits(b: FecBlock, size: nat) -> bool {
    &&& shards_fit(views(b.data_shards@), size)
    &&& shards_fit(views(b.parity_shards@), size)
}

/// The lost shard list of a block: its entry in the map, or none.
pub open spec fn lost_of(m: Map<u64, Vec<usize>>, id: u64) -> Seq<usize> {
    if m.contains_key(id) {
        m[id]@
    } else {
        Seq::empty()
    }
}

/// The data shard indices listed in `lost`, each once, in the order they
/// are first listed.
pub open spec fn lost_data(lost: Seq<usize>, n: nat) -> Seq<usize>
    decreases lost.len(),
{
    if lost.len() == 0 {
        Seq::empty()
    } else {
        let d = lost_data(lost.drop_last(), n);
        if lost.last() < n && !d.contains(lost.last()) {
            d.push(lost.last())
        } else {
            d
        }
    }
}

/// The points of the listed data shards.
pub open spec fn points(d: Seq<usize>) -> Seq<u8> {
    Seq::new(d.len(), |t: int| point(d[t] as int))
}

/// XOR of the contributions at byte `j` of the first `n` data shards to
/// parity shard `p`, leaving out the shards listed in `d`.
pub open spec fn xor_fold_out(shards: Seq<Seq<u8>>, n: int, j: int, p: int, d: Seq<usize>) -> u8
    decreases n,
{
    if n <= 0 {
        0
    } else {
        let prev = xor_fold_out(shards, n - 1, j, p, d);
        if d.contains((n - 1) as usize) {
            prev
        } else {
            prev ^ term(shards, n - 1, j, p)
        }
    }
}

/// XOR of the contributions at byte `j` of the first `n` data shards to
/// parity shard `p`, taking only the shards listed in `d`.
pub open spec fn xor_fold_in(shards: Seq<Seq<u8>>, n: int, j: int, p: int, d: Seq<usize>) -> u8
    decreases n,
{
    if n <= 0 {
        0
    } else {
        let prev = xor_fold_in(shards, n - 1, j, p, d);
        if d.contains((n - 1) as usize) {
            prev ^ term(shards, n - 1, j, p)
        } else {
            prev
        }
    }
}

/// Byte `j` of parity shard `p` with the contributions of every data shard
/// not listed in `d` taken out.
pub open spec fn residual(shards: Seq<Seq<u8>>, par: Seq<u8>, p: int, d: Seq<usize>, j: int) -> u8 {
    xor_fold_out(shards, shards.len() as int, j, p, d) ^ byte_or_zero(par, j)
}

/// The residuals at byte `j` of the first `d.len()` parity shards.
pub open spec fn residuals(shards: Seq<Seq<u8>>, parity: Seq<Seq<u8>>, d: Seq<usize>, j: int) -> Seq<u8> {
    Seq::new(d.len(), |p: int| residual(shards, parity[p], p, d, j))
}

/// The shards listed in `d`, solved for from the other data shards and the
/// first `d.len()` parity shards.
pub open spec fn solved(shards: Seq<Seq<u8>>, parity: Seq<Seq<u8>>, d: Seq<usize>, size: nat) -> Seq<Seq<u8>> {
    Seq::new(d.len(), |t: int| Seq::new(size, |j: int| vsolve(points(d), residuals(shards, parity, d, j))[t]))
}

/// The shards with shard `d[t]` replaced by `rows[t]`.
pub open spec fn patch(data: Seq<Seq<u8>>, d: Seq<usize>, rows: Seq<Seq<u8>>) -> Seq<Seq<u8>>
    decreases d.len(),
{
    if d.len() == 0 {
        data
    } else {
        patch(data, d.drop_last(), rows.take(d.len() - 1)).update(d.last() as int, rows[d.len() - 1])
    }
}

/// The listed data shards can be solved for: there are as many parity
/// shards as listed shards, and the listed shards have distinct points.
pub open spec fn can_solve(parity_len: nat, d: Seq<usize>) -> bool {
    &&& 1 <= d.len() <= parity_len
    &&& points(d).no_duplicates()
}

/// Data shards after rebuilding the lost ones. The listed data shards are
/// solved for together from as many parity shards, when the block has that
/// many and their points differ; otherwise each listed shard is rebuilt
/// from the first parity shard in turn.
pub open spec fn recover_block(data: Seq<Seq<u8>>, parity: Seq<Seq<u8>>, lost: Seq<usize>, size: nat) -> Seq<Seq<u8>> {
    let d = lost_data(lost, data.len());
    if d.len() == 0 {
        data
    } else if can_solve(parity.len(), d) {
        patch(data, d, solved(data, parity, d, size))
    } else {
        recover_spec(data, parity, lost, size)
    }
}

/// The bytes a block decodes to, given its lost shard list.
pub open spec fn block_output(b: FecBlock, lost: Seq<usize>, size: nat) -> Seq<u8> {
    if lost.len() == 0 {
        flatten(views(b.data_shards@))
    } else {
        flatten(recover_block(views(b.data_shards@), views(b.parity_shards@), lost, size))
    }
}

/// Decoding a list of blocks: the outputs of the blocks one after the
/// other, or the error of the first block that lost more shards than
/// `max_lost`.
pub open spec fn spec_fec_decode(blocks: Seq<FecBlock>, m: Map<u64, Vec<usize>>, max_lost: nat, size: nat) -> Result<Seq<u8>, FecError>
    decreases blocks.len(),
{
    if blocks.len() == 0 {
        Ok(Seq::empty())
    } else {
        match spec_fec_decode(blocks.drop_last(), m, max_lost, size) {
            Err(e) => Err(e),
            Ok(out) => {
                let b = blocks.last();
                let l = lost_of(m, b.block_id);
                if l.len() > max_lost {
                    Err(FecError::Unrecoverable { block_id: b.block_id, lost: l.len() as usize, recoverable: max_lost as usize })
                } else {
                    Ok(out + block_output(b, l, size))
                }
            },
        }
    }
}

/// `S` bytes of `data` starting at `pos`, zero-padded past its end.
pub open spec fn shard_at(data: Seq<u8>, pos: int, size: nat) -> Seq<u8> {
    Seq::new(size, |i: int| if pos + i < data.len() { data[pos + i] } else { 0u8 })
}

/// `data` zero-padded (or cut) to `n` bytes.
pub open spec fn padded(data: Seq<u8>, n: nat) -> Seq<u8> {
    Seq::new(n, |i: int| if i < data.len() { data[i] } else { 0u8 })
}

/// Block `k` as the encoder builds it from `data`: its id, its data shards
/// cut from consecutive stretches of the zero-padded data, and its parity
/// shards over them.
pub open spec fn encoded_block(b: FecBlock, k: int, data: Seq<u8>, c: FecConfig) -> bool {
    &&& b.block_id == k
    &&& b.total_shards == c.data_shards + c.parity_shards
    &&& b.data_shards@.len() == c.data_shards
    &&& forall|j: int| 0 <= j < c.data_shards ==> (#[trigger] b.data_shards@[j])@ == shard_at(
        data,
        (k * c.data_shards + j) * c.shard_size,
        c.shard_size as nat,
    )
    &&& b.parity_shards@.len() == c.parity_shards
    &&& forall|p: int| 0 <= p < c.parity_shards ==> (#[trigger] b.parity_shards@[p])@ == parity_shard(
        views(b.data_shards@),
        p,
        c.shard_size as nat,
    )
}

/// All bytes of all data shards of the blocks, in order.
pub open spec fn flatten_blocks(blocks: Seq<FecBlock>) -> Seq<u8>
    decreases blocks.len(),
{
    if blocks.len() == 0 {
        Seq::empty()
    } else {
        flatten_blocks(blocks.drop_last()) + flatten(views(blocks.last().data_shards@))
    }
}

/// The encoder's inputs can be processed: an empty input, or a positive
/// shard size and shard count, without the arithmetic on offsets and shard
/// counts overflowing.
pub open spec fn encode_ok(c: FecConfig, len: nat) -> bool {
    &&& c.data_shards + c.parity_shards <= usize::MAX
    &&& len > 0 ==> (c.shard_size > 0 && c.data_shards > 0 && len - 1 + c.shard_size <= usize::MAX)
}

/// `n` zero bytes.
fn zeros(n: usize) -> (v: Vec<u8>)
    ensures
        v@ == Seq::new(n as nat, |i: int| 0u8),
{
    let mut v: Vec<u8> = Vec::new();
    let mut i: usize = 0;
    while i < n
        invariant
            i <= n,
            v@ == Seq::new(i as nat, |k: int| 0u8),
        decreases n - i,
    {
        v.push(0u8);
        i = i + 1;
        assert(v@ =~= Seq::new(i as nat, |k: int| 0u8));
    }
    v
}

/// A copy of a byte vector.
fn copy_bytes(v: &Vec<u8>) -> (r: Vec<u8>)
    ensures
        r@ == v@,
{
    let mut r: Vec<u8> = Vec::new();
    let mut i: usize = 0;
    while i < v.len()
        invariant
            i <= v@.len(),
            r@ == v@.take(i as int),
        decreases v@.len() - i,
    {
        r.push(v[i]);
        assert(v@.take(i + 1) =~= v@.take(i as int).push(v@[i as int]));
        i = i + 1;
    }
    assert(v@.take(v@.len() as int) =~= v@);
    r
}

/// A copy of a list of shards.
fn copy_shards(v: &Vec<Vec<u8>>) -> (r: Vec<Vec<u8>>)
    ensures
        views(r@) == views(v@),
{
    let mut r: Vec<Vec<u8>> = Vec::new();
    let mut i: usize = 0;
    while i < v.len()
        invariant
            i <= v@.len(),
            r@.len() == i,
            forall|k: int| 0 <= k < i ==> (#[trigger] r@[k])@ == v@[k]@,
        decreases v@.len() - i,
    {
        let c = copy_bytes(&v[i]);
        r.push(c);
        i = i + 1;
    }
    assert(views(r@) =~= views(v@));
    r
}

/// Appends all the shards, one after the other.
fn append_shards(out: &mut Vec<u8>, shards: &Vec<Vec<u8>>)
    ensures
        final(out)@ == old(out)@ + flatten(views(shards@)),
{
    let mut i: usize = 0;
    while i < shards.len()
        invariant
            i <= shards@.len(),
            out@ == old(out)@ + flatten(views(shards@).take(i as int)),
        decreases shards@.len() - i,
    {
        append_bytes(out, shards[i].as_slice());
        assert(views(shards@).take(i + 1).drop_last() =~= views(shards@).take(i as int));
        assert(views(shards@).take(i + 1).last() == shards@[i as int]@);
        i = i + 1;
    }
    assert(views(shards@).take(shards@.len() as int) =~= views(shards@));
}

/// Once decoding a prefix of the blocks fails, decoding any longer prefix
/// fails the same way.
proof fn lemma_decode_err_sticks(blocks: Seq<FecBlock>, m: Map<u64, Vec<usize>>, max_lost: nat, size: nat, n: int, e: FecError)
    requires
        0 <= n <= blocks.len(),
        spec_fec_decode(blocks.take(n), m, max_lost, size) == Err::<Seq<u8>, FecError>(e),
    ensures
        spec_fec_decode(blocks, m, max_lost, size) == Err::<Seq<u8>, FecError>(e),
    decreases blocks.len() - n,
{
    if n == blocks.len() {
        assert(blocks.take(n) =~= blocks);
    } else {
        assert(blocks.take(n + 1).drop_last() =~= blocks.take(n));
        lemma_decode_err_sticks(blocks, m, max_lost, size, n + 1, e);
    }
}

/// Decoding can run without panicking: every block that decoding reaches
/// and that needs rebuilding has shards of the configured size at most.
#[verifier::opaque]
pub open spec fn decode_ok(blocks: Seq<FecBlock>, m: Map<u64, Vec<usize>>, max_lost: nat, size: nat) -> bool {
    forall|k: int|
        0 <= k < blocks.len() && spec_fec_decode(blocks.take(k), m, max_lost, size) is Ok
            && lost_of(m, blocks[k].block_id).len() <= max_lost && rebuild_needed(
            blocks[k].data_shards@.len(),
            blocks[k].parity_shards@.len(),
            lost_of(m, blocks[k].block_id),
        ) ==> block_fits(#[trigger] blocks[k], size)
}

/// The blocks are what the encoder makes of `data`: each block as
/// `encoded_block` says, just enough blocks to cover the data, and the data
/// shards of all blocks together spelling out the zero-padded data.
pub open spec fn encoded_blocks(bs: Seq<FecBlock>, data: Seq<u8>, c: FecConfig) -> bool {
    &&& forall|k: int| 0 <= k < bs.len() ==> encoded_block(#[trigger] bs[k], k, data, c)
    &&& bs.len() * (c.data_shards * c.shard_size) >= data.len()
    &&& bs.len() > 0 ==> (bs.len() - 1) * (c.data_shards * c.shard_size) < data.len()
    &&& flatten_blocks(bs) == padded(data, (bs.len() * (c.data_shards * c.shard_size)) as nat)
}

proof fn lemma_shard_pos(k: int, d: int, sz: int, j: int)
    ensures
        k * (d * sz) + j * sz == (k * d + j) * sz,
        k * (d * sz) + (j + 1) * sz == k * (d * sz) + j * sz + sz,
        (k + 1) * (d * sz) == k * (d * sz) + d * sz,
        d * sz == d * sz + 0 * sz,
{
    assert(k * (d * sz) + j * sz == (k * d + j) * sz) by (nonlinear_arith);
    assert((j + 1) * sz == j * sz + sz) by (nonlinear_arith);
    assert((k + 1) * (d * sz) == k * (d * sz) + d * sz) by (nonlinear_arith);
    assert(0 * sz == 0) by (nonlinear_arith);
}

proof fn lemma_padded_extend(data: Seq<u8>, pos: int, size: nat)
    requires
        pos >= 0,
    ensures
        padded(data, (pos + size) as nat) == padded(data, pos as nat) + shard_at(data, pos, size),
{
    assert(padded(data, (pos + size) as nat) =~= padded(data, pos as nat) + shard_at(data, pos, size));
}

/// When no block lists a lost shard, decoding gives the data shards of all
/// blocks, one after the other.
pub proof fn lemma_decode_without_losses(blocks: Seq<FecBlock>, m: Map<u64, Vec<usize>>, max_lost: nat, size: nat)
    requires
        forall|k: int| 0 <= k < blocks.len() ==> lost_of(m, (#[trigger] blocks[k]).block_id).len() == 0,
    ensures
        spec_fec_decode(blocks, m, max_lost, size) == Ok::<Seq<u8>, FecError>(flatten_blocks(blocks)),
    decreases blocks.len(),
{
    if blocks.len() > 0 {
        let init = blocks.drop_last();
        assert forall|k: int| 0 <= k < init.len() implies lost_of(m, (#[trigger] init[k]).block_id).len() == 0 by {
            assert(init[k] == blocks[k]);
        }
        lemma_decode_without_losses(init, m, max_lost, size);
        assert(blocks.last() == blocks[blocks.len() - 1]);
    }
}

/// Every data shard that a list names is among its listed data shards.
proof fn lemma_lost_data_complete(l: Seq<usize>, n: nat)
    ensures
        forall|k: int| 0 <= k < l.len() && (#[trigger] l[k]) < n ==> lost_data(l, n).contains(l[k]),
    decreases l.len(),
{
    if l.len() > 0 {
        let init = l.drop_last();
        lemma_lost_data_complete(init, n);
        let d = lost_data(init, n);
        assert forall|k: int| 0 <= k < l.len() && (#[trigger] l[k]) < n implies lost_data(l, n).contains(l[k]) by {
            if k < init.len() {
                assert(init[k] == l[k]);
                assert(d.contains(l[k]));
                let q = choose|q: int| 0 <= q < d.len() && d[q] == l[k];
                if l.last() < n && !d.contains(l.last()) {
                    assert(d.push(l.last())[q] == l[k]);
                }
            } else {
                assert(l[k] == l.last());
                if !d.contains(l.last()) {
                    assert(d.push(l.last())[d.len() as int] == l[k]);
                }
            }
        }
    }
}

/// Block `r` is block `b` as received with the lost-shard list `l`: the
/// same id, shard count and parity shards, every data shard that `l` does
/// not name arrived intact (the named ones may hold anything), and `l` is
/// no longer than the parity.
pub open spec fn repairable(r: FecBlock, b: FecBlock, l: Seq<usize>, c: FecConfig) -> bool {
    &&& r.block_id == b.block_id
    &&& r.total_shards == b.total_shards
    &&& views(r.parity_shards@) == views(b.parity_shards@)
    &&& r.data_shards@.len() == b.data_shards@.len()
    &&& l.len() <= c.parity_shards
    &&& forall|i: int|
        0 <= i < b.data_shards@.len() && !l.contains(i as usize) ==> (#[trigger] r.data_shards@[i])@ == b.data_shards@[i]@
}

/// Byte `j` of each listed shard.
pub open spec fn lost_column(shards: Seq<Seq<u8>>, d: Seq<usize>, j: int) -> Seq<u8> {
    Seq::new(d.len(), |t: int| shards[d[t] as int][j])
}

proof fn lemma_xor3(a: u8, b: u8, c: u8)
    ensures
        (a ^ b) ^ c == (a ^ c) ^ b,
        (a ^ b) ^ c == a ^ (b ^ c),
        a ^ (a ^ b) == b,
        a ^ 0u8 == a,
        0u8 ^ 0u8 == 0u8,
{
    assert((a ^ b) ^ c == (a ^ c) ^ b && (a ^ b) ^ c == a ^ (b ^ c) && a ^ (a ^ b) == b && a ^ 0u8 == a && 0u8 ^ 0u8
        == 0u8) by (bit_vector);
}

/// The full XOR splits into the part of the unlisted shards and the part
/// of the listed ones.
proof fn lemma_fold_split(sh: Seq<Seq<u8>>, n: int, j: int, p: int, d: Seq<usize>)
    requires
        n >= 0,
    ensures
        xor_fold(sh, n, j, p, -1) == xor_fold_out(sh, n, j, p, d) ^ xor_fold_in(sh, n, j, p, d),
    decreases n,
{
    if n > 0 {
        lemma_fold_split(sh, n - 1, j, p, d);
        let o = xor_fold_out(sh, n - 1, j, p, d);
        let i = xor_fold_in(sh, n - 1, j, p, d);
        lemma_xor3(o, i, term(sh, n - 1, j, p));
    } else {
        lemma_xor3(0, 0, 0);
    }
}

/// The unlisted part reads only the unlisted shards.
proof fn lemma_fold_out_agree(a: Seq<Seq<u8>>, b: Seq<Seq<u8>>, n: int, j: int, p: int, d: Seq<usize>)
    requires
        forall|i: int| 0 <= i < n && !d.contains(i as usize) ==> #[trigger] a[i] == b[i],
    ensures
        xor_fold_out(a, n, j, p, d) == xor_fold_out(b, n, j, p, d),
    decreases n,
{
    if n > 0 {
        lemma_fold_out_agree(a, b, n - 1, j, p, d);
    }
}

proof fn lemma_fold_in_empty(sh: Seq<Seq<u8>>, m: int, j: int, p: int)
    ensures
        xor_fold_in(sh, m, j, p, Seq::<usize>::empty()) == 0,
    decreases m,
{
    if m > 0 {
        lemma_fold_in_empty(sh, m - 1, j, p);
    }
}

/// Listing one more shard adds its contribution to the listed part.
proof fn lemma_fold_in_push(sh: Seq<Seq<u8>>, m: int, j: int, p: int, d: Seq<usize>, e: usize)
    requires
        !d.contains(e),
        m <= usize::MAX,
    ensures
        xor_fold_in(sh, m, j, p, d.push(e)) == xor_fold_in(sh, m, j, p, d) ^ (if e < m {
            term(sh, e as int, j, p)
        } else {
            0u8
        }),
    decreases m,
{
    let d1 = d.push(e);
    if m > 0 {
        lemma_fold_in_push(sh, m - 1, j, p, d, e);
        let i = (m - 1) as usize;
        let a = xor_fold_in(sh, m - 1, j, p, d);
        let t = term(sh, m - 1, j, p);
        let x = if e < m - 1 {
            term(sh, e as int, j, p)
        } else {
            0u8
        };
        assert(d1.contains(i) == (d.contains(i) || i == e)) by {
            if d1.contains(i) {
                let q = choose|q: int| 0 <= q < d1.len() && d1[q] == i;
                if q < d.len() {
                    assert(d[q] == i);
                }
            }
            if d.contains(i) {
                let q = choose|q: int| 0 <= q < d.len() && d[q] == i;
                assert(d1[q] == i);
            }
            if i == e {
                assert(d1[d.len() as int] == e);
            }
        }
        if i == e {
            assert(!d.contains(i));
            assert(d1.contains(i));
            assert(x == 0u8);
            lemma_xor3(a, 0, t);
            lemma_xor3(a ^ t, 0, 0);
            assert(xor_fold_in(sh, m, j, p, d1) == (a ^ x) ^ t);
            assert(xor_fold_in(sh, m, j, p, d) == a);
        } else if d.contains(i) {
            assert(d1.contains(i));
            lemma_xor3(a, x, t);
            assert(xor_fold_in(sh, m, j, p, d1) == (a ^ x) ^ t);
            assert(xor_fold_in(sh, m, j, p, d) == a ^ t);
        } else {
            assert(!d1.contains(i));
            assert(xor_fold_in(sh, m, j, p, d1) == a ^ x);
            assert(xor_fold_in(sh, m, j, p, d) == a);
        }
    } else {
        lemma_xor3(0, 0, 0);
    }
}

/// The listed part, taken in shard order, is the power sum of the listed
/// shards taken in list order.
proof fn lemma_fold_in_vsum(sh: Seq<Seq<u8>>, n: int, j: int, p: int, d: Seq<usize>, size: nat)
    requires
        0 <= p,
        n <= usize::MAX,
        n <= sh.len(),
        0 <= j < size,
        forall|i: int| 0 <= i < sh.len() ==> #[trigger] sh[i].len() == size,
        d.no_duplicates(),
        forall|t: int| 0 <= t < d.len() ==> (#[trigger] d[t]) < n,
    ensures
        xor_fold_in(sh, n, j, p, d) == vsum(points(d), lost_column(sh, d, j), p as nat, d.len() as int),
    decreases d.len(),
{
    if d.len() == 0 {
        lemma_fold_in_empty(sh, n, j, p);
        assert(d =~= Seq::<usize>::empty());
    } else {
        let d0 = d.drop_last();
        let e = d.last();
        assert(d =~= d0.push(e));
        assert(!d0.contains(e)) by {
            if d0.contains(e) {
                let q = choose|q: int| 0 <= q < d0.len() && d0[q] == e;
                assert(d[q] == d[d.len() - 1]);
            }
        }
        assert(d0.no_duplicates()) by {
            assert forall|a: int, b: int| 0 <= a < d0.len() && 0 <= b < d0.len() && a != b implies d0[a] != d0[b] by {
                assert(d0[a] == d[a] && d0[b] == d[b]);
            }
        }
        assert forall|t: int| 0 <= t < d0.len() implies (#[trigger] d0[t]) < n by {
            assert(d0[t] == d[t]);
        }
        lemma_fold_in_vsum(sh, n, j, p, d0, size);
        lemma_fold_in_push(sh, n, j, p, d0, e);
        assert(d[d.len() - 1] == e);
        let k = d.len() as int;
        assert forall|t: int| 0 <= t < k - 1 implies points(d0)[t] == points(d)[t] && lost_column(sh, d0, j)[t]
            == lost_column(sh, d, j)[t] by {
            assert(d0[t] == d[t]);
        }
        lemma_vsum_prefix(points(d0), lost_column(sh, d0, j), points(d), lost_column(sh, d, j), p as nat, k - 1);
        assert(points(d)[k - 1] == point(e as int));
        assert(lost_column(sh, d, j)[k - 1] == sh[e as int][j]);
        assert(e < n);
        assert(term(sh, e as int, j, p) == gf_mul(sh[e as int][j], gf_pow(point(e as int), p as nat)));
        assert(xor_fold_in(sh, n, j, p, d) == xor_fold_in(sh, n, j, p, d0) ^ term(sh, e as int, j, p));
    }
}

/// Replacing the listed shards by rows that hold the target's shards gives
/// the target at the listed shards and leaves the others.
proof fn lemma_patch(data: Seq<Seq<u8>>, d: Seq<usize>, rows: Seq<Seq<u8>>, target: Seq<Seq<u8>>)
    requires
        data.len() == target.len(),
        data.len() <= usize::MAX,
        rows.len() == d.len(),
        forall|t: int| 0 <= t < d.len() ==> (#[trigger] d[t]) < data.len(),
        forall|t: int| 0 <= t < d.len() ==> #[trigger] rows[t] == target[d[t] as int],
    ensures
        patch(data, d, rows).len() == data.len(),
        forall|i: int|
            0 <= i < data.len() ==> #[trigger] patch(data, d, rows)[i] == (if d.contains(i as usize) {
                target[i]
            } else {
                data[i]
            }),
    decreases d.len(),
{
    if d.len() > 0 {
        let d0 = d.drop_last();
        let r0 = rows.take(d.len() - 1);
        let e = d.last();
        assert forall|t: int| 0 <= t < d0.len() implies #[trigger] r0[t] == target[d0[t] as int] && d0[t] < data.len() by {
            assert(r0[t] == rows[t] && d0[t] == d[t]);
        }
        lemma_patch(data, d0, r0, target);
        assert(d[d.len() - 1] == e);
        assert(d0.len() == d.len() - 1);
        assert(patch(data, d, rows) == patch(data, d0, r0).update(e as int, rows[d.len() - 1]));
        assert(rows[d.len() - 1] == target[e as int]);
        assert forall|i: int| 0 <= i < data.len() implies #[trigger] patch(data, d, rows)[i] == (if d.contains(i as usize) {
            target[i]
        } else {
            data[i]
        }) by {
            if i as usize == e {
                assert(d.contains(e));
                assert(i == e as int);
            } else {
                assert(i != e as int);
                assert(patch(data, d, rows)[i] == patch(data, d0, r0)[i]);
                if d.contains(i as usize) {
                    let q = choose|q: int| 0 <= q < d.len() && d[q] == i as usize;
                    assert(d0[q] == d[q]);
                }
                if d0.contains(i as usize) {
                    let q = choose|q: int| 0 <= q < d0.len() && d0[q] == i as usize;
                    assert(d[q] == d0[q]);
                }
            }
        }
    }
}

/// With no data shard listed, rebuilding one listed shard after another
/// changes nothing.
proof fn lemma_recover_none(data: Seq<Seq<u8>>, parity: Seq<Seq<u8>>, l: Seq<usize>, size: nat)
    requires
        forall|k: int| 0 <= k < l.len() ==> (#[trigger] l[k]) >= data.len(),
    ensures
        recover_spec(data, parity, l, size) == data,
    decreases l.len(),
{
    if l.len() > 0 {
        let init = l.drop_last();
        assert forall|k: int| 0 <= k < init.len() implies (#[trigger] init[k]) >= data.len() by {
            assert(init[k] == l[k]);
        }
        lemma_recover_none(data, parity, init, size);
        assert(l[l.len() - 1] == l.last());
    }
}

/// The listed data shards number no more than the entries of the list.
proof fn lemma_lost_data_len(l: Seq<usize>, n: nat)
    ensures
        lost_data(l, n).len() <= l.len(),
    decreases l.len(),
{
    if l.len() > 0 {
        lemma_lost_data_len(l.drop_last(), n);
    }
}

/// Distinct shards below 255 have distinct points.
proof fn lemma_points_distinct(d: Seq<usize>)
    requires
        d.no_duplicates(),
        forall|t: int| 0 <= t < d.len() ==> (#[trigger] d[t]) < 255,
    ensures
        points(d).no_duplicates(),
{
    assert forall|a: int, b: int| 0 <= a < d.len() && 0 <= b < d.len() && a != b implies points(d)[a] != points(d)[b] by {
        assert(d[a] != d[b]);
        assert(d[a] < 255 && d[b] < 255);
    }
}

/// A block the encoder made, received with any data shards damaged,
/// whatever their bytes, and a lost-shard list that names them and is no
/// longer than the parity, decodes to its original bytes. The field has 256
/// elements, so the block may hold at most 256 shards.
pub proof fn lemma_block_repaired(r: FecBlock, b: FecBlock, k: int, data: Seq<u8>, c: FecConfig, l: Seq<usize>)
    requires
        encoded_block(b, k, data, c),
        repairable(r, b, l, c),
        c.data_shards + c.parity_shards <= 256,
    ensures
        block_output(r, l, c.shard_size as nat) == flatten(views(b.data_shards@)),
{
    let sh = views(b.data_shards@);
    let got = views(r.data_shards@);
    let par = views(r.parity_shards@);
    let size = c.shard_size as nat;
    let n = sh.len();
    let d = lost_data(l, n);
    lemma_lost_data_props(l, n);
    lemma_lost_data_complete(l, n);
    lemma_lost_data_len(l, n);
    assert forall|i: int| 0 <= i < sh.len() implies #[trigger] sh[i].len() == size by {
        assert(sh[i] == b.data_shards@[i]@);
    }
    assert forall|i: int| 0 <= i < n && !d.contains(i as usize) implies #[trigger] got[i] == sh[i] by {
        assert(got[i] == r.data_shards@[i]@);
        assert(sh[i] == b.data_shards@[i]@);
        if l.contains(i as usize) {
            let q = choose|q: int| 0 <= q < l.len() && l[q] == i as usize;
            assert(d.contains(l[q]));
        }
    }
    if d.len() == 0 {
        assert(got =~= sh);
    } else {
        assert(c.parity_shards >= 1);
        assert forall|t: int| 0 <= t < d.len() implies (#[trigger] d[t]) < 255 by {}
        lemma_points_distinct(d);
        assert(par.len() == c.parity_shards);
        assert(can_solve(par.len(), d));
        let rows = solved(got, par, d, size);
        assert forall|t: int| 0 <= t < d.len() implies #[trigger] rows[t] == sh[d[t] as int] by {
            assert forall|jj: int| 0 <= jj < size implies #[trigger] rows[t][jj] == sh[d[t] as int][jj] by {
                let col = lost_column(sh, d, jj);
                let res = residuals(got, par, d, jj);
                assert forall|q: int| 0 <= q < res.len() implies #[trigger] res[q] == vsum(
                    points(d),
                    col,
                    q as nat,
                    points(d).len() as int,
                ) by {
                    assert(par[q] == b.parity_shards@[q]@);
                    assert(par[q] == parity_shard(sh, q, size));
                    lemma_fold_out_agree(got, sh, n as int, jj, q, d);
                    lemma_fold_split(sh, n as int, jj, q, d);
                    lemma_fold_in_vsum(sh, n as int, jj, q, d, size);
                    lemma_xor3(xor_fold_out(sh, n as int, jj, q, d), xor_fold_in(sh, n as int, jj, q, d), 0);
                }
                lemma_vsolve(points(d), col, res);
            }
            assert(rows[t] =~= sh[d[t] as int]);
        }
        lemma_patch(got, d, rows, sh);
        assert(patch(got, d, rows) =~= sh);
    }
}

/// Encoding then decoding gives back the data, zero-padded to a whole
/// number of blocks, when each block arrives with the data shards that its
/// lost-shard list names damaged, whatever their bytes, and that list is no
/// longer than the parity; the data is a prefix of the result. The field
/// has 256 elements, so a block may hold at most 256 shards.
pub proof fn lemma_fec_roundtrip(bs: Seq<FecBlock>, rs: Seq<FecBlock>, data: Seq<u8>, c: FecConfig, m: Map<u64, Vec<usize>>)
    requires
        encoded_blocks(bs, data, c),
        c.data_shards + c.parity_shards <= 256,
        rs.len() == bs.len(),
        forall|k: int| 0 <= k < bs.len() ==> repairable(#[trigger] rs[k], bs[k], lost_of(m, bs[k].block_id), c),
    ensures
        spec_fec_decode(rs, m, c.parity_shards as nat, c.shard_size as nat) == Ok::<Seq<u8>, FecError>(
            padded(data, (bs.len() * (c.data_shards * c.shard_size)) as nat),
        ),
        padded(data, (bs.len() * (c.data_shards * c.shard_size)) as nat).take(data.len() as int) == data,
{
    lemma_decode_prefixes(bs, rs, data, c, m, bs.len() as int);
    assert(bs.take(bs.len() as int) =~= bs);
    assert(rs.take(rs.len() as int) =~= rs);
    let n = (bs.len() * (c.data_shards * c.shard_size)) as nat;
    assert(padded(data, n).take(data.len() as int) =~= data);
}

proof fn lemma_decode_prefixes(bs: Seq<FecBlock>, rs: Seq<FecBlock>, data: Seq<u8>, c: FecConfig, m: Map<u64, Vec<usize>>, n: int)
    requires
        0 <= n <= bs.len(),
        rs.len() == bs.len(),
        c.data_shards + c.parity_shards <= 256,
        forall|k: int| 0 <= k < bs.len() ==> encoded_block(#[trigger] bs[k], k, data, c),
        forall|k: int| 0 <= k < bs.len() ==> repairable(#[trigger] rs[k], bs[k], lost_of(m, bs[k].block_id), c),
    ensures
        spec_fec_decode(rs.take(n), m, c.parity_shards as nat, c.shard_size as nat) == Ok::<Seq<u8>, FecError>(
            flatten_blocks(bs.take(n)),
        ),
    decreases n,
{
    if n > 0 {
        lemma_decode_prefixes(bs, rs, data, c, m, n - 1);
        let t = rs.take(n);
        assert(t.drop_last() =~= rs.take(n - 1));
        assert(bs.take(n).drop_last() =~= bs.take(n - 1));
        let b = bs[n - 1];
        let r = rs[n - 1];
        assert(t.last() == r);
        assert(bs.take(n).last() == b);
        let l = lost_of(m, b.block_id);
        lemma_block_repaired(r, b, n - 1, data, c, l);
        assert(lost_of(m, r.block_id) == l);
    }
}

/// The listed data shards are data shards that the list names, each once.
proof fn lemma_lost_data_props(l: Seq<usize>, n: nat)
    ensures
        forall|k: int| 0 <= k < lost_data(l, n).len() ==> #[trigger] lost_data(l, n)[k] < n && l.contains(lost_data(l, n)[k]),
        lost_data(l, n).no_duplicates(),
    decreases l.len(),
{
    if l.len() > 0 {
        let init = l.drop_last();
        lemma_lost_data_props(init, n);
        let d = lost_data(init, n);
        assert forall|k: int| 0 <= k < d.len() implies l.contains(#[trigger] d[k]) by {
            let i = choose|i: int| 0 <= i < init.len() && init[i] == d[k];
            assert(l[i] == init[i]);
        }
        assert(l[l.len() - 1] == l.last());
    }
}

/// The data shard indices of a lost-shard list, each once, in the order
/// they are first listed.
fn lost_data_exec(lost: &[usize], n: usize) -> (d: Vec<usize>)
    ensures
        d@ == lost_data(lost@, n as nat),
{
    let mut d: Vec<usize> = Vec::new();
    let mut k: usize = 0;
    assert(lost@.take(0) =~= Seq::<usize>::empty());
    while k < lost.len()
        invariant
            k <= lost@.len(),
            d@ == lost_data(lost@.take(k as int), n as nat),
        decreases lost@.len() - k,
    {
        let x = lost[k];
        let mut seen = false;
        let mut i: usize = 0;
        while i < d.len()
            invariant
                i <= d@.len(),
                seen <==> d@.take(i as int).contains(x),
            decreases d@.len() - i,
        {
            let ghost before = d@.take(i as int);
            let ghost after = d@.take(i + 1);
            assert(after =~= before.push(d@[i as int]));
            if d[i] == x {
                seen = true;
                assert(after[i as int] == x);
            } else {
                proof {
                    if after.contains(x) {
                        let q = choose|q: int| 0 <= q < after.len() && after[q] == x;
                        assert(before[q] == x);
                    }
                    if before.contains(x) {
                        let q = choose|q: int| 0 <= q < before.len() && before[q] == x;
                        assert(after[q] == x);
                    }
                }
            }
            i = i + 1;
        }
        assert(d@.take(d@.len() as int) =~= d@);
        assert(lost@.take(k + 1).drop_last() =~= lost@.take(k as int));
        assert(lost@.take(k + 1).last() == x);
        if x < n && !seen {
            d.push(x);
        }
        k = k + 1;
    }
    assert(lost@.take(lost@.len() as int) =~= lost@);
    d
}


/// Weight of data shard `i` in parity shard `p`.
fn coef_exec(i: usize, p: usize) -> (w: u8)
    requires
        i < usize::MAX,
    ensures
        w == coef(i as int, p as int),
{
    let x = ((i + 1) % 256) as u8;
    let mut w: u8 = 1;
    let mut q: usize = 0;
    while q < p
        invariant
            q <= p,
            x == point(i as int),
            w == gf_pow(x, q as nat),
        decreases p - q,
    {
        w = gf_mul_exec(w, x);
        q = q + 1;
    }
    w
}

/// The points of the listed shards.
fn points_exec(d: &Vec<usize>) -> (xs: Vec<u8>)
    requires
        forall|t: int| 0 <= t < d@.len() ==> (#[trigger] d@[t]) < usize::MAX,
    ensures
        xs@ == points(d@),
{
    let mut xs: Vec<u8> = Vec::new();
    let mut t: usize = 0;
    while t < d.len()
        invariant
            t <= d@.len(),
            forall|q: int| 0 <= q < d@.len() ==> (#[trigger] d@[q]) < usize::MAX,
            xs@.len() == t,
            forall|q: int| 0 <= q < t ==> #[trigger] xs@[q] == point(d@[q] as int),
        decreases d@.len() - t,
    {
        let i = d[t];
        xs.push(((i + 1) % 256) as u8);
        t = t + 1;
    }
    assert(xs@ =~= points(d@));
    xs
}

/// Whether no byte occurs twice.
fn all_distinct(xs: &Vec<u8>) -> (b: bool)
    ensures
        b == xs@.no_duplicates(),
{
    let mut a: usize = 0;
    while a < xs.len()
        invariant
            a <= xs@.len(),
            forall|i: int, j: int| 0 <= i < a && 0 <= j < xs@.len() && i != j ==> xs@[i] != xs@[j],
        decreases xs@.len() - a,
    {
        let mut b: usize = 0;
        while b < xs.len()
            invariant
                a < xs@.len(),
                b <= xs@.len(),
                forall|i: int, j: int| 0 <= i < a && 0 <= j < xs@.len() && i != j ==> xs@[i] != xs@[j],
                forall|j: int| 0 <= j < b && j != a ==> xs@[a as int] != xs@[j],
            decreases xs@.len() - b,
        {
            if b != a && xs[a] == xs[b] {
                return false;
            }
            b = b + 1;
        }
        a = a + 1;
    }
    true
}

/// For each of the first `n` shards, whether `d` lists it.
fn listed_mask(d: &Vec<usize>, n: usize) -> (mask: Vec<bool>)
    requires
        forall|t: int| 0 <= t < d@.len() ==> (#[trigger] d@[t]) < n,
    ensures
        mask@.len() == n,
        forall|i: int| 0 <= i < n ==> #[trigger] mask@[i] == d@.contains(i as usize),
{
    let mut mask: Vec<bool> = Vec::new();
    let mut i: usize = 0;
    while i < n
        invariant
            i <= n,
            mask@.len() == i,
            forall|q: int| 0 <= q < i ==> !(#[trigger] mask@[q]),
        decreases n - i,
    {
        mask.push(false);
        i = i + 1;
    }
    let mut t: usize = 0;
    while t < d.len()
        invariant
            t <= d@.len(),
            forall|q: int| 0 <= q < d@.len() ==> (#[trigger] d@[q]) < n,
            mask@.len() == n,
            forall|q: int| 0 <= q < n ==> #[trigger] mask@[q] == d@.take(t as int).contains(q as usize),
        decreases d@.len() - t,
    {
        let ghost before = mask@;
        mask.set(d[t], true);
        proof {
            assert forall|q: int| 0 <= q < n implies #[trigger] mask@[q] == d@.take(t + 1).contains(q as usize) by {
                let s0 = d@.take(t as int);
                let s1 = d@.take(t + 1);
                assert(s1 =~= s0.push(d@[t as int]));
                if s1.contains(q as usize) {
                    let z = choose|z: int| 0 <= z < s1.len() && s1[z] == q as usize;
                    if z < s0.len() {
                        assert(s0[z] == q as usize);
                    }
                }
                if s0.contains(q as usize) {
                    let z = choose|z: int| 0 <= z < s0.len() && s0[z] == q as usize;
                    assert(s1[z] == q as usize);
                }
                if q == d@[t as int] {
                    assert(s1[t as int] == q as usize);
                }
            }
        }
        t = t + 1;
    }
    assert(d@.take(d@.len() as int) =~= d@);
    mask
}

/// FEC encoder/decoder.
pub struct FecCodec {
    config: FecConfig,
}

impl FecCodec {
    /// Create a new FEC codec.
    pub fn new(config: FecConfig) -> (c: Self)
        ensures
            c.spec_config() == config,
    {
        FecCodec { config }
    }

    /// Create with the default configuration.
    pub fn default() -> (c: Self)
        ensures
            c.spec_config() == FecConfig::default_spec(),
    {
        Self::new(FecConfig::default())
    }

    /// The codec's configuration.
    pub closed spec fn spec_config(&self) -> FecConfig {
        self.config
    }

    /// Get current configuration.
    pub fn config(&self) -> (c: &FecConfig)
        ensures
            *c == self.spec_config(),
    {
        &self.config
    }

    /// Retune the codec for a loss profile: an adaptive codec whose shard
    /// counts differ from the profile's takes the profile's configuration;
    /// otherwise the configuration stays as it is.
    pub fn apply_loss_profile(&mut self, profile: LossProfile)
        ensures
            final(self).spec_config() == (if old(self).spec_config().adaptive && (profile_config(
                profile,
            ).parity_shards != old(self).spec_config().parity_shards || profile_config(
                profile,
            ).data_shards != old(self).spec_config().data_shards) {
                profile_config(profile)
            } else {
                old(self).spec_config()
            }),
    {
        if !self.config.adaptive {
            return;
        }
        let new_config = match profile {
            LossProfile::Low => FecConfig::low_loss(),
            LossProfile::Medium => FecConfig::medium_loss(),
            LossProfile::High => FecConfig::high_loss(),
        };
        if new_config.parity_shards != self.config.parity_shards || new_config.data_shards
            != self.config.data_shards {
            self.config = new_config;
        }
    }

    /// The shard rebuilt for lost data shard `lost`.
    fn rebuild_shard(&self, data: &Vec<Vec<u8>>, parity0: &Vec<u8>, lost: usize) -> (r: Vec<u8>)
        requires
            shards_fit(views(data@), self.spec_config().shard_size as nat),
            parity0@.len() <= self.spec_config().shard_size,
        ensures
            r@ == rebuilt_shard(views(data@), parity0@, lost as int, self.spec_config().shard_size as nat),
    {
        let size = self.config.shard_size;
        let ghost sh = views(data@);
        let mut out = zeros(size);
        let mut i: usize = 0;
        while i < data.len()
            invariant
                i <= data@.len(),
                sh == views(data@),
                shards_fit(sh, size as nat),
                out@.len() == size,
                forall|jj: int| 0 <= jj < size ==> #[trigger] out@[jj] == xor_fold(sh, i as int, jj, 0, lost as int),
            decreases data@.len() - i,
        {
            if i != lost {
                let shard = &data[i];
                assert(shard@ == sh[i as int]);
                let mut j: usize = 0;
                while j < shard.len()
                    invariant
                        j <= shard@.len(),
                        i != lost,
                        shard@ == sh[i as int],
                        shard@.len() <= size,
                        out@.len() == size,
                        forall|jj: int| 0 <= jj < j ==> #[trigger] out@[jj] == xor_fold(sh, i + 1, jj, 0, lost as int),
                        forall|jj: int| j <= jj < size ==> #[trigger] out@[jj] == xor_fold(sh, i as int, jj, 0, lost as int),
                    decreases shard@.len() - j,
                {
                    proof {
                        lemma_gf_mul_one(shard@[j as int]);
                    }
                    assert(term(sh, i as int, j as int, 0) == shard@[j as int]);
                    let v = out[j] ^ shard[j];
                    out.set(j, v);
                    j = j + 1;
                }
                proof {
                    assert forall|jj: int| 0 <= jj < size implies #[trigger] out@[jj] == xor_fold(sh, i + 1, jj, 0, lost as int) by {
                        if jj >= j {
                            lemma_xor_zero(xor_fold(sh, i as int, jj, 0, lost as int));
                        }
                    }
                }
            }
            i = i + 1;
        }
        let mut j: usize = 0;
        while j < parity0.len()
            invariant
                j <= parity0@.len(),
                parity0@.len() <= size,
                out@.len() == size,
                forall|jj: int| 0 <= jj < j ==> #[trigger] out@[jj] == xor_fold(sh, data@.len() as int, jj, 0, lost as int) ^ parity0@[jj],
                forall|jj: int| j <= jj < size ==> #[trigger] out@[jj] == xor_fold(sh, data@.len() as int, jj, 0, lost as int),
            decreases parity0@.len() - j,
        {
            let v = out[j] ^ parity0[j];
            out.set(j, v);
            j = j + 1;
        }
        proof {
            assert forall|jj: int| 0 <= jj < size implies #[trigger] out@[jj] == rebuilt_shard(sh, parity0@, lost as int, size as nat)[jj] by {
                if jj >= parity0@.len() {
                    lemma_xor_zero(xor_fold(sh, data@.len() as int, jj, 0, lost as int));
                }
            }
        }
        assert(out@ =~= rebuilt_shard(sh, parity0@, lost as int, size as nat));
        out
    }

    /// Parity shard `p` with the contributions of every data shard not
    /// listed (as the mask marks them) taken out, byte by byte.
    fn residual_row(&self, data: &Vec<Vec<u8>>, par: &Vec<u8>, p: usize, mask: &Vec<bool>, Ghost(d): Ghost<Seq<usize>>) -> (r: Vec<u8>)
        requires
            shards_fit(views(data@), self.spec_config().shard_size as nat),
            par@.len() <= self.spec_config().shard_size,
            mask@.len() == data@.len(),
            forall|i: int| 0 <= i < data@.len() ==> #[trigger] mask@[i] == d.contains(i as usize),
        ensures
            r@.len() == self.spec_config().shard_size,
            forall|j: int| 0 <= j < self.spec_config().shard_size ==> #[trigger] r@[j] == residual(views(data@), par@, p as int, d, j),
    {
        let size = self.config.shard_size;
        let ghost sh = views(data@);
        let mut out = zeros(size);
        let mut i: usize = 0;
        while i < data.len()
            invariant
                i <= data@.len(),
                sh == views(data@),
                shards_fit(sh, size as nat),
                mask@.len() == data@.len(),
                forall|q: int| 0 <= q < data@.len() ==> #[trigger] mask@[q] == d.contains(q as usize),
                out@.len() == size,
                forall|jj: int| 0 <= jj < size ==> #[trigger] out@[jj] == xor_fold_out(sh, i as int, jj, p as int, d),
            decreases data@.len() - i,
        {
            if !mask[i] {
                let shard = &data[i];
                assert(shard@ == sh[i as int]);
                let coefficient = coef_exec(i, p);
                let mut j: usize = 0;
                while j < shard.len()
                    invariant
                        j <= shard@.len(),
                        !d.contains(i as usize),
                        shard@ == sh[i as int],
                        shard@.len() <= size,
                        out@.len() == size,
                        coefficient == coef(i as int, p as int),
                        forall|jj: int| 0 <= jj < j ==> #[trigger] out@[jj] == xor_fold_out(sh, i + 1, jj, p as int, d),
                        forall|jj: int| j <= jj < size ==> #[trigger] out@[jj] == xor_fold_out(sh, i as int, jj, p as int, d),
                    decreases shard@.len() - j,
                {
                    let v = out[j] ^ gf_mul_exec(shard[j], coefficient);
                    out.set(j, v);
                    j = j + 1;
                }
                proof {
                    assert forall|jj: int| 0 <= jj < size implies #[trigger] out@[jj] == xor_fold_out(sh, i + 1, jj, p as int, d) by {
                        if jj >= j {
                            lemma_xor_zero(xor_fold_out(sh, i as int, jj, p as int, d));
                        }
                    }
                }
            }
            i = i + 1;
        }
        let mut j: usize = 0;
        while j < par.len()
            invariant
                j <= par@.len(),
                par@.len() <= size,
                out@.len() == size,
                forall|jj: int| 0 <= jj < j ==> #[trigger] out@[jj] == xor_fold_out(sh, data@.len() as int, jj, p as int, d) ^ par@[jj],
                forall|jj: int| j <= jj < size ==> #[trigger] out@[jj] == xor_fold_out(sh, data@.len() as int, jj, p as int, d),
            decreases par@.len() - j,
        {
            let v = out[j] ^ par[j];
            out.set(j, v);
            j = j + 1;
        }
        proof {
            assert forall|jj: int| 0 <= jj < size implies #[trigger] out@[jj] == residual(sh, par@, p as int, d, jj) by {
                if jj >= par@.len() {
                    lemma_xor_zero(xor_fold_out(sh, data@.len() as int, jj, p as int, d));
                }
            }
        }
        out
    }

    /// Rebuild the lost data shards of a block from its parity: the `k`
    /// listed data shards are solved for together from the first `k` parity
    /// shards when the block has that many and their points differ;
    /// otherwise each listed shard is rebuilt from the first parity shard in
    /// turn.
    pub fn recover_shards(&self, block: &FecBlock, lost_indices: &[usize]) -> (r: Result<Vec<Vec<u8>>, FecError>)
        requires
            rebuild_needed(block.data_shards@.len(), block.parity_shards@.len(), lost_indices@)
                ==> block_fits(*block, self.spec_config().shard_size as nat),
        ensures
            r matches Ok(v) && views(v@) == recover_block(
                views(block.data_shards@),
                views(block.parity_shards@),
                lost_indices@,
                self.spec_config().shard_size as nat,
            ),
    {
        let ghost size = self.spec_config().shard_size as nat;
        let listed = lost_data_exec(lost_indices, block.data_shards.len());
        proof {
            lemma_lost_data_props(lost_indices@, block.data_shards@.len());
        }
        let n = block.data_shards.len();
        let k = listed.len();
        if k >= 1 && k <= block.parity_shards.len() {
            let xs = points_exec(&listed);
            if all_distinct(&xs) {
                let ghost d = listed@;
                let ghost dv = views(block.data_shards@);
                let ghost pv = views(block.parity_shards@);
                proof {
                    let i = choose|i: int| 0 <= i < lost_indices@.len() && lost_indices@[i] == d[0];
                    assert(rebuild_needed(block.data_shards@.len(), block.parity_shards@.len(), lost_indices@));
                }
                let mask = listed_mask(&listed, n);
                let mut rows: Vec<Vec<u8>> = Vec::new();
                let mut p: usize = 0;
                while p < k
                    invariant
                        p <= k,
                        k == d.len(),
                        k <= block.parity_shards@.len(),
                        n == block.data_shards@.len(),
                        dv == views(block.data_shards@),
                        pv == views(block.parity_shards@),
                        block_fits(*block, size),
                        size == self.spec_config().shard_size,
                        mask@.len() == n,
                        forall|i: int| 0 <= i < n ==> #[trigger] mask@[i] == d.contains(i as usize),
                        rows@.len() == p,
                        forall|q: int| 0 <= q < p ==> #[trigger] rows@[q]@.len() == size,
                        forall|q: int, jj: int|
                            0 <= q < p && 0 <= jj < size ==> #[trigger] rows@[q]@[jj] == residual(dv, pv[q], q, d, jj),
                    decreases k - p,
                {
                    assert(pv[p as int] == block.parity_shards@[p as int]@);
                    let row = self.residual_row(&block.data_shards, &block.parity_shards[p], p, &mask, Ghost(d));
                    rows.push(row);
                    p = p + 1;
                }
                let sol = solve_rows(&xs, &rows, self.config.shard_size);
                let ghost target = solved(dv, pv, d, size);
                proof {
                    assert forall|jj: int| 0 <= jj < size implies #[trigger] column(views(rows@), jj) == residuals(dv, pv, d, jj) by {
                        assert(column(views(rows@), jj) =~= residuals(dv, pv, d, jj));
                    }
                    assert forall|t: int| 0 <= t < k implies #[trigger] sol@[t]@ == target[t] by {
                        assert forall|jj: int| 0 <= jj < size implies #[trigger] sol@[t]@[jj] == target[t][jj] by {
                            assert(sol@[t]@[jj] == vsolve(xs@, column(views(rows@), jj))[t]);
                        }
                        assert(sol@[t]@ =~= target[t]);
                    }
                }
                let mut repaired = copy_shards(&block.data_shards);
                assert(views(repaired@).len() == repaired@.len());
                assert(dv.len() == block.data_shards@.len());
                let mut t: usize = 0;
                assert(d.take(0) =~= Seq::<usize>::empty());
                while t < k
                    invariant
                        t <= k,
                        k == d.len(),
                        d == listed@,
                        n == dv.len(),
                        forall|q: int| 0 <= q < d.len() ==> (#[trigger] d[q]) < n,
                        repaired@.len() == n,
                        sol@.len() == k,
                        target.len() == k,
                        forall|q: int| 0 <= q < k ==> #[trigger] sol@[q]@ == target[q],
                        views(repaired@) == patch(dv, d.take(t as int), target.take(t as int)),
                    decreases k - t,
                {
                    let row = copy_bytes(&sol[t]);
                    let ghost before = views(repaired@);
                    repaired.set(listed[t], row);
                    proof {
                        let d1 = d.take(t + 1);
                        assert(d1.drop_last() =~= d.take(t as int));
                        assert(target.take(t + 1).take(d1.len() - 1) =~= target.take(t as int));
                        assert(d1.last() == d[t as int]);
                        assert(views(repaired@) =~= before.update(d[t as int] as int, target[t as int]));
                    }
                    t = t + 1;
                }
                assert(d.take(k as int) =~= d);
                assert(target.take(k as int) =~= target);
                return Ok(repaired);
            }
        }
        let mut recovered = copy_shards(&block.data_shards);
        let mut k: usize = 0;
        assert(lost_indices@.take(0) =~= Seq::<usize>::empty());
        assert(recovered@.len() == views(recovered@).len());
        while k < lost_indices.len()
            invariant
                k <= lost_indices@.len(),
                size == self.spec_config().shard_size,
                recovered@.len() == block.data_shards@.len(),
                rebuild_needed(block.data_shards@.len(), block.parity_shards@.len(), lost_indices@)
                    ==> block_fits(*block, size),
                views(recovered@) == recover_spec(
                    views(block.data_shards@),
                    views(block.parity_shards@),
                    lost_indices@.take(k as int),
                    size,
                ),
            decreases lost_indices@.len() - k,
        {
            let lost_idx = lost_indices[k];
            assert(lost_indices@.take(k + 1).drop_last() =~= lost_indices@.take(k as int));
            assert(lost_indices@.take(k + 1).last() == lost_idx);
            if lost_idx < block.data_shards.len() && block.parity_shards.len() > 0 {
                assert(lost_indices@[k as int] == lost_idx);
                assert(rebuild_needed(block.data_shards@.len(), block.parity_shards@.len(), lost_indices@));
                let rebuilt = self.rebuild_shard(&block.data_shards, &block.parity_shards[0], lost_idx);
                let ghost before = views(recovered@);
                recovered.set(lost_idx, rebuilt);
                assert(views(recovered@) =~= before.update(lost_idx as int, rebuilt_shard(
                    views(block.data_shards@),
                    views(block.parity_shards@)[0],
                    lost_idx as int,
                    size,
                )));
            }
            k = k + 1;
        }
        assert(lost_indices@.take(lost_indices@.len() as int) =~= lost_indices@);
        proof {
            if listed@.len() == 0 {
                lemma_lost_data_complete(lost_indices@, block.data_shards@.len());
                assert forall|q: int| 0 <= q < lost_indices@.len() implies (#[trigger] lost_indices@[q]) >= views(
                    block.data_shards@,
                ).len() by {
                    if lost_indices@[q] < block.data_shards@.len() {
                        assert(listed@.contains(lost_indices@[q]));
                    }
                }
                lemma_recover_none(views(block.data_shards@), views(block.parity_shards@), lost_indices@, size);
            }
        }
        Ok(recovered)
    }

    /// Encode data with FEC: cut it into zero-padded shards, group them
    /// into blocks and add parity shards to each block.
    pub fn encode(&self, data: &[u8]) -> (r: Result<Vec<FecBlock>, FecError>)
        requires
            encode_ok(self.spec_config(), data@.len()),
        ensures
            r matches Ok(blocks) && encoded_blocks(blocks@, data@, self.spec_config()),
    {
        let ghost c = self.spec_config();
        let shard_size = self.config.shard_size;
        let data_shards = self.config.data_shards;
        let parity_shards = self.config.parity_shards;
        let ghost dsz: int = data_shards * shard_size;
        let mut blocks: Vec<FecBlock> = Vec::new();
        let mut block_id: u64 = 0;
        let mut offset: usize = 0;
        let ghost mut pos: int = 0;
        proof {
            lemma_shard_pos(0, data_shards as int, shard_size as int, 0);
            assert(0 * dsz == 0) by (nonlinear_arith);
            assert(padded(data@, 0) =~= Seq::<u8>::empty());
        }
        while offset < data.len()
            invariant
                c == self.spec_config(),
                encode_ok(c, data@.len()),
                shard_size == c.shard_size,
                data_shards == c.data_shards,
                parity_shards == c.parity_shards,
                dsz == data_shards * shard_size,
                offset <= data@.len(),
                block_id == blocks@.len(),
                pos == blocks@.len() * dsz,
                offset == (if pos < data@.len() { pos } else { data@.len() as int }),
                blocks@.len() > 0 ==> pos - dsz < data@.len(),
                forall|kk: int| 0 <= kk < blocks@.len() ==> encoded_block(#[trigger] blocks@[kk], kk, data@, c),
                flatten_blocks(blocks@) == padded(data@, pos as nat),
            decreases data@.len() - offset,
        {
            proof {
                assert(shard_size > 0 && data_shards > 0);
                assert(dsz >= 1) by (nonlinear_arith)
                    requires
                        dsz == data_shards * shard_size,
                        shard_size > 0,
                        data_shards > 0,
                ;
                assert(blocks@.len() <= pos) by (nonlinear_arith)
                    requires
                        pos == blocks@.len() * dsz,
                        dsz >= 1,
                ;
            }
            let mut shard_vec: Vec<Vec<u8>> = Vec::new();
            let ghost mut sp: int = pos;
            let mut j: usize = 0;
            while j < data_shards
                invariant
                    encode_ok(c, data@.len()),
                    shard_size == c.shard_size,
                    data_shards == c.data_shards,
                    shard_size > 0,
                    j <= data_shards,
                    offset <= data@.len(),
                    shard_vec@.len() == j,
                    sp == pos + j * shard_size,
                    offset == (if sp < data@.len() { sp } else { data@.len() as int }),
                    forall|jj: int| 0 <= jj < j ==> (#[trigger] shard_vec@[jj])@ == shard_at(
                        data@,
                        pos + jj * shard_size,
                        shard_size as nat,
                    ),
                    flatten_blocks(blocks@) + flatten(views(shard_vec@)) == padded(data@, sp as nat),
                decreases data_shards - j,
            {
                let mut shard: Vec<u8> = Vec::new();
                let mut i: usize = 0;
                while i < shard_size
                    invariant
                        encode_ok(c, data@.len()),
                        shard_size == c.shard_size,
                        shard_size > 0,
                        i <= shard_size,
                        offset <= data@.len(),
                        offset == (if sp < data@.len() { sp } else { data@.len() as int }),
                        shard@.len() == i,
                        forall|ii: int| 0 <= ii < i ==> #[trigger] shard@[ii] == shard_at(data@, sp, shard_size as nat)[ii],
                    decreases shard_size - i,
                {
                    let b = if offset < data.len() && i < data.len() - offset {
                        data[offset + i]
                    } else {
                        0u8
                    };
                    shard.push(b);
                    i = i + 1;
                }
                assert(shard@ =~= shard_at(data@, sp, shard_size as nat));
                let ghost before = shard_vec@;
                shard_vec.push(shard);
                proof {
                    lemma_padded_extend(data@, sp, shard_size as nat);
                    assert(views(shard_vec@).drop_last() =~= views(before));
                    lemma_shard_pos(blocks@.len() as int, data_shards as int, shard_size as int, j as int);
                }
                if offset < data.len() {
                    if shard_size < data.len() - offset {
                        offset = offset + shard_size;
                    } else {
                        offset = data.len();
                    }
                }
                proof {
                    sp = sp + shard_size;
                }
                j = j + 1;
            }
            proof {
                assert forall|jj: int| 0 <= jj < data_shards implies (#[trigger] shard_vec@[jj])@ == shard_at(
                    data@,
                    (blocks@.len() * data_shards + jj) * shard_size,
                    shard_size as nat,
                ) by {
                    lemma_shard_pos(blocks@.len() as int, data_shards as int, shard_size as int, jj);
                }
                assert forall|jj: int| 0 <= jj < shard_vec@.len() implies #[trigger] views(shard_vec@)[jj].len() <= shard_size by {
                    assert(views(shard_vec@)[jj] == shard_vec@[jj]@);
                }
                lemma_shard_pos(blocks@.len() as int, data_shards as int, shard_size as int, data_shards as int);
            }
            let parity_vec = self.generate_parity_shards(&shard_vec, parity_shards);
            let block = FecBlock {
                block_id,
                data_shards: shard_vec,
                parity_shards: parity_vec,
                total_shards: data_shards + parity_shards,
            };
            let ghost old_blocks = blocks@;
            blocks.push(block);
            proof {
                assert(blocks@.drop_last() =~= old_blocks);
                assert(encoded_block(blocks@[old_blocks.len() as int], old_blocks.len() as int, data@, c));
                assert forall|kk: int| 0 <= kk < blocks@.len() implies encoded_block(#[trigger] blocks@[kk], kk, data@, c) by {
                    if kk < old_blocks.len() {
                        assert(blocks@[kk] == old_blocks[kk]);
                    }
                }
                pos = pos + dsz;
            }
            block_id = block_id + 1;
        }
        proof {
            if blocks@.len() > 0 {
                assert((blocks@.len() - 1) * dsz == blocks@.len() * dsz - dsz) by (nonlinear_arith);
            }
        }
        Ok(blocks)
    }

    /// Decode data from FEC blocks, rebuilding the shards listed as lost.
    /// Blocks that the encoder made from `data`, received with the data
    /// shards that their lost-shard lists name damaged (whatever their
    /// bytes), each list no longer than the parity, decode to `data`
    /// zero-padded to whole blocks.
    pub fn decode(&self, blocks: Vec<FecBlock>, lost_shards: &HashMap<u64, Vec<usize>>) -> (r: Result<Vec<u8>, FecError>)
        requires
            decode_ok(
                blocks@,
                lost_shards@,
                self.spec_config().parity_shards as nat,
                self.spec_config().shard_size as nat,
            ),
        ensures
            match r {
                Ok(v) => spec_fec_decode(
                    blocks@,
                    lost_shards@,
                    self.spec_config().parity_shards as nat,
                    self.spec_config().shard_size as nat,
                ) == Ok::<Seq<u8>, FecError>(v@),
                Err(e) => spec_fec_decode(
                    blocks@,
                    lost_shards@,
                    self.spec_config().parity_shards as nat,
                    self.spec_config().shard_size as nat,
                ) == Err::<Seq<u8>, FecError>(e),
            },
            forall|bs: Seq<FecBlock>, data: Seq<u8>|
                #[trigger] encoded_blocks(bs, data, self.spec_config()) && self.spec_config().data_shards
                    + self.spec_config().parity_shards <= 256 && bs.len() == blocks@.len() && (forall|k: int|
                    0 <= k < bs.len() ==> repairable(
                        #[trigger] blocks@[k],
                        bs[k],
                        lost_of(lost_shards@, bs[k].block_id),
                        self.spec_config(),
                    )) ==> (r matches Ok(v) && v@ == padded(
                    data,
                    (bs.len() * (self.spec_config().data_shards * self.spec_config().shard_size)) as nat,
                ) && v@.take(data.len() as int) == data),
    {
        let ghost rs = blocks@;
        let r = self.decode_blocks(blocks, lost_shards);
        proof {
            let c = self.spec_config();
            assert forall|bs: Seq<FecBlock>, data: Seq<u8>|
                #[trigger] encoded_blocks(bs, data, c) && c.data_shards + c.parity_shards <= 256 && bs.len() == rs.len() && (
                forall|k: int| 0 <= k < bs.len() ==> repairable(#[trigger] rs[k], bs[k], lost_of(lost_shards@, bs[k].block_id), c))
                implies (r matches Ok(v) && v@ == padded(data, (bs.len() * (c.data_shards * c.shard_size)) as nat) && v@.take(
                data.len() as int,
            ) == data) by {
                lemma_fec_roundtrip(bs, rs, data, c, lost_shards@);
            }
        }
        r
    }

    fn decode_blocks(&self, blocks: Vec<FecBlock>, lost_shards: &HashMap<u64, Vec<usize>>) -> (r: Result<Vec<u8>, FecError>)
        requires
            decode_ok(
                blocks@,
                lost_shards@,
                self.spec_config().parity_shards as nat,
                self.spec_config().shard_size as nat,
            ),
        ensures
            match r {
                Ok(v) => spec_fec_decode(
                    blocks@,
                    lost_shards@,
                    self.spec_config().parity_shards as nat,
                    self.spec_config().shard_size as nat,
                ) == Ok::<Seq<u8>, FecError>(v@),
                Err(e) => spec_fec_decode(
                    blocks@,
                    lost_shards@,
                    self.spec_config().parity_shards as nat,
                    self.spec_config().shard_size as nat,
                ) == Err::<Seq<u8>, FecError>(e),
            },
    {
        let ghost maxl = self.spec_config().parity_shards as nat;
        let ghost size = self.spec_config().shard_size as nat;
        let mut result: Vec<u8> = Vec::new();
        let empty: Vec<usize> = Vec::new();
        let mut k: usize = 0;
        assert(blocks@.take(0) =~= Seq::<FecBlock>::empty());
        while k < blocks.len()
            invariant
                k <= blocks@.len(),
                maxl == self.spec_config().parity_shards,
                size == self.spec_config().shard_size,
                empty@ == Seq::<usize>::empty(),
                decode_ok(blocks@, lost_shards@, maxl, size),
                spec_fec_decode(blocks@.take(k as int), lost_shards@, maxl, size) == Ok::<Seq<u8>, FecError>(result@),
            decreases blocks@.len() - k,
        {
            let block = &blocks[k];
            let lost: &Vec<usize> = match lost_shards.get(&block.block_id) {
                Some(v) => v,
                None => &empty,
            };
            assert(lost@ == lost_of(lost_shards@, block.block_id));
            proof {
                if lost@.len() <= maxl && rebuild_needed(block.data_shards@.len(), block.parity_shards@.len(), lost@) {
                    reveal(decode_ok);
                    assert(blocks@[k as int] == *block);
                    assert(block_fits(blocks@[k as int], size));
                }
            }
            assert(blocks@.take(k + 1).drop_last() =~= blocks@.take(k as int));
            assert(blocks@.take(k + 1).last() == *block);
            if lost.len() > self.config.parity_shards {
                proof {
                    lemma_decode_err_sticks(blocks@, lost_shards@, maxl, size, k + 1, FecError::Unrecoverable {
                        block_id: block.block_id,
                        lost: lost.len(),
                        recoverable: self.config.parity_shards,
                    });
                }
                return Err(FecError::Unrecoverable {
                    block_id: block.block_id,
                    lost: lost.len(),
                    recoverable: self.config.parity_shards,
                });
            }
            if lost.len() == 0 {
                append_shards(&mut result, &block.data_shards);
            } else {
                let recovered = match self.recover_shards(block, lost.as_slice()) {
                    Ok(v) => v,
                    Err(e) => return Err(e),
                };
                append_shards(&mut result, &recovered);
            }
            k = k + 1;
        }
        assert(blocks@.take(blocks@.len() as int) =~= blocks@);
        Ok(result)
    }

    /// Parity shards over the given data shards.
    pub fn generate_parity_shards(&self, data_shards: &Vec<Vec<u8>>, parity_count: usize) -> (r: Vec<Vec<u8>>)
        requires
            shards_fit(views(data_shards@), self.spec_config().shard_size as nat),
            data_shards@.len() + parity_count <= usize::MAX,
        ensures
            r@.len() == parity_count,
            forall|p: int| 0 <= p < parity_count ==> (#[trigger] r@[p])@ == parity_shard(
                views(data_shards@),
                p,
                self.spec_config().shard_size as nat,
            ),
    {
        let size = self.config.shard_size;
        let ghost sh = views(data_shards@);
        let mut out: Vec<Vec<u8>> = Vec::new();
        let mut p: usize = 0;
        while p < parity_count
            invariant
                p <= parity_count,
                size == self.spec_config().shard_size,
                sh == views(data_shards@),
                shards_fit(sh, size as nat),
                data_shards@.len() + parity_count <= usize::MAX,
                out@.len() == p,
                forall|q: int| 0 <= q < p ==> (#[trigger] out@[q])@ == parity_shard(sh, q, size as nat),
            decreases parity_count - p,
        {
            let mut parity = zeros(size);
            let mut i: usize = 0;
            while i < data_shards.len()
                invariant
                    i <= data_shards@.len(),
                    p < parity_count,
                    data_shards@.len() + parity_count <= usize::MAX,
                    sh == views(data_shards@),
                    shards_fit(sh, size as nat),
                    parity@.len() == size,
                    forall|jj: int| 0 <= jj < size ==> #[trigger] parity@[jj] == xor_fold(sh, i as int, jj, p as int, -1),
                decreases data_shards@.len() - i,
            {
                let shard = &data_shards[i];
                assert(shard@ == sh[i as int]);
                let coefficient = coef_exec(i, p);
                let mut j: usize = 0;
                while j < shard.len()
                    invariant
                        j <= shard@.len(),
                        shard@ == sh[i as int],
                        shard@.len() <= size,
                        parity@.len() == size,
                        coefficient == coef(i as int, p as int),
                        forall|jj: int| 0 <= jj < j ==> #[trigger] parity@[jj] == xor_fold(sh, i + 1, jj, p as int, -1),
                        forall|jj: int| j <= jj < size ==> #[trigger] parity@[jj] == xor_fold(sh, i as int, jj, p as int, -1),
                    decreases shard@.len() - j,
                {
                    let v = parity[j] ^ gf_mul_exec(shard[j], coefficient);
                    parity.set(j, v);
                    j = j + 1;
                }
                proof {
                    assert forall|jj: int| 0 <= jj < size implies #[trigger] parity@[jj] == xor_fold(sh, i + 1, jj, p as int, -1) by {
                        if jj >= j {
                            lemma_xor_zero(xor_fold(sh, i as int, jj, p as int, -1));
                        }
                    }
                }
                i = i + 1;
            }
            assert(parity@ =~= parity_shard(sh, p as int, size as nat));
            out.push(parity);
            p = p + 1;
        }
        out
    }
}

} // verus!
