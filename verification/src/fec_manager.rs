//! FEC manager: a codec together with running statistics, retuned to the
//! packet loss it observes while decoding.
//!
//! Rates are kept as exact fractions: the packet loss rate is
//! `loss_rate_num / loss_rate_den` (zero while the denominator is zero) and
//! the overhead is `overhead_parity / overhead_data` (times 100 for a
//! percentage).

use vstd::prelude::*;
use std::collections::HashMap;
use crate::fec::{
    FecBlock, FecCodec, FecConfig, FecError, LossProfile, decode_ok, encode_ok, encoded_blocks,
    lost_of, profile_config, spec_fec_decode,
};

verus! {

broadcast use vstd::std_specs::hash::group_hash_axioms;

/// FEC statistics.
#[derive(Debug, Clone, Copy, PartialEq, Eq, Structural)]
pub struct FecStats {
    /// Total blocks encoded
    pub blocks_encoded: u64,
    /// Total blocks decoded
    pub blocks_decoded: u64,
    /// Total packets lost
    pub packets_lost: u64,
    /// Total packets recovered
    pub packets_recovered: u64,
    /// Numerator of the current packet loss rate
    pub loss_rate_num: u64,
    /// Denominator of the current packet loss rate (zero: no rate yet)
    pub loss_rate_den: u64,
    /// Parity shards per block of the current configuration
    pub overhead_parity: usize,
    /// Data shards per block of the current configuration
    pub overhead_data: usize,
}

/// Fresh statistics for a codec configured with `c`.
pub open spec fn fresh_stats(c: FecConfig) -> FecStats {
    FecStats {
        blocks_encoded: 0,
        blocks_decoded: 0,
        packets_lost: 0,
        packets_recovered: 0,
        loss_rate_num: 0,
        loss_rate_den: 0,
        overhead_parity: c.parity_shards,
        overhead_data: c.data_shards,
    }
}

/// The loss profile of a loss rate `num / den`: under 1% is low, under 5%
/// medium, anything else high; no rate yet counts as no loss.
pub open spec fn profile_of_rate(num: int, den: int) -> LossProfile {
    if den == 0 || num * 100 < den {
        LossProfile::Low
    } else if num * 20 < den {
        LossProfile::Medium
    } else {
        LossProfile::High
    }
}

/// The loss profile of a loss rate `num / den` (see `profile_of_rate`).
pub fn loss_profile(num: u64, den: u64) -> (p: LossProfile)
    ensures
        p == profile_of_rate(num as int, den as int),
{
    if den == 0 || (num as u128) * 100 < den as u128 {
        LossProfile::Low
    } else if (num as u128) * 20 < den as u128 {
        LossProfile::Medium
    } else {
        LossProfile::High
    }
}

/// The configuration an adaptive retune for `p` leaves a codec configured
/// with `c` in.
pub open spec fn retuned(c: FecConfig, p: LossProfile) -> FecConfig {
    if c.adaptive && (profile_config(p).parity_shards != c.parity_shards || profile_config(p).data_shards
        != c.data_shards) {
        profile_config(p)
    } else {
        c
    }
}

/// Number of blocks the encoder cuts `len` bytes into.
pub open spec fn fec_block_count(len: nat, c: FecConfig) -> nat {
    if len == 0 {
        0
    } else {
        ((len - 1) / (c.data_shards * c.shard_size) as int + 1) as nat
    }
}

/// Lost shards summed over all entries of a loss map.
pub open spec fn total_lost(m: Map<u64, Vec<usize>>) -> int {
    m.dom().fold(0int, |acc: int, k: u64| acc + lost_of(m, k).len())
}

/// Lost shards summed along `ks`.
spec fn seq_lost(m: Map<u64, Vec<usize>>, ks: Seq<u64>) -> int
    decreases ks.len(),
{
    if ks.len() == 0 {
        0
    } else {
        seq_lost(m, ks.drop_last()) + lost_of(m, ks.last()).len()
    }
}

proof fn lemma_seq_lost_is_fold(m: Map<u64, Vec<usize>>, ks: Seq<u64>)
    requires
        ks.no_duplicates(),
    ensures
        ks.to_set().fold(0int, |acc: int, k: u64| acc + lost_of(m, k).len()) == seq_lost(m, ks),
    decreases ks.len(),
{
    broadcast use vstd::seq_lib::seq_to_set_is_finite;
    let f = |acc: int, k: u64| acc + lost_of(m, k).len();
    assert(vstd::set::fold::is_fun_commutative(f));
    if ks.len() == 0 {
        assert(ks.to_set() =~= Set::<u64>::empty());
        vstd::set::fold::lemma_fold_empty(0int, f);
    } else {
        let rest = ks.drop_last();
        assert(rest.no_duplicates());
        lemma_seq_lost_is_fold(m, rest);
        assert(ks.to_set() =~= rest.to_set().insert(ks.last())) by {
            assert forall|a: u64| ks.to_set().contains(a) implies rest.to_set().insert(ks.last()).contains(a) by {
                let i = choose|i: int| 0 <= i < ks.len() && ks[i] == a;
                if i < ks.len() - 1 {
                    assert(rest[i] == a);
                }
            }
            assert forall|a: u64| rest.to_set().insert(ks.last()).contains(a) implies ks.to_set().contains(a) by {
                if a != ks.last() {
                    let i = choose|i: int| 0 <= i < rest.len() && rest[i] == a;
                    assert(ks[i] == a);
                } else {
                    assert(ks[ks.len() - 1] == a);
                }
            }
        }
        assert(!rest.to_set().contains(ks.last())) by {
            if rest.to_set().contains(ks.last()) {
                let i = choose|i: int| 0 <= i < rest.len() && rest[i] == ks.last();
                assert(ks[i] == ks[ks.len() - 1]);
            }
        }
        vstd::set::fold::lemma_fold_insert(rest.to_set(), 0int, f, ks.last());
    }
}

proof fn lemma_seq_lost_prefix(m: Map<u64, Vec<usize>>, ks: Seq<u64>, i: int)
    requires
        0 <= i <= ks.len(),
    ensures
        seq_lost(m, ks.take(i)) <= seq_lost(m, ks),
    decreases ks.len(),
{
    if i < ks.len() {
        assert(ks.take(i) =~= ks.drop_last().take(i));
        lemma_seq_lost_prefix(m, ks.drop_last(), i);
    } else {
        assert(ks.take(i) =~= ks);
    }
}

/// Statistics after a successful decode of `nblocks` blocks with `lost`
/// lost shards, by a codec whose configuration was `c` before retuning.
pub open spec fn decoded_stats(s: FecStats, nblocks: int, lost: int, c: FecConfig) -> FecStats {
    let decoded = s.blocks_decoded + nblocks;
    let total = decoded * (c.data_shards + c.parity_shards);
    let num = if total > 0 { (s.packets_lost + lost) as u64 } else { s.loss_rate_num };
    let den = if total > 0 { total as u64 } else { s.loss_rate_den };
    let next = retuned(c, profile_of_rate(num as int, den as int));
    FecStats {
        blocks_encoded: s.blocks_encoded,
        blocks_decoded: decoded as u64,
        packets_lost: (s.packets_lost + lost) as u64,
        packets_recovered: (s.packets_recovered + lost) as u64,
        loss_rate_num: num,
        loss_rate_den: den,
        overhead_parity: next.parity_shards,
        overhead_data: next.data_shards,
    }
}

proof fn lemma_block_count(n: int, len: int, dsz: int)
    requires
        dsz > 0,
        n >= 0,
        len >= 0,
        n * dsz >= len,
        n > 0 ==> (n - 1) * dsz < len,
    ensures
        n == (if len == 0 { 0 } else { (len - 1) / dsz + 1 }),
{
    if len == 0 {
        if n > 0 {
            assert((n - 1) * dsz >= 0) by (nonlinear_arith)
                requires
                    n >= 1,
                    dsz > 0,
            ;
        }
    } else {
        if n == 0 {
            assert(n * dsz == 0) by (nonlinear_arith)
                requires
                    n == 0,
            ;
        }
        assert(n * dsz == (n - 1) * dsz + dsz) by (nonlinear_arith);
        vstd::arithmetic::div_mod::lemma_fundamental_div_mod_converse(
            len - 1,
            dsz,
            n - 1,
            len - 1 - (n - 1) * dsz,
        );
    }
}

/// FEC manager for tracking statistics and adaptive adjustment.
pub struct FecManager {
    codec: FecCodec,
    stats: FecStats,
}

impl FecManager {
    /// The codec's current configuration.
    pub closed spec fn spec_config(&self) -> FecConfig {
        self.codec.spec_config()
    }

    /// The current statistics.
    pub closed spec fn spec_stats(&self) -> FecStats {
        self.stats
    }

    /// Create a new FEC manager.
    pub fn new(config: FecConfig) -> (m: Self)
        ensures
            m.spec_config() == config,
            m.spec_stats() == fresh_stats(config),
    {
        let stats = FecStats {
            blocks_encoded: 0,
            blocks_decoded: 0,
            packets_lost: 0,
            packets_recovered: 0,
            loss_rate_num: 0,
            loss_rate_den: 0,
            overhead_parity: config.parity_shards,
            overhead_data: config.data_shards,
        };
        FecManager { codec: FecCodec::new(config), stats }
    }

    /// Create with the default configuration.
    pub fn default() -> (m: Self)
        ensures
            m.spec_config() == FecConfig::default_spec(),
            m.spec_stats() == fresh_stats(FecConfig::default_spec()),
    {
        Self::new(FecConfig::default())
    }

    /// The codec's current configuration.
    pub fn config(&self) -> (c: &FecConfig)
        ensures
            *c == self.spec_config(),
    {
        self.codec.config()
    }

    /// Encode data, counting the blocks made.
    pub fn encode(&mut self, data: &[u8]) -> (r: Result<Vec<FecBlock>, FecError>)
        requires
            encode_ok(old(self).spec_config(), data@.len()),
            old(self).spec_stats().blocks_encoded + fec_block_count(data@.len(), old(self).spec_config())
                <= u64::MAX,
        ensures
            final(self).spec_config() == old(self).spec_config(),
            r matches Ok(blocks) && encoded_blocks(blocks@, data@, old(self).spec_config())
                && blocks@.len() == fec_block_count(data@.len(), old(self).spec_config())
                && final(self).spec_stats() == (FecStats {
                blocks_encoded: (old(self).spec_stats().blocks_encoded + blocks@.len()) as u64,
                ..old(self).spec_stats()
            }),
    {
        let blocks = match self.codec.encode(data) {
            Ok(b) => b,
            Err(e) => return Err(e),
        };
        proof {
            let c = self.spec_config();
            if data@.len() > 0 {
                lemma_block_count(
                    blocks@.len() as int,
                    data@.len() as int,
                    c.data_shards * c.shard_size,
                );
            } else {
                if blocks@.len() > 0 {
                    assert(blocks@.len() * (c.data_shards * c.shard_size) >= 0) by (nonlinear_arith);
                    assert((blocks@.len() - 1) * (c.data_shards * c.shard_size) >= 0) by (nonlinear_arith)
                        requires
                            blocks@.len() >= 1,
                    ;
                }
            }
        }
        self.stats.blocks_encoded = self.stats.blocks_encoded + blocks.len() as u64;
        Ok(blocks)
    }

    /// Lost shards summed over all entries of the loss map.
    fn count_lost(lost_shards: &HashMap<u64, Vec<usize>>) -> (n: u64)
        requires
            total_lost(lost_shards@) <= u64::MAX,
        ensures
            n == total_lost(lost_shards@),
    {
        let ghost m = lost_shards@;
        let mut n: u64 = 0;
        let ghost ks = vstd::std_specs::iter::IteratorSpec::remaining(&lost_shards.keys()).unref();
        proof {
            lemma_seq_lost_is_fold(m, ks);
            assert(ks.take(0) =~= Seq::<u64>::empty());
        }
        for k in it: lost_shards.keys()
            invariant
                m == lost_shards@,
                it.seq().unref() == ks,
                ks.to_set() == m.dom(),
                total_lost(m) == seq_lost(m, ks),
                total_lost(m) <= u64::MAX,
                n == seq_lost(m, ks.take(it.index() as int)),
        {
            let ghost i = it.index() as int;
            let len = match lost_shards.get(k) {
                Some(v) => v.len(),
                None => 0,
            };
            proof {
                assert(ks[i] == *k);
                assert(ks.take(i + 1).drop_last() =~= ks.take(i));
                assert(len == lost_of(m, *k).len());
                lemma_seq_lost_prefix(m, ks, i + 1);
            }
            n = n + len as u64;
        }
        proof {
            assert(ks.take(ks.len() as int) =~= ks);
        }
        n
    }

    /// Decode data, counting lost and recovered packets, then retune the
    /// codec to the packet loss seen so far.
    pub fn decode(&mut self, blocks: Vec<FecBlock>, lost_shards: &HashMap<u64, Vec<usize>>) -> (r: Result<Vec<u8>, FecError>)
        requires
            decode_ok(
                blocks@,
                lost_shards@,
                old(self).spec_config().parity_shards as nat,
                old(self).spec_config().shard_size as nat,
            ),
            old(self).spec_stats().packets_lost + total_lost(lost_shards@) <= u64::MAX,
            old(self).spec_stats().packets_recovered + total_lost(lost_shards@) <= u64::MAX,
            old(self).spec_stats().blocks_decoded + blocks@.len() <= u64::MAX,
            old(self).spec_config().data_shards + old(self).spec_config().parity_shards <= usize::MAX,
            (old(self).spec_stats().blocks_decoded + blocks@.len()) * (old(self).spec_config().data_shards
                + old(self).spec_config().parity_shards) <= u64::MAX,
        ensures
            match r {
                Ok(v) => {
                    &&& spec_fec_decode(
                        blocks@,
                        lost_shards@,
                        old(self).spec_config().parity_shards as nat,
                        old(self).spec_config().shard_size as nat,
                    ) == Ok::<Seq<u8>, FecError>(v@)
                    &&& final(self).spec_stats() == decoded_stats(
                        old(self).spec_stats(),
                        blocks@.len() as int,
                        total_lost(lost_shards@),
                        old(self).spec_config(),
                    )
                    &&& final(self).spec_config() == retuned(
                        old(self).spec_config(),
                        profile_of_rate(
                            final(self).spec_stats().loss_rate_num as int,
                            final(self).spec_stats().loss_rate_den as int,
                        ),
                    )
                },
                Err(e) => {
                    &&& spec_fec_decode(
                        blocks@,
                        lost_shards@,
                        old(self).spec_config().parity_shards as nat,
                        old(self).spec_config().shard_size as nat,
                    ) == Err::<Seq<u8>, FecError>(e)
                    &&& final(self).spec_config() == old(self).spec_config()
                    &&& final(self).spec_stats() == (FecStats {
                        packets_lost: (old(self).spec_stats().packets_lost + total_lost(lost_shards@)) as u64,
                        ..old(self).spec_stats()
                    })
                },
            },
    {
        let total = Self::count_lost(lost_shards);
        self.stats.packets_lost = self.stats.packets_lost + total;
        let nblocks = blocks.len();
        let result = match self.codec.decode(blocks, lost_shards) {
            Ok(v) => v,
            Err(e) => return Err(e),
        };
        self.stats.blocks_decoded = self.stats.blocks_decoded + nblocks as u64;
        self.stats.packets_recovered = self.stats.packets_recovered + total;
        let c = *self.codec.config();
        let shards = c.data_shards + c.parity_shards;
        let total_packets = self.stats.blocks_decoded * shards as u64;
        if total_packets > 0 {
            self.stats.loss_rate_num = self.stats.packets_lost;
            self.stats.loss_rate_den = total_packets;
        }
        let profile = loss_profile(self.stats.loss_rate_num, self.stats.loss_rate_den);
        self.codec.apply_loss_profile(profile);
        let next = *self.codec.config();
        self.stats.overhead_parity = next.parity_shards;
        self.stats.overhead_data = next.data_shards;
        Ok(result)
    }

    /// Get statistics.
    pub fn stats(&self) -> (s: &FecStats)
        ensures
            *s == self.spec_stats(),
    {
        &self.stats
    }

    /// Reset statistics, keeping the overhead of the current configuration.
    pub fn reset_stats(&mut self)
        ensures
            final(self).spec_config() == old(self).spec_config(),
            final(self).spec_stats() == fresh_stats(old(self).spec_config()),
    {
        let c = self.codec.config();
        self.stats = FecStats {
            blocks_encoded: 0,
            blocks_decoded: 0,
            packets_lost: 0,
            packets_recovered: 0,
            loss_rate_num: 0,
            loss_rate_den: 0,
            overhead_parity: c.parity_shards,
            overhead_data: c.data_shards,
        };
    }
}

} // verus!
