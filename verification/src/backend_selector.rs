//! Choice of the transport backend: the backends that the host offers and
//! that meet the caller's criteria are scored, the best one is taken and the
//! others become its fallbacks.
//!
//! Scores are counted in thousandths of a point (0 to 100 000), each term
//! rounded down, so that ranking is exact integer arithmetic.

use vstd::prelude::*;
use vstd::string::StringExecFns;
use crate::backend_capabilities::{
    BackendCapabilities, Platform, spec_caps, spec_caps_available, spec_for_transport,
    spec_supported_platforms, spec_supports_dpdk, spec_supports_io_uring, platform_names,
    str_eq,
};
use crate::text::{decimal, digit_char, push_decimal, string_push};
use crate::transport_type::{SystemProbe, TransportType, all_backends, spec_available_backends, spec_is_available, spec_priority};

verus! {

/// Backend selection criteria.
#[derive(Debug, Clone)]
pub struct SelectionCriteria {
    /// Minimum required throughput in bytes/second
    pub min_throughput_bps: Option<u64>,
    /// Maximum acceptable latency in milliseconds
    pub max_latency_ms: Option<u64>,
    /// Prefer zero-copy if available
    pub prefer_zero_copy: bool,
    /// Allow backends requiring special hardware
    pub allow_special_hardware: bool,
    /// Maximum hardware cost in USD
    pub max_hardware_cost_usd: Option<u32>,
    /// Preferred transport type (overrides auto-selection)
    pub preferred_transport: Option<TransportType>,
}

impl Default for SelectionCriteria {
    /// No throughput or latency bound, zero-copy preferred, no special
    /// hardware, a budget of 500 USD, no preferred backend.
    fn default() -> (c: Self)
        ensures
            c.min_throughput_bps is None,
            c.max_latency_ms is None,
            c.prefer_zero_copy,
            !c.allow_special_hardware,
            c.max_hardware_cost_usd == Some(500u32),
            c.preferred_transport is None,
    {
        SelectionCriteria {
            min_throughput_bps: None,
            max_latency_ms: None,
            prefer_zero_copy: true,
            allow_special_hardware: false,
            max_hardware_cost_usd: Some(500),
            preferred_transport: None,
        }
    }
}

/// Backend selection result.
#[derive(Debug, Clone)]
pub struct SelectionResult {
    /// Selected transport type
    pub transport_type: TransportType,
    /// Reason for selection
    pub reason: String,
    /// Backend capabilities
    pub capabilities: BackendCapabilities,
    /// Fallback options (in priority order)
    pub fallbacks: Vec<TransportType>,
}

/// Why no backend could be selected.
#[derive(Debug, Clone, Copy, PartialEq, Eq, Structural)]
pub enum SelectionError {
    /// No backend of this host meets the criteria.
    NoBackendsAvailable,
}

/// The kernel release as characters.
pub open spec fn kernel_view(k: Option<String>) -> Option<Seq<char>> {
    match k {
        Some(s) => Some(s@),
        None => None,
    }
}

/// Backend `t` runs on platform `p`: the platform is listed for it, has the
/// cores and RAM it needs, and passes its specific test.
pub open spec fn backend_fits(t: TransportType, p: Platform) -> bool {
    let f = spec_caps(t);
    &&& spec_supported_platforms(t).contains(p.os@)
    &&& p.cpu_cores >= f.min_cpu_cores
    &&& p.total_ram_bytes >= f.min_ram_bytes
    &&& match t {
        TransportType::IoUring => spec_supports_io_uring(p.os@, kernel_view(p.kernel_version)),
        TransportType::Dpdk => spec_supports_dpdk(p.os@),
        _ => true,
    }
}

/// A backend's figures meet the criteria: enough throughput, no special
/// hardware unless allowed, and within the hardware budget.
pub open spec fn spec_meets(max_throughput_bps: u64, special: bool, cost: u32, c: SelectionCriteria) -> bool {
    &&& match c.min_throughput_bps {
        Some(m) => max_throughput_bps >= m,
        None => true,
    }
    &&& !(special && !c.allow_special_hardware)
    &&& match c.max_hardware_cost_usd {
        Some(mc) => cost <= mc,
        None => true,
    }
}

/// Backend `t` meets the criteria.
pub open spec fn meets_type(t: TransportType, c: SelectionCriteria) -> bool {
    let f = spec_caps(t);
    spec_meets(f.max_throughput_bps, f.requires_special_hardware, f.hardware_cost_usd, c)
}

/// Backend `t` is tuned for platform `p`.
pub open spec fn spec_optimized(t: TransportType, p: Platform) -> bool {
    match t {
        TransportType::IoUring => p.os@ == "linux"@ && spec_supports_io_uring(
            p.os@,
            kernel_view(p.kernel_version),
        ),
        TransportType::Dpdk => spec_supports_dpdk(p.os@) && p.cpu_cores >= 8,
        _ => true,
    }
}

/// `x` bounded to `[0, 100_000]`.
pub open spec fn clamp_score(x: int) -> u64 {
    if x < 0 {
        0
    } else if x > 100_000 {
        100_000
    } else {
        x as u64
    }
}

/// Throughput term: ten points per multiple of the required throughput, at
/// most thirty; without a requirement, three points per GB/s.
pub open spec fn throughput_points(cap: u64, c: SelectionCriteria) -> int {
    match c.min_throughput_bps {
        Some(m) => if m == 0 {
            30_000
        } else if cap * 10_000 / m as int > 30_000 {
            30_000
        } else {
            cap * 10_000 / m as int
        },
        None => cap * 3 / 1_000_000,
    }
}

/// Score of backend `t`, in thousandths: 0.4 per priority point, the
/// throughput term, 15 for zero-copy when preferred, 10 when tuned for the
/// platform, less 10 per budget beyond half of it that the hardware costs;
/// bounded to 0..=100. A zero budget is infinitely exceeded: the score is 0.
pub open spec fn spec_score(t: TransportType, c: SelectionCriteria, optimized: bool) -> u64 {
    let f = spec_caps(t);
    let gain = 400 * spec_priority(t) + throughput_points(f.max_throughput_bps, c) + (if c.prefer_zero_copy
        && f.supports_zero_copy {
        15_000int
    } else {
        0int
    }) + (if optimized {
        10_000int
    } else {
        0int
    });
    match c.max_hardware_cost_usd {
        Some(mc) => if mc == 0 {
            0
        } else if 2 * f.hardware_cost_usd > mc {
            clamp_score(gain - (f.hardware_cost_usd * 10_000 / mc as int - 5_000))
        } else {
            clamp_score(gain)
        },
        None => clamp_score(gain),
    }
}

/// `cap / m` written with one decimal, rounded half up; `inf` for `m == 0`.
pub open spec fn ratio_text(cap: u64, m: u64) -> Seq<char> {
    if m == 0 {
        "inf"@
    } else {
        let tenths = ((20 * cap + m) / (2 * m as int)) as nat;
        decimal(tenths / 10) + "."@ + seq![digit_char(tenths % 10)]
    }
}

/// Why backend `t` with score `score` was chosen: a verdict from the score,
/// then zero-copy, kernel bypass and a throughput margin of at least twice
/// the requirement, each where it holds, joined by `", "`.
pub open spec fn spec_reason(t: TransportType, score: u64, c: SelectionCriteria) -> Seq<char> {
    let f = spec_caps(t);
    let verdict = if score >= 80_000 {
        "Optimal performance for platform"@
    } else if score >= 60_000 {
        "Good balance of performance and compatibility"@
    } else {
        "Best available option"@
    };
    let a = if f.supports_zero_copy && c.prefer_zero_copy {
        verdict + ", zero-copy support"@
    } else {
        verdict
    };
    let b = if f.uses_kernel_bypass {
        a + ", kernel bypass"@
    } else {
        a
    };
    match c.min_throughput_bps {
        Some(m) => if f.max_throughput_bps >= 2 * m {
            b + ", "@ + ratio_text(f.max_throughput_bps, m) + "x required throughput"@
        } else {
            b
        },
        None => b,
    }
}

/// Fallbacks of a chosen backend: io_uring, QUIC and TCP in that order,
/// without the chosen one and without those that do not run on `p`.
pub open spec fn spec_fallback_chain(primary: TransportType, p: Platform) -> Seq<TransportType> {
    fallback_order().filter(fallback_pred(primary, p))
}

/// A fallback of `primary` on `p`: another backend that runs there.
pub open spec fn fallback_pred(primary: TransportType, p: Platform) -> spec_fn(TransportType) -> bool {
    |t: TransportType| t != primary && backend_fits(t, p)
}

/// The order in which fallbacks are tried.
pub open spec fn fallback_order() -> Seq<TransportType> {
    seq![TransportType::IoUring, TransportType::Quic, TransportType::Tcp]
}

/// Backends that the probed host offers and that run on `p`, in
/// declaration order.
pub open spec fn spec_listed(p: Platform, probe: SystemProbe) -> Seq<TransportType> {
    spec_available_backends(probe).filter(|t: TransportType| backend_fits(t, p))
}

/// The candidates of auto-selection: listed backends meeting the criteria.
pub open spec fn spec_candidates(p: Platform, probe: SystemProbe, c: SelectionCriteria) -> Seq<TransportType> {
    spec_available_backends(probe).filter(|t: TransportType| backend_fits(t, p) && meets_type(t, c))
}

/// Each backend with its score.
pub open spec fn spec_scored(ts: Seq<TransportType>, p: Platform, c: SelectionCriteria) -> Seq<(TransportType, u64)> {
    ts.map_values(|t: TransportType| (t, spec_score(t, c, spec_optimized(t, p))))
}

/// Number of leading entries of `s` that score at least as high as `x`.
pub open spec fn ahead(s: Seq<(TransportType, u64)>, x: (TransportType, u64)) -> nat
    decreases s.len(),
{
    if s.len() > 0 && s[0].1 >= x.1 {
        1 + ahead(s.drop_first(), x)
    } else {
        0
    }
}

/// Stable ranking by descending score: each entry in turn is placed after
/// every entry before it that scores at least as high.
pub open spec fn rank(s: Seq<(TransportType, u64)>) -> Seq<(TransportType, u64)>
    decreases s.len(),
{
    if s.len() == 0 {
        s
    } else {
        let r = rank(s.drop_last());
        r.insert(ahead(r, s.last()) as int, s.last())
    }
}

/// The preferred backend is taken as it is: it runs on `p` and meets `c`.
pub open spec fn preferred_ok(t: TransportType, p: Platform, c: SelectionCriteria) -> bool {
    backend_fits(t, p) && meets_type(t, c)
}

/// The backend that selection picks, if any.
pub open spec fn spec_selected(p: Platform, probe: SystemProbe, c: SelectionCriteria) -> Option<TransportType> {
    match c.preferred_transport {
        Some(t) if preferred_ok(t, p, c) => Some(t),
        _ => {
            let ranked = rank(spec_scored(spec_candidates(p, probe, c), p, c));
            if ranked.len() == 0 {
                None
            } else {
                Some(ranked[0].0)
            }
        },
    }
}

/// The names of ranked entries, without their scores.
pub open spec fn names_of(s: Seq<(TransportType, u64)>) -> Seq<TransportType> {
    s.map_values(|x: (TransportType, u64)| x.0)
}

/// The fallbacks of auto-selection: the candidates other than the selected
/// one, kept in declaration order, which runs from the fastest backend to
/// the slowest.
pub open spec fn spec_auto_fallbacks(p: Platform, probe: SystemProbe, c: SelectionCriteria, best: TransportType) -> Seq<
    TransportType,
> {
    spec_candidates(p, probe, c).filter(other_than(best))
}

/// Any backend but `best`.
pub open spec fn other_than(best: TransportType) -> spec_fn(TransportType) -> bool {
    |t: TransportType| t != best
}

/// `sel` is what selection returns: the preferred backend with its fallback
/// chain when it can be taken, else the best ranked candidate, the other
/// candidates as fallbacks from the fastest to the slowest.
pub open spec fn spec_selection_ok(sel: SelectionResult, p: Platform, probe: SystemProbe, c: SelectionCriteria) -> bool {
    match c.preferred_transport {
        Some(t) if preferred_ok(t, p, c) => {
            &&& sel.transport_type == t
            &&& sel.reason@ == "User-specified preferred transport"@
            &&& spec_for_transport(sel.capabilities, t)
            &&& sel.fallbacks@ == spec_fallback_chain(t, p)
        },
        _ => {
            let ranked = rank(spec_scored(spec_candidates(p, probe, c), p, c));
            &&& ranked.len() > 0
            &&& sel.transport_type == ranked[0].0
            &&& sel.reason@ == spec_reason(ranked[0].0, ranked[0].1, c)
            &&& spec_for_transport(sel.capabilities, ranked[0].0)
            &&& sel.fallbacks@ == spec_auto_fallbacks(p, probe, c, ranked[0].0)
        },
    }
}

/// A capability record built for `t` is available on `p` exactly when `t`
/// fits `p`.
proof fn lemma_caps_available(c: BackendCapabilities, t: TransportType, p: Platform)
    requires
        spec_for_transport(c, t),
    ensures
        spec_caps_available(c, p) == backend_fits(t, p),
{
    assert(platform_names(c.supported_platforms@) == spec_supported_platforms(t));
    assert(kernel_view(p.kernel_version) == match p.kernel_version {
        Some(k) => Some(k@),
        None => None,
    });
}

proof fn lemma_ahead_bound(s: Seq<(TransportType, u64)>, x: (TransportType, u64))
    ensures
        ahead(s, x) <= s.len(),
    decreases s.len(),
{
    if s.len() > 0 && s[0].1 >= x.1 {
        lemma_ahead_bound(s.drop_first(), x);
    }
}

/// Ranking keeps the entries: same length, and each ranked entry is one of
/// the input's.
pub proof fn lemma_rank_entries(s: Seq<(TransportType, u64)>)
    ensures
        rank(s).len() == s.len(),
        forall|i: int| 0 <= i < s.len() ==> exists|j: int| 0 <= j < s.len() && #[trigger] rank(s)[i] == s[j],
    decreases s.len(),
{
    if s.len() > 0 {
        let init = s.drop_last();
        lemma_rank_entries(init);
        let r = rank(init);
        let k = ahead(r, s.last()) as int;
        lemma_ahead_bound(r, s.last());
        let out = r.insert(k, s.last());
        assert(rank(s) == out);
        assert forall|i: int| 0 <= i < s.len() implies exists|j: int| 0 <= j < s.len() && #[trigger] rank(s)[i] == s[j] by {
            if i < k {
                assert(out[i] == r[i]);
                let j = choose|j: int| 0 <= j < init.len() && #[trigger] rank(init)[i] == init[j];
                assert(s[j] == init[j]);
            } else if i == k {
                assert(out[i] == s[s.len() - 1]);
            } else {
                assert(out[i] == r[i - 1]);
                let j = choose|j: int| 0 <= j < init.len() && #[trigger] rank(init)[i - 1] == init[j];
                assert(s[j] == init[j]);
            }
        }
    }
}

/// Ranks scored backends by descending score, keeping the given order among
/// equal scores.
fn rank_scored(scored: Vec<(TransportType, u64)>) -> (r: Vec<(TransportType, u64)>)
    ensures
        r@ == rank(scored@),
{
    let ghost orig = scored@;
    assert(orig.len() == scored.len());
    let mut rest = scored;
    let mut ranked: Vec<(TransportType, u64)> = Vec::new();
    let mut n: usize = 0;
    assert(orig.take(0) =~= Seq::<(TransportType, u64)>::empty());
    assert(orig.skip(0) =~= orig);
    while rest.len() > 0
        invariant
            orig.len() <= usize::MAX,
            n <= orig.len(),
            rest@ == orig.skip(n as int),
            ranked@ == rank(orig.take(n as int)),
        decreases rest@.len(),
    {
        let x = rest.remove(0);
        assert(x == orig[n as int]);
        let mut pos: usize = 0;
        assert(ranked@.skip(0) =~= ranked@);
        while pos < ranked.len() && ranked[pos].1 >= x.1
            invariant
                pos <= ranked@.len(),
                ahead(ranked@, x) == pos + ahead(ranked@.skip(pos as int), x),
            decreases ranked@.len() - pos,
        {
            assert(ranked@.skip(pos as int).drop_first() =~= ranked@.skip(pos + 1));
            pos = pos + 1;
        }
        assert(ahead(ranked@.skip(pos as int), x) == 0);
        ranked.insert(pos, x);
        proof {
            assert(orig.take(n + 1).drop_last() =~= orig.take(n as int));
            assert(orig.take(n + 1).last() == x);
            assert(orig.skip(n as int).drop_first() =~= orig.skip(n + 1));
        }
        n = n + 1;
    }
    assert(orig.take(n as int) =~= orig);
    ranked
}

/// `ahead` counts the leading entries that score at least as high as `x`:
/// all before it do, and the next one (if any) scores lower.
proof fn lemma_ahead_split(s: Seq<(TransportType, u64)>, x: (TransportType, u64))
    ensures
        ahead(s, x) <= s.len(),
        forall|i: int| 0 <= i < ahead(s, x) ==> (#[trigger] s[i]).1 >= x.1,
        ahead(s, x) < s.len() ==> s[ahead(s, x) as int].1 < x.1,
    decreases s.len(),
{
    if s.len() > 0 && s[0].1 >= x.1 {
        let t = s.drop_first();
        lemma_ahead_split(t, x);
        assert forall|i: int| 0 <= i < ahead(s, x) implies (#[trigger] s[i]).1 >= x.1 by {
            if i > 0 {
                assert(s[i] == t[i - 1]);
            }
        }
        if ahead(s, x) < s.len() {
            assert(s[ahead(s, x) as int] == t[ahead(t, x) as int]);
        }
    }
}

/// Ranked entries come in descending order of score.
pub proof fn lemma_rank_sorted(s: Seq<(TransportType, u64)>)
    ensures
        forall|i: int, j: int| 0 <= i < j < rank(s).len() ==> (#[trigger] rank(s)[i]).1 >= (#[trigger] rank(s)[j]).1,
    decreases s.len(),
{
    if s.len() > 0 {
        let init = s.drop_last();
        let x = s.last();
        lemma_rank_sorted(init);
        let r = rank(init);
        lemma_ahead_split(r, x);
        let k = ahead(r, x) as int;
        let out = r.insert(k, x);
        assert(rank(s) == out);
        assert forall|i: int, j: int| 0 <= i < j < out.len() implies (#[trigger] out[i]).1 >= (#[trigger] out[j]).1 by {
            let vi = if i < k { r[i] } else if i == k { x } else { r[i - 1] };
            let vj = if j < k { r[j] } else if j == k { x } else { r[j - 1] };
            assert(out[i] == vi);
            assert(out[j] == vj);
            if j > k && i < k {
                assert(r[i].1 >= r[j - 1].1);
            } else if j > k && i == k {
                assert(r[k].1 < x.1);
                assert(r[k].1 >= r[j - 1].1 || k == j - 1);
            }
        }
    }
}

/// Ranking permutes the entries.
pub proof fn lemma_rank_permutes(s: Seq<(TransportType, u64)>)
    ensures
        rank(s).to_multiset() == s.to_multiset(),
    decreases s.len(),
{
    broadcast use vstd::seq_lib::group_to_multiset_ensures;

    if s.len() > 0 {
        let init = s.drop_last();
        let x = s.last();
        lemma_rank_permutes(init);
        let r = rank(init);
        lemma_ahead_split(r, x);
        vstd::seq_lib::to_multiset_insert(r, ahead(r, x) as int, x);
        assert(s == init.push(x));
    }
}

/// Auto-selection ranks exactly the candidates, best first: the ranking is
/// a reordering of the scored candidates in descending order of score, so
/// its head scores at least as high as every candidate.
pub proof fn lemma_ranking_orders_candidates(p: Platform, probe: SystemProbe, c: SelectionCriteria)
    ensures
        ({
            let cands = spec_candidates(p, probe, c);
            let scored = spec_scored(cands, p, c);
            let ranked = rank(scored);
            &&& ranked.len() == cands.len()
            &&& ranked.to_multiset() == scored.to_multiset()
            &&& forall|i: int, j: int| 0 <= i < j < ranked.len() ==> (#[trigger] ranked[i]).1 >= (#[trigger] ranked[j]).1
            &&& forall|i: int| 0 <= i < cands.len() ==> spec_score(#[trigger] cands[i], c, spec_optimized(cands[i], p)) <= ranked[0].1
        }),
{
    broadcast use vstd::seq_lib::group_to_multiset_ensures;

    let cands = spec_candidates(p, probe, c);
    let scored = spec_scored(cands, p, c);
    let ranked = rank(scored);
    lemma_rank_permutes(scored);
    lemma_rank_sorted(scored);
    lemma_rank_entries(scored);
    assert forall|i: int| 0 <= i < cands.len() implies spec_score(#[trigger] cands[i], c, spec_optimized(cands[i], p)) <= ranked[0].1 by {
        let x = scored[i];
        assert(scored.contains(x));
        assert(scored.to_multiset().count(x) > 0);
        assert(ranked.contains(x));
        let k = choose|k: int| 0 <= k < ranked.len() && ranked[k] == x;
        if k > 0 {
            assert(ranked[0].1 >= ranked[k].1);
        }
    }
}

/// The backend that selection picks runs on the platform and meets the
/// criteria, whether it was preferred or ranked first.
pub proof fn lemma_selected_meets_criteria(p: Platform, probe: SystemProbe, c: SelectionCriteria)
    ensures
        spec_selected(p, probe, c) matches Some(t) ==> backend_fits(t, p) && meets_type(t, c),
{
    broadcast use vstd::seq_lib::group_to_multiset_ensures;

    let cands = spec_candidates(p, probe, c);
    let scored = spec_scored(cands, p, c);
    let ranked = rank(scored);
    let pred = |t: TransportType| backend_fits(t, p) && meets_type(t, c);
    lemma_rank_permutes(scored);
    lemma_rank_entries(scored);
    if ranked.len() > 0 {
        let x = ranked[0];
        assert(ranked.contains(x));
        assert(ranked.to_multiset().count(x) > 0);
        assert(scored.contains(x));
        let j = choose|j: int| 0 <= j < scored.len() && scored[j] == x;
        assert(x.0 == cands[j]);
        spec_available_backends(probe).lemma_filter_pred(pred, j);
    }
}

proof fn lemma_filter_distinct<A>(s: Seq<A>, pred: spec_fn(A) -> bool)
    requires
        s.no_duplicates(),
    ensures
        s.filter(pred).no_duplicates(),
    decreases s.len(),
{
    reveal(Seq::filter);
    if s.len() > 0 {
        let d = s.drop_last();
        assert(d.no_duplicates());
        lemma_filter_distinct(d, pred);
        let f = d.filter(pred);
        if pred(s.last()) {
            if f.contains(s.last()) {
                d.lemma_filter_contains_rev(pred, s.last());
                let k = choose|k: int| 0 <= k < d.len() && d[k] == s.last();
                assert(s[k] == s[s.len() - 1]);
            }
            let g = f.push(s.last());
            assert forall|i: int, j: int| 0 <= i < g.len() && 0 <= j < g.len() && i != j implies g[i] != g[j] by {
                if i == f.len() {
                    assert(f.contains(g[j]));
                } else if j == f.len() {
                    assert(f.contains(g[i]));
                }
            }
        }
    }
}

/// In auto-selection, every ranked backend runs on the platform and meets
/// the criteria, and no backend is ranked twice.
pub proof fn lemma_ranked_fallbacks_meet_criteria(p: Platform, probe: SystemProbe, c: SelectionCriteria)
    ensures
        ({
            let ranked = rank(spec_scored(spec_candidates(p, probe, c), p, c));
            &&& forall|k: int| 0 <= k < ranked.len() ==> backend_fits((#[trigger] ranked[k]).0, p) && meets_type(ranked[k].0, c)
            &&& names_of(ranked).no_duplicates()
        }),
{
    broadcast use vstd::seq_lib::group_to_multiset_ensures;

    let pred = |t: TransportType| backend_fits(t, p) && meets_type(t, c);
    let cands = spec_candidates(p, probe, c);
    let scored = spec_scored(cands, p, c);
    let ranked = rank(scored);
    lemma_rank_entries(scored);
    lemma_rank_permutes(scored);
    assert forall|k: int| 0 <= k < ranked.len() implies backend_fits((#[trigger] ranked[k]).0, p) && meets_type(ranked[k].0, c) by {
        let j = choose|j: int| 0 <= j < scored.len() && ranked[k] == scored[j];
        spec_available_backends(probe).lemma_filter_pred(pred, j);
    }
    let all = all_backends();
    assert(all.no_duplicates());
    lemma_filter_distinct(all, |t: TransportType| spec_is_available(t, probe));
    lemma_filter_distinct(spec_available_backends(probe), pred);
    assert(cands.no_duplicates());
    assert(scored.no_duplicates()) by {
        assert forall|i: int, j: int| 0 <= i < scored.len() && 0 <= j < scored.len() && i != j implies scored[i] != scored[j] by {
            assert(scored[i].0 == cands[i]);
            assert(scored[j].0 == cands[j]);
        }
    }
    scored.lemma_multiset_has_no_duplicates();
    assert forall|x: (TransportType, u64)| ranked.to_multiset().contains(x) implies ranked.to_multiset().count(x) == 1 by {
        assert(scored.to_multiset().contains(x));
    }
    ranked.lemma_multiset_has_no_duplicates_conv();
    let names = names_of(ranked);
    assert forall|i: int, j: int| 0 <= i < names.len() && 0 <= j < names.len() && i != j implies names[i] != names[j] by {
        let a = choose|a: int| 0 <= a < scored.len() && ranked[i] == scored[a];
        let b = choose|b: int| 0 <= b < scored.len() && ranked[j] == scored[b];
        if names[i] == names[j] {
            assert(ranked[i].0 == ranked[j].0);
            assert(cands[a] == cands[b]);
            assert(ranked[i] == ranked[j]);
        }
    }
}

/// Top throughput of a backend, in bits per second.
pub open spec fn top_speed(t: TransportType) -> u64 {
    spec_caps(t).max_throughput_bps
}

/// Backends listed from the fastest to the slowest.
pub open spec fn fastest_first(s: Seq<TransportType>) -> bool {
    forall|i: int, j: int| 0 <= i < j < s.len() ==> top_speed(#[trigger] s[i]) >= top_speed(#[trigger] s[j])
}

proof fn lemma_filter_fastest_first(s: Seq<TransportType>, pred: spec_fn(TransportType) -> bool)
    requires
        fastest_first(s),
    ensures
        fastest_first(s.filter(pred)),
    decreases s.len(),
{
    reveal(Seq::filter);
    if s.len() > 0 {
        let d = s.drop_last();
        assert(fastest_first(d)) by {
            assert forall|i: int, j: int| 0 <= i < j < d.len() implies top_speed(#[trigger] d[i]) >= top_speed(#[trigger] d[j]) by {
                assert(d[i] == s[i] && d[j] == s[j]);
            }
        }
        lemma_filter_fastest_first(d, pred);
        let f = d.filter(pred);
        if pred(s.last()) {
            let g = f.push(s.last());
            assert forall|i: int, j: int| 0 <= i < j < g.len() implies top_speed(#[trigger] g[i]) >= top_speed(#[trigger] g[j]) by {
                if j == f.len() {
                    assert(f.contains(g[i]));
                    d.lemma_filter_contains_rev(pred, g[i]);
                    let k = choose|k: int| 0 <= k < d.len() && d[k] == g[i];
                    assert(s[k] == g[i]);
                } else {
                    assert(g[i] == f[i] && g[j] == f[j]);
                }
            }
            assert(s.filter(pred) == g);
        }
    }
}

/// The fallbacks of auto-selection run on the platform and meet the
/// criteria, never hold the selected backend nor repeat one, and come from
/// the fastest backend to the slowest.
pub proof fn lemma_auto_fallbacks_shape(p: Platform, probe: SystemProbe, c: SelectionCriteria, best: TransportType)
    ensures
        ({
            let fb = spec_auto_fallbacks(p, probe, c, best);
            &&& forall|k: int| 0 <= k < fb.len() ==> backend_fits(#[trigger] fb[k], p) && meets_type(fb[k], c)
            &&& !fb.contains(best)
            &&& fb.no_duplicates()
            &&& fastest_first(fb)
        }),
{
    let avail = |t: TransportType| spec_is_available(t, probe);
    let pred = |t: TransportType| backend_fits(t, p) && meets_type(t, c);
    let all = all_backends();
    let listed = spec_available_backends(probe);
    let cands = spec_candidates(p, probe, c);
    let fb = spec_auto_fallbacks(p, probe, c, best);
    assert(fastest_first(all)) by {
        assert forall|i: int, j: int| 0 <= i < j < all.len() implies top_speed(#[trigger] all[i]) >= top_speed(#[trigger] all[j]) by {
            assert(all[0] == TransportType::IoUring && all[1] == TransportType::Dpdk);
            assert(all[2] == TransportType::Quic && all[3] == TransportType::Tcp);
        }
    }
    lemma_filter_fastest_first(all, avail);
    assert(listed == all.filter(avail));
    lemma_filter_fastest_first(listed, pred);
    assert(cands == listed.filter(pred));
    lemma_filter_fastest_first(cands, other_than(best));
    assert(all.no_duplicates());
    lemma_filter_distinct(all, avail);
    lemma_filter_distinct(listed, pred);
    lemma_filter_distinct(cands, other_than(best));
    assert forall|k: int| 0 <= k < fb.len() implies backend_fits(#[trigger] fb[k], p) && meets_type(fb[k], c) by {
        assert(fb.contains(fb[k]));
        cands.lemma_filter_contains_rev(other_than(best), fb[k]);
        let j = choose|j: int| 0 <= j < cands.len() && cands[j] == fb[k];
        listed.lemma_filter_pred(pred, j);
    }
    if fb.contains(best) {
        let k = choose|k: int| 0 <= k < fb.len() && fb[k] == best;
        cands.lemma_filter_pred(other_than(best), k);
    }
}

/// A fallback chain never holds its own primary, and runs from the fastest
/// backend to the slowest.
pub proof fn lemma_fallback_chain_shape(primary: TransportType, p: Platform)
    ensures
        !spec_fallback_chain(primary, p).contains(primary),
        spec_fallback_chain(primary, p).no_duplicates(),
        forall|k: int| 0 <= k < spec_fallback_chain(primary, p).len() ==> backend_fits(
            #[trigger] spec_fallback_chain(primary, p)[k],
            p,
        ),
        primary != TransportType::Tcp && backend_fits(TransportType::Tcp, p) ==> spec_fallback_chain(
            primary,
            p,
        ).contains(TransportType::Tcp),
        forall|i: int, j: int| 0 <= i < j < spec_fallback_chain(primary, p).len() ==>
            spec_caps((#[trigger] spec_fallback_chain(primary, p)[i])).max_throughput_bps
                >= spec_caps((#[trigger] spec_fallback_chain(primary, p)[j])).max_throughput_bps,
{
    reveal_with_fuel(Seq::<_>::filter, 4);
    let chain = spec_fallback_chain(primary, p);
    let order = fallback_order();
    assert(order.drop_last().drop_last().drop_last() =~= Seq::<TransportType>::empty());
    assert(order.drop_last().drop_last() =~= seq![TransportType::IoUring]);
    assert(order.drop_last() =~= seq![TransportType::IoUring, TransportType::Quic]);
    if chain.contains(primary) {
        let k = choose|k: int| 0 <= k < chain.len() && chain[k] == primary;
        order.lemma_filter_pred(fallback_pred(primary, p), k);
    }
    assert forall|k: int| 0 <= k < chain.len() implies backend_fits(#[trigger] chain[k], p) by {
        order.lemma_filter_pred(fallback_pred(primary, p), k);
    }
    if primary != TransportType::Tcp && backend_fits(TransportType::Tcp, p) {
        assert(fallback_pred(primary, p)(order[2]));
        assert(chain[chain.len() - 1] == TransportType::Tcp);
    }
}

/// Backend selector.
pub struct BackendSelector {
    platform: Platform,
    probe: SystemProbe,
}

impl BackendSelector {
    /// The platform selection runs for.
    pub closed spec fn spec_platform(&self) -> Platform {
        self.platform
    }

    /// What the host reported of its backends.
    pub closed spec fn spec_probe(&self) -> SystemProbe {
        self.probe
    }

    /// Create a selector for a platform and what the host reports.
    pub fn new(platform: Platform, probe: SystemProbe) -> (s: Self)
        ensures
            s.spec_platform() == platform,
            s.spec_probe() == probe,
    {
        BackendSelector { platform, probe }
    }

    /// Check if backend figures meet the selection criteria.
    pub fn meets_criteria(&self, caps: &BackendCapabilities, criteria: &SelectionCriteria) -> (r: bool)
        ensures
            r == spec_meets(caps.max_throughput_bps, caps.requires_special_hardware, caps.hardware_cost_usd, *criteria),
    {
        if let Some(min_throughput) = criteria.min_throughput_bps {
            if caps.max_throughput_bps < min_throughput {
                return false;
            }
        }
        if caps.requires_special_hardware && !criteria.allow_special_hardware {
            return false;
        }
        if let Some(max_cost) = criteria.max_hardware_cost_usd {
            if caps.hardware_cost_usd > max_cost {
                return false;
            }
        }
        true
    }

    /// Check if a transport is tuned for the current platform.
    pub fn is_optimized_for_platform(&self, transport_type: TransportType) -> (r: bool)
        ensures
            r == spec_optimized(transport_type, self.spec_platform()),
    {
        match transport_type {
            TransportType::IoUring => str_eq(self.platform.os.as_str(), "linux") && self.platform.supports_io_uring(),
            TransportType::Dpdk => self.platform.supports_dpdk() && self.platform.cpu_cores >= 8,
            TransportType::Quic => true,
            TransportType::Tcp => true,
        }
    }

    /// Score of a backend, in thousandths of a point (0 to 100 000).
    pub fn calculate_score(&self, transport_type: TransportType, criteria: &SelectionCriteria) -> (r: u64)
        ensures
            r == spec_score(transport_type, *criteria, spec_optimized(transport_type, self.spec_platform())),
    {
        let caps = BackendCapabilities::for_transport(transport_type);
        let cap = caps.max_throughput_bps;
        assert(cap <= 20_000_000_000);
        let base: u64 = 400 * (transport_type.priority() as u64);
        let tp: u64 = match criteria.min_throughput_bps {
            Some(m) => if m == 0 {
                30_000
            } else {
                let t = cap * 10_000 / m;
                if t > 30_000 { 30_000 } else { t }
            },
            None => cap * 3 / 1_000_000,
        };
        let zc: u64 = if criteria.prefer_zero_copy && caps.supports_zero_copy { 15_000 } else { 0 };
        let opt: u64 = if self.is_optimized_for_platform(transport_type) { 10_000 } else { 0 };
        let gain = base + tp + zc + opt;
        let pen: u64 = match criteria.max_hardware_cost_usd {
            Some(mc) => {
                if mc == 0 {
                    return 0;
                }
                let cost = caps.hardware_cost_usd as u64;
                if 2 * cost > mc as u64 {
                    proof {
                        assert((cost * 10_000) as int / (mc as int) >= 5_000) by (nonlinear_arith)
                            requires
                                2 * cost > mc,
                                mc > 0,
                        ;
                    }
                    cost * 10_000 / (mc as u64) - 5_000
                } else {
                    0
                }
            },
            None => 0,
        };
        let raw = if gain > pen { gain - pen } else { 0 };
        if raw > 100_000 { 100_000 } else { raw }
    }

    /// Each backend paired with its score.
    pub fn score_backends(&self, backends: &[TransportType], criteria: &SelectionCriteria) -> (r: Vec<(TransportType, u64)>)
        ensures
            r@ == spec_scored(backends@, self.spec_platform(), *criteria),
    {
        let mut out: Vec<(TransportType, u64)> = Vec::new();
        let mut i: usize = 0;
        while i < backends.len()
            invariant
                i <= backends@.len(),
                out@ == spec_scored(backends@.take(i as int), self.spec_platform(), *criteria),
            decreases backends@.len() - i,
        {
            let t = backends[i];
            let score = self.calculate_score(t, criteria);
            out.push((t, score));
            assert(backends@.take(i + 1) =~= backends@.take(i as int).push(t));
            assert(spec_scored(backends@.take(i + 1), self.spec_platform(), *criteria) =~= spec_scored(
                backends@.take(i as int),
                self.spec_platform(),
                *criteria,
            ).push((t, score)));
            i = i + 1;
        }
        assert(backends@.take(backends@.len() as int) =~= backends@);
        out
    }

    /// The backends the host offers that run on the platform and meet the
    /// criteria, in declaration order.
    pub fn get_available_backends(&self, criteria: &SelectionCriteria) -> (r: Vec<TransportType>)
        ensures
            r@ == spec_candidates(self.spec_platform(), self.spec_probe(), *criteria),
    {
        let all = TransportType::available_backends(&self.probe);
        let ghost pred = |t: TransportType| backend_fits(t, self.platform) && meets_type(t, *criteria);
        let mut out: Vec<TransportType> = Vec::new();
        let mut i: usize = 0;
        while i < all.len()
            invariant
                i <= all@.len(),
                all@ == spec_available_backends(self.probe),
                pred == (|t: TransportType| backend_fits(t, self.platform) && meets_type(t, *criteria)),
                out@ == all@.take(i as int).filter(pred),
            decreases all@.len() - i,
        {
            reveal_with_fuel(Seq::<_>::filter, 1);
            let t = all[i];
            assert(all@.take(i + 1).drop_last() =~= all@.take(i as int));
            assert(all@.take(i + 1).last() == t);
            let caps = BackendCapabilities::for_transport(t);
            proof {
                lemma_caps_available(caps, t, self.platform);
            }
            if caps.is_available(&self.platform) && self.meets_criteria(&caps, criteria) {
                out.push(t);
            }
            i = i + 1;
        }
        assert(all@.take(all@.len() as int) =~= all@);
        out
    }

    /// Fallbacks of a backend: io_uring, QUIC and TCP in that order, without
    /// the backend itself and those that do not run on this platform.
    pub fn get_fallback_chain(&self, primary: TransportType) -> (r: Vec<TransportType>)
        ensures
            r@ == spec_fallback_chain(primary, self.spec_platform()),
    {
        let order = vec![TransportType::IoUring, TransportType::Quic, TransportType::Tcp];
        let ghost pred = fallback_pred(primary, self.platform);
        let mut out: Vec<TransportType> = Vec::new();
        let mut i: usize = 0;
        assert(order@ == fallback_order());
        while i < order.len()
            invariant
                i <= order@.len(),
                order@ == fallback_order(),
                pred == fallback_pred(primary, self.platform),
                out@ == order@.take(i as int).filter(pred),
            decreases order@.len() - i,
        {
            reveal_with_fuel(Seq::<_>::filter, 1);
            let t = order[i];
            assert(order@.take(i + 1).drop_last() =~= order@.take(i as int));
            assert(order@.take(i + 1).last() == t);
            let caps = BackendCapabilities::for_transport(t);
            proof {
                lemma_caps_available(caps, t, self.platform);
            }
            if t != primary && caps.is_available(&self.platform) {
                out.push(t);
            }
            i = i + 1;
        }
        assert(order@.take(order@.len() as int) =~= order@);
        out
    }

    /// Get platform information.
    pub fn platform(&self) -> (p: &Platform)
        ensures
            *p == self.spec_platform(),
    {
        &self.platform
    }

    /// Every backend the host offers that runs on this platform, with its
    /// capabilities, in declaration order.
    pub fn list_available_backends(&self) -> (r: Vec<(TransportType, BackendCapabilities)>)
        ensures
            r@.len() == spec_listed(self.spec_platform(), self.spec_probe()).len(),
            forall|i: int| 0 <= i < r@.len() ==> {
                &&& (#[trigger] r@[i]).0 == spec_listed(self.spec_platform(), self.spec_probe())[i]
                &&& spec_for_transport(r@[i].1, r@[i].0)
            },
    {
        let all = TransportType::available_backends(&self.probe);
        let ghost pred = |t: TransportType| backend_fits(t, self.platform);
        let mut out: Vec<(TransportType, BackendCapabilities)> = Vec::new();
        let mut i: usize = 0;
        while i < all.len()
            invariant
                i <= all@.len(),
                all@ == spec_available_backends(self.probe),
                pred == (|t: TransportType| backend_fits(t, self.platform)),
                out@.len() == all@.take(i as int).filter(pred).len(),
                forall|k: int| 0 <= k < out@.len() ==> {
                    &&& (#[trigger] out@[k]).0 == all@.take(i as int).filter(pred)[k]
                    &&& spec_for_transport(out@[k].1, out@[k].0)
                },
            decreases all@.len() - i,
        {
            reveal_with_fuel(Seq::<_>::filter, 1);
            let t = all[i];
            assert(all@.take(i + 1).drop_last() =~= all@.take(i as int));
            assert(all@.take(i + 1).last() == t);
            let caps = BackendCapabilities::for_transport(t);
            proof {
                lemma_caps_available(caps, t, self.platform);
            }
            if caps.is_available(&self.platform) {
                out.push((t, caps));
            }
            i = i + 1;
        }
        assert(all@.take(all@.len() as int) =~= all@);
        out
    }

    /// Why a backend with this score was chosen: a verdict from the score,
    /// then zero-copy, kernel bypass and a throughput margin of at least
    /// twice the requirement, each where it holds, joined by `", "`.
    pub fn get_selection_reason(&self, transport_type: TransportType, score: u64, criteria: &SelectionCriteria) -> (s: String)
        ensures
            s@ == spec_reason(transport_type, score, *criteria),
    {
        let caps = BackendCapabilities::for_transport(transport_type);
        let mut reason = if score >= 80_000 {
            String::from_str("Optimal performance for platform")
        } else if score >= 60_000 {
            String::from_str("Good balance of performance and compatibility")
        } else {
            String::from_str("Best available option")
        };
        if caps.supports_zero_copy && criteria.prefer_zero_copy {
            reason.append(", zero-copy support");
        }
        if caps.uses_kernel_bypass {
            reason.append(", kernel bypass");
        }
        if let Some(m) = criteria.min_throughput_bps {
            let cap = caps.max_throughput_bps;
            assert(cap <= 20_000_000_000);
            if cap / 2 >= m {
                reason.append(", ");
                if m == 0 {
                    reason.append("inf");
                } else {
                    let tenths = (20 * cap + m) / (2 * m);
                    push_decimal(&mut reason, tenths / 10);
                    reason.append(".");
                    let d = (tenths % 10) as u8;
                    string_push(&mut reason, (d + 48) as char);
                }
                reason.append("x required throughput");
            }
        }
        reason
    }

    /// The preferred backend, when it runs on this platform and meets the
    /// criteria, with its fallback chain.
    pub fn try_select_preferred(&self, transport_type: TransportType, criteria: &SelectionCriteria) -> (r: Option<SelectionResult>)
        ensures
            preferred_ok(transport_type, self.spec_platform(), *criteria) ==> (r matches Some(sel) && {
                &&& sel.transport_type == transport_type
                &&& sel.reason@ == "User-specified preferred transport"@
                &&& spec_for_transport(sel.capabilities, transport_type)
                &&& sel.fallbacks@ == spec_fallback_chain(transport_type, self.spec_platform())
            }),
            !preferred_ok(transport_type, self.spec_platform(), *criteria) ==> r is None,
    {
        let capabilities = BackendCapabilities::for_transport(transport_type);
        proof {
            lemma_caps_available(capabilities, transport_type, self.platform);
        }
        if !capabilities.is_available(&self.platform) {
            return None;
        }
        if !self.meets_criteria(&capabilities, criteria) {
            return None;
        }
        let fallbacks = self.get_fallback_chain(transport_type);
        Some(SelectionResult {
            transport_type,
            reason: String::from_str("User-specified preferred transport"),
            capabilities,
            fallbacks,
        })
    }

    /// Select the backend: the preferred one when it can be taken, else the
    /// best scored candidate, the other candidates becoming its fallbacks.
    /// Fails when no backend of this host meets the criteria.
    pub fn select_optimal(&self, criteria: &SelectionCriteria) -> (r: Result<SelectionResult, SelectionError>)
        ensures
            r is Ok <==> spec_selected(self.spec_platform(), self.spec_probe(), *criteria) is Some,
            r matches Ok(sel) ==> {
                &&& spec_selection_ok(sel, self.spec_platform(), self.spec_probe(), *criteria)
                &&& spec_selected(self.spec_platform(), self.spec_probe(), *criteria) == Some(sel.transport_type)
            },
            r matches Err(e) ==> e == SelectionError::NoBackendsAvailable,
    {
        if let Some(preferred) = criteria.preferred_transport {
            if let Some(result) = self.try_select_preferred(preferred, criteria) {
                return Ok(result);
            }
        }
        let available = self.get_available_backends(criteria);
        let ghost scored_spec = spec_scored(available@, self.platform, *criteria);
        proof {
            lemma_rank_entries(scored_spec);
        }
        if available.len() == 0 {
            return Err(SelectionError::NoBackendsAvailable);
        }
        let scored = self.score_backends(available.as_slice(), criteria);
        let ranked = rank_scored(scored);
        let (best_type, best_score) = ranked[0];
        let capabilities = BackendCapabilities::for_transport(best_type);
        let ghost others = other_than(best_type);
        let mut fallbacks: Vec<TransportType> = Vec::new();
        let mut i: usize = 0;
        assert(available@.take(0) =~= Seq::<TransportType>::empty());
        proof {
            reveal(Seq::filter);
        }
        while i < available.len()
            invariant
                i <= available@.len(),
                others == other_than(best_type),
                fallbacks@ == available@.take(i as int).filter(others),
            decreases available@.len() - i,
        {
            let t = available[i];
            proof {
                reveal(Seq::filter);
                assert(available@.take(i + 1).drop_last() =~= available@.take(i as int));
            }
            if t != best_type {
                fallbacks.push(t);
            }
            i = i + 1;
        }
        assert(available@.take(available@.len() as int) =~= available@);

        let reason = self.get_selection_reason(best_type, best_score, criteria);
        Ok(SelectionResult { transport_type: best_type, reason, capabilities, fallbacks })
    }
}

/// The zero-copy bonus is given only when the criteria prefer zero-copy,
/// and only to backends that support it. Turning the preference off leaves
/// the score of every backend without zero-copy as it was; for a backend
/// with zero-copy and no hardware cost beyond half the budget (or no
/// budget), turning it on adds exactly 15 points, unless that would pass the
/// 100-point bound.
pub proof fn lemma_zero_copy_bonus_only_when_preferred(t: TransportType, c: SelectionCriteria, optimized: bool)
    ensures
        ({
            let on = SelectionCriteria { prefer_zero_copy: true, ..c };
            let off = SelectionCriteria { prefer_zero_copy: false, ..c };
            let f = spec_caps(t);
            &&& !f.supports_zero_copy ==> spec_score(t, on, optimized) == spec_score(t, off, optimized)
            &&& f.supports_zero_copy && (match c.max_hardware_cost_usd {
                Some(mc) => mc > 0 && 2 * f.hardware_cost_usd <= mc,
                None => true,
            }) && spec_score(t, off, optimized) + 15_000 <= 100_000 ==> spec_score(t, on, optimized) == spec_score(
                t,
                off,
                optimized,
            ) + 15_000
            &&& spec_score(t, off, optimized) <= spec_score(t, on, optimized)
        }),
{
}

/// Being tuned for the platform adds exactly 10 points unless the score
/// hits a bound; a zero budget scores every backend 0; a budget that the
/// backend's hardware cost stays within half of changes nothing.
pub proof fn lemma_score_platform_bonus_and_budget(t: TransportType, c: SelectionCriteria, optimized: bool)
    ensures
        ({
            let f = spec_caps(t);
            let unbounded = SelectionCriteria { max_hardware_cost_usd: None, ..c };
            &&& c.max_hardware_cost_usd == Some(0u32) ==> spec_score(t, c, optimized) == 0
            &&& (c.max_hardware_cost_usd matches Some(mc) && mc > 0 && 2 * f.hardware_cost_usd <= mc) ==> spec_score(
                t,
                c,
                optimized,
            ) == spec_score(t, unbounded, optimized)
            &&& c.max_hardware_cost_usd is None && spec_score(t, c, false) + 10_000 <= 100_000 && spec_score(t, c, false)
                > 0 ==> spec_score(t, c, true) == spec_score(t, c, false) + 10_000
            &&& spec_score(t, c, false) <= spec_score(t, c, true)
        }),
{
}

} // verus!
