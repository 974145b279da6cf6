//! The filter stage: what goes on of a batch once the filter plugin has
//! decided about its entries.
use std::collections::HashSet;

use vstd::prelude::*;

use crate::entry::{FilterResult, LogEntry};
use crate::parse_stage::ParsedBatch;
use crate::stats::FilterStats;

verus! {

/// How the call of the filter plugin on a batch ended.
pub enum FilterOutcome {
    /// The plugin decided, and reports its own time and the memory it reached.
    Decided { results: Vec<FilterResult>, component_ns: u64, wasm_mem_peak: usize },
    /// The plugin refused the batch.
    PluginError,
    /// The plugin was stopped.
    Trap,
}

/// Whether a plugin's decisions keep an id.
pub open spec fn keeps(results: Seq<FilterResult>, id: u64) -> bool {
    exists|i: int| 0 <= i < results.len() && (#[trigger] results[i]).keep && results[i].id == id
}

/// The entries that a plugin's decisions keep, in their order.
pub open spec fn kept_entries(entries: Seq<LogEntry>, results: Seq<FilterResult>) -> Seq<LogEntry> {
    entries.filter(|e: LogEntry| keeps(results, e.id))
}

/// What comes of a batch in the filter stage.
pub struct FilteredBatch {
    /// What goes on to the next stage.
    pub forward: Option<ParsedBatch>,
    /// What the batch counts for.
    pub counts: Option<FilterStats>,
}

fn keep_ids(results: &Vec<FilterResult>) -> (res: HashSet<u64>)
    ensures
        forall|id: u64| #[trigger] res@.contains(id) <==> keeps(results@, id),
{
    let mut ids: HashSet<u64> = HashSet::new();
    let mut i: usize = 0;
    while i < results.len()
        invariant
            i <= results@.len(),
            forall|id: u64| #[trigger]
                ids@.contains(id) <==> keeps(results@.subrange(0, i as int), id),
        decreases results@.len() - i,
    {
        let ghost before = results@.subrange(0, i as int);
        let ghost after = results@.subrange(0, i + 1);
        let ghost old_ids = ids@;
        if results[i].keep {
            ids.insert(results[i].id);
        }
        assert forall|id: u64| #[trigger] ids@.contains(id) <==> keeps(after, id) by {
            assert(after[i as int] == results@[i as int]);
            if keeps(before, id) {
                let k = choose|k: int|
                    0 <= k < before.len() && (#[trigger] before[k]).keep && before[k].id == id;
                assert(after[k] == before[k]);
            }
            if keeps(after, id) {
                let k = choose|k: int|
                    0 <= k < after.len() && (#[trigger] after[k]).keep && after[k].id == id;
                if k < i {
                    assert(before[k] == after[k]);
                }
            }
        }
        i += 1;
    }
    assert(results@.subrange(0, i as int) =~= results@);
    ids
}

/// Takes the decisions of the filter plugin on a batch. What it keeps goes on,
/// if anything. A batch on which the plugin failed goes on unchanged and
/// counts for nothing.
pub fn filter_batch(pb: ParsedBatch, outcome: FilterOutcome, elapsed: u128) -> (res: FilteredBatch)
    ensures
        match outcome {
            FilterOutcome::Decided { results, component_ns, wasm_mem_peak } => {
                let kept = kept_entries(pb.entries@, results@);
                &&& res.forward is Some <==> kept.len() > 0
                &&& res.forward matches Some(b) ==> b.entries@ == kept && b.seq == pb.seq
                &&& kept.len() <= pb.entries@.len()
                &&& res.counts == Some(
                    FilterStats {
                        total_batches: 1,
                        total_input_entries: pb.entries@.len() as u64,
                        total_kept_entries: kept.len() as u64,
                        total_dropped_entries: (pb.entries@.len() - kept.len()) as u64,
                        total_elapsed: elapsed,
                        wasm_mem_peak_max: wasm_mem_peak,
                        total_component_ns: component_ns,
                    },
                )
            },
            _ => res.forward == Some(pb) && res.counts is None,
        },
{
    match outcome {
        FilterOutcome::Decided { results, component_ns, wasm_mem_peak } => {
            let seq: u64 = pb.seq;
            let input_count: usize = pb.entries.len();
            let ids = keep_ids(&results);
            let ghost all = pb.entries@;
            let ghost pred = |e: LogEntry| keeps(results@, e.id);
            let mut filtered: Vec<LogEntry> = Vec::new();
            proof {
                reveal(Seq::filter);
                assert(all.subrange(0, 0).filter(pred) =~= Seq::empty());
            }
            for e in it: pb.entries.into_iter()
                invariant
                    it.seq() == all,
                    pred == (|e: LogEntry| keeps(results@, e.id)),
                    forall|id: u64| #[trigger] ids@.contains(id) <==> keeps(results@, id),
                    filtered@ == all.subrange(0, it.index() as int).filter(pred),
            {
                let ghost i = it.index() as int;
                proof {
                    reveal(Seq::filter);
                    assert(all.subrange(0, i + 1).drop_last() =~= all.subrange(0, i));
                    assert(all.subrange(0, i + 1).last() == e);
                }
                if ids.contains(&e.id) {
                    filtered.push(e);
                }
            }
            assert(all.subrange(0, all.len() as int) =~= all);
            proof {
                all.lemma_filter_len(pred);
            }
            let kept: usize = filtered.len();
            let counts = FilterStats {
                total_batches: 1,
                total_input_entries: input_count as u64,
                total_kept_entries: kept as u64,
                total_dropped_entries: (input_count - kept) as u64,
                total_elapsed: elapsed,
                wasm_mem_peak_max: wasm_mem_peak,
                total_component_ns: component_ns,
            };
            let forward = if kept > 0 {
                Some(ParsedBatch { entries: filtered, seq })
            } else {
                None
            };
            FilteredBatch { forward, counts: Some(counts) }
        },
        _ => FilteredBatch { forward: Some(pb), counts: None },
    }
}

/// An entry goes on exactly when the plugin keeps its id; entries that the
/// plugin says nothing about do not.
pub proof fn law_kept_exactly(entries: Seq<LogEntry>, results: Seq<FilterResult>, e: LogEntry)
    ensures
        kept_entries(entries, results).contains(e) <==> entries.contains(e) && keeps(
            results,
            e.id,
        ),
{
    let pred = |x: LogEntry| keeps(results, x.id);
    let kept = kept_entries(entries, results);
    if kept.contains(e) {
        entries.lemma_filter_contains_rev(pred, e);
        let i = choose|i: int| 0 <= i < kept.len() && kept[i] == e;
        entries.lemma_filter_pred(pred, i);
    }
    if entries.contains(e) && keeps(results, e.id) {
        let i = choose|i: int| 0 <= i < entries.len() && entries[i] == e;
        entries.lemma_filter_contains(pred, i);
    }
}

/// Whether every entry that came in was either kept or dropped.
pub open spec fn is_balanced(s: FilterStats) -> bool {
    s.total_kept_entries + s.total_dropped_entries == s.total_input_entries
}

/// Every entry is counted once, as kept or as dropped: so in each batch, and so
/// in the counts of all batches together.
pub proof fn law_every_entry_is_counted(
    entries: Seq<LogEntry>,
    results: Seq<FilterResult>,
    before: FilterStats,
    counts: FilterStats,
)
    requires
        entries.len() <= u64::MAX,
        counts.total_input_entries == entries.len(),
        counts.total_kept_entries == kept_entries(entries, results).len(),
        counts.total_dropped_entries == entries.len() - kept_entries(entries, results).len(),
        is_balanced(before),
        before.has_room_for(counts),
    ensures
        is_balanced(counts),
        is_balanced(before.plus(counts)),
{
}

/// What goes on is what at least one decision keeps by its id, whatever others say
/// of that id, in the order in which it came.
pub proof fn law_one_decision_keeps(entries: Seq<LogEntry>, results: Seq<FilterResult>)
    ensures
        kept_entries(entries, results) == entries.filter(
            |e: LogEntry|
                exists|i: int|
                    0 <= i < results.len() && (#[trigger] results[i]).id == e.id && results[i].keep,
        ),
        kept_entries(entries, results).len() <= entries.len(),
{
    let p = |e: LogEntry| keeps(results, e.id);
    let q = |e: LogEntry|
        exists|i: int|
            0 <= i < results.len() && (#[trigger] results[i]).id == e.id && results[i].keep;
    assert(p =~= q);
    entries.lemma_filter_len(p);
}

/// Entries of one batch behind another are filtered as those of each alone.
pub proof fn law_filtering_in_parts(
    a: Seq<LogEntry>,
    b: Seq<LogEntry>,
    results: Seq<FilterResult>,
)
    ensures
        kept_entries(a + b, results) == kept_entries(a, results) + kept_entries(b, results),
{
    Seq::filter_distributes_over_add(a, b, |e: LogEntry| keeps(results, e.id));
}

/// A batch on which the plugin failed goes on as it came. Of any other goes on what
/// the plugin keeps, under the same number, and nothing where it keeps nothing; and
/// every entry that came in counts once, as kept or as dropped.
pub proof fn law_filtered_batch(
    pb: ParsedBatch,
    outcome: FilterOutcome,
    elapsed: u128,
    res: FilteredBatch,
)
    requires
        call_ensures(filter_batch, (pb, outcome, elapsed), res),
    ensures
        !(outcome is Decided) ==> res.forward == Some(pb) && res.counts is None,
        outcome matches FilterOutcome::Decided { results, .. } ==> {
            &&& res.forward matches Some(out) ==> {
                &&& out.seq == pb.seq
                &&& 0 < out.entries@.len() <= pb.entries@.len()
                &&& forall|e: LogEntry| #[trigger]
                    out.entries@.contains(e) <==> pb.entries@.contains(e) && exists|i: int|
                        0 <= i < results@.len() && (#[trigger] results@[i]).id == e.id
                            && results@[i].keep
            }
            &&& res.forward is None ==> forall|k: int, i: int|
                0 <= k < pb.entries@.len() && 0 <= i < results@.len() && (#[trigger] results@[i]).id
                    == (#[trigger] pb.entries@[k]).id ==> !results@[i].keep
            &&& res.counts matches Some(c) && c.total_batches == 1 && c.total_elapsed == elapsed
        },
        pb.entries@.len() <= u64::MAX ==> (res.counts matches Some(c) ==> c.total_input_entries
            == pb.entries@.len() && c.total_kept_entries + c.total_dropped_entries
            == c.total_input_entries && c.total_kept_entries == (match res.forward {
            Some(out) => out.entries@.len(),
            None => 0,
        })),
{
    match outcome {
        FilterOutcome::Decided { results, .. } => {
            let kept = kept_entries(pb.entries@, results@);
            assert forall|e: LogEntry| #[trigger]
                kept.contains(e) <==> pb.entries@.contains(e) && exists|i: int|
                    0 <= i < results@.len() && (#[trigger] results@[i]).id == e.id
                        && results@[i].keep by {
                law_kept_exactly(pb.entries@, results@, e);
            }
            if kept.len() == 0 {
                assert forall|k: int, i: int|
                    0 <= k < pb.entries@.len() && 0 <= i < results@.len() && (
                    #[trigger] results@[i]).id == (
                    #[trigger] pb.entries@[k]).id implies !results@[i].keep by {
                    assert(pb.entries@.contains(pb.entries@[k]));
                    assert(!kept.contains(pb.entries@[k]));
                }
            }
        },
        _ => {},
    }
}

} // verus!
