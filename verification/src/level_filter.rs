//! The filter plugin that keeps what is at least a warning.
use vstd::prelude::*;

use crate::entry::{FilterResult, LogEntry, LogLevel, ParsedEntry, PluginError};
use crate::filter_stage;
use crate::parse_stage;

verus! {

/// Whether an entry of a level is kept.
pub open spec fn is_kept(level: LogLevel) -> bool {
    level.rank() >= LogLevel::Warn.rank()
}

/// The decisions about a number of entries.
pub open spec fn decisions(entries: Seq<LogEntry>) -> Seq<FilterResult> {
    Seq::new(
        entries.len(),
        |i: int| FilterResult { id: entries[i].id, keep: is_kept(entries[i].level) },
    )
}

/// Decides about entries, one after the other.
pub fn do_filter(struct_data: &Vec<LogEntry>) -> (res: Result<Vec<FilterResult>, PluginError>)
    ensures
        res matches Ok(results) && results@ == decisions(struct_data@),
{
    let mut results: Vec<FilterResult> = Vec::new();
    let mut i: usize = 0;
    while i < struct_data.len()
        invariant
            i <= struct_data@.len(),
            results@ == decisions(struct_data@).subrange(0, i as int),
        decreases struct_data@.len() - i,
    {
        let keep = struct_data[i].level.rank() >= LogLevel::Warn.rank();
        results.push(FilterResult { id: struct_data[i].id, keep });
        i += 1;
        assert(results@ =~= decisions(struct_data@).subrange(0, i as int));
    }
    assert(results@ =~= decisions(struct_data@));
    Ok(results)
}

/// Where no id occurs twice, the filter stage with this plugin passes on the
/// entries that are at least warnings, in their order, and no others.
pub proof fn law_warnings_pass(entries: Seq<LogEntry>)
    requires
        forall|i: int, j: int|
            0 <= i < j < entries.len() ==> (#[trigger] entries[i]).id != (
            #[trigger] entries[j]).id,
    ensures
        filter_stage::kept_entries(entries, decisions(entries)) == entries.filter(
            |e: LogEntry| is_kept(e.level),
        ),
{
    let results = decisions(entries);
    let by_id = |e: LogEntry| filter_stage::keeps(results, e.id);
    let by_level = |e: LogEntry| is_kept(e.level);
    assert forall|i: int| 0 <= i < entries.len() implies by_id(entries[i]) == by_level(
        entries[i],
    ) by {
        let e = entries[i];
        assert(results[i] == (FilterResult { id: e.id, keep: is_kept(e.level) }));
        if by_id(e) {
            let k = choose|k: int|
                0 <= k < results.len() && (#[trigger] results[k]).keep && results[k].id == e.id;
            assert(entries[k].id == entries[i].id);
        }
    }
    lemma_same_filter(entries, by_id, by_level);
}

/// Of the entries of a parsed batch, those that are at least warnings pass the
/// filter stage with this plugin, in their order, and no others.
pub proof fn law_parsed_warnings_pass(parsed: Seq<ParsedEntry>, seq: int)
    requires
        seq >= 0,
        parse_stage::ids_fit(seq, parsed.len() as int),
    ensures
        ({
            let entries = parse_stage::with_ids(parsed, seq);
            filter_stage::kept_entries(entries, decisions(entries)) == entries.filter(
                |e: LogEntry| is_kept(e.level),
            )
        }),
{
    let entries = parse_stage::with_ids(parsed, seq);
    assert forall|i: int, j: int| 0 <= i < j < entries.len() implies (#[trigger] entries[i]).id != (
    #[trigger] entries[j]).id by {
        assert(entries[i].id == parse_stage::entry_id(seq, i));
        assert(entries[j].id == parse_stage::entry_id(seq, j));
    }
    law_warnings_pass(entries);
}

proof fn lemma_same_filter(
    entries: Seq<LogEntry>,
    p: spec_fn(LogEntry) -> bool,
    q: spec_fn(LogEntry) -> bool,
)
    requires
        forall|i: int| 0 <= i < entries.len() ==> p(#[trigger] entries[i]) == q(entries[i]),
    ensures
        entries.filter(p) == entries.filter(q),
    decreases entries.len(),
{
    reveal(Seq::filter);
    if entries.len() > 0 {
        let shorter = entries.drop_last();
        assert(forall|i: int| 0 <= i < shorter.len() ==> shorter[i] == entries[i]);
        assert(entries.last() == entries[entries.len() - 1]);
        lemma_same_filter(shorter, p, q);
    }
}

/// What is kept is exactly what is a warning or more severe.
pub proof fn law_warnings_and_above_are_kept(level: LogLevel)
    ensures
        is_kept(level) <==> match level {
            LogLevel::Debug => false,
            LogLevel::Info => false,
            LogLevel::Warn => true,
            LogLevel::Error => true,
            LogLevel::Crit => true,
            LogLevel::Alert => true,
            LogLevel::Emerg => true,
        },
{
}

/// Where a level is kept every level that is more severe is kept too.
pub proof fn law_keeping_follows_severity(a: LogLevel, b: LogLevel)
    requires
        is_kept(a),
        a.spec_rank() <= b.spec_rank(),
    ensures
        is_kept(b),
{
}

/// There is one decision about each entry, under its id and in the order of the
/// entries. It depends on the level of that entry alone: it is to keep what is a
/// warning or more severe, and to drop the rest.
pub proof fn law_every_entry_is_decided(entries: Seq<LogEntry>, i: int)
    requires
        0 <= i < entries.len(),
    ensures
        decisions(entries).len() == entries.len(),
        decisions(entries)[i].id == entries[i].id,
        !decisions(entries)[i].keep <==> entries[i].level is Debug || entries[i].level is Info,
{
    law_warnings_and_above_are_kept(entries[i].level);
}

/// Where no id occurs twice, what passes the filter stage with this plugin is what
/// is neither a debug message nor information, and nothing of it is lost.
pub proof fn law_no_warning_is_lost(entries: Seq<LogEntry>, e: LogEntry)
    requires
        forall|i: int, j: int|
            0 <= i < j < entries.len() ==> (#[trigger] entries[i]).id != (
            #[trigger] entries[j]).id,
    ensures
        filter_stage::kept_entries(entries, decisions(entries)).contains(e) <==> entries.contains(e)
            && !(e.level is Debug) && !(e.level is Info),
{
    law_warnings_pass(entries);
    law_warnings_and_above_are_kept(e.level);
    let pred = |x: LogEntry| is_kept(x.level);
    let kept = entries.filter(pred);
    if kept.contains(e) {
        entries.lemma_filter_contains_rev(pred, e);
        let i = choose|i: int| 0 <= i < kept.len() && kept[i] == e;
        entries.lemma_filter_pred(pred, i);
    }
    if entries.contains(e) && is_kept(e.level) {
        let i = choose|i: int| 0 <= i < entries.len() && entries[i] == e;
        entries.lemma_filter_contains(pred, i);
    }
}

/// Deciding about entries always succeeds, and gives one decision about each: to
/// keep it exactly where it is a warning or more severe.
pub proof fn law_filter_decides_by_severity(
    entries: Vec<LogEntry>,
    res: Result<Vec<FilterResult>, PluginError>,
)
    requires
        call_ensures(do_filter, (&entries,), res),
    ensures
        res matches Ok(results) && results@.len() == entries@.len() && forall|i: int|
            0 <= i < results@.len() ==> (#[trigger] results@[i]).id == entries@[i].id && (
            results@[i].keep <==> match entries@[i].level {
                LogLevel::Debug | LogLevel::Info => false,
                LogLevel::Warn
                | LogLevel::Error
                | LogLevel::Crit
                | LogLevel::Alert
                | LogLevel::Emerg => true,
            }),
{
    assert forall|i: int| 0 <= i < entries@.len() implies decisions(entries@)[i].id
        == entries@[i].id && (#[trigger] decisions(entries@)[i].keep <==> is_kept(
        entries@[i].level,
    )) by {
        law_every_entry_is_decided(entries@, i);
        law_warnings_and_above_are_kept(entries@[i].level);
    }
}

} // verus!
