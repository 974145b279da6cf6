//! The pipeline as a whole: which stages run, and what comes of their workers.
use vstd::prelude::*;

use crate::bytes;
use crate::config::PipelineStages;
use crate::headers::AuthMethod;
use crate::stats;
use crate::stats::{ParseStats, TransportStats};
use crate::text;
use crate::transport_plugin;
use crate::transport_plugin::TransportConfig;
use crate::transport_stage;

verus! {

/// How many parse workers there are.
pub const PARSE_WORKERS: usize = 1;

/// How many parser instances a parse worker holds ready.
pub const POOL_TARGET_SIZE: usize = 3;

/// How many batches may wait for a parse worker.
pub const WORK_CAPACITY: usize = 64;

/// How many batches may wait between two stages.
pub const STAGE_CAPACITY: usize = 20_000;

/// What becomes of a stage.
#[derive(Clone, Copy, Debug, PartialEq, Eq, Structural)]
pub enum StageMode {
    /// It runs.
    Run,
    /// What comes to it is passed on unchanged.
    Bridge,
    /// What comes to it is thrown away, and nothing comes out of it.
    Drain,
}

/// What becomes of all stages.
#[derive(Clone, Copy, Debug, PartialEq, Eq, Structural)]
pub struct PipelinePlan {
    pub parse: StageMode,
    pub filter: StageMode,
    pub format: StageMode,
    pub transport: StageMode,
}

/// What becomes of each stage. A stage that takes no part still takes what comes
/// to it, so that the stages before it are not held up.
pub fn plan_stages(parse: bool, stages: &PipelineStages) -> (res: PipelinePlan)
    ensures
        res.parse == (if parse {
            StageMode::Run
        } else {
            StageMode::Drain
        }),
        res.filter == (if stages.filter {
            StageMode::Run
        } else {
            StageMode::Bridge
        }),
        res.format == (if stages.format {
            StageMode::Run
        } else {
            StageMode::Drain
        }),
        res.transport == (if stages.transport {
            StageMode::Run
        } else {
            StageMode::Drain
        }),
{
    PipelinePlan {
        parse: if parse {
            StageMode::Run
        } else {
            StageMode::Drain
        },
        filter: if stages.filter {
            StageMode::Run
        } else {
            StageMode::Bridge
        },
        format: if stages.format {
            StageMode::Run
        } else {
            StageMode::Drain
        },
        transport: if stages.transport {
            StageMode::Run
        } else {
            StageMode::Drain
        },
    }
}

/// The configuration that each transport worker gives its plugin.
pub fn worker_config(endpoint: String) -> (res: TransportConfig)
    ensures
        res.endpoint == endpoint,
        res.auth is Anonymous,
        res.connect_timeout_ms == 5_000,
        res.request_timeout_ms == 30_000,
        res.retry is None,
        res.extra_headers@.len() == 0,
        res.max_batch_bytes == 4096,
{
    TransportConfig {
        endpoint,
        auth: AuthMethod::Anonymous,
        connect_timeout_ms: 5_000,
        request_timeout_ms: 30_000,
        retry: None,
        extra_headers: Vec::new(),
        max_batch_bytes: 4096,
    }
}

/// How a worker ended.
pub enum WorkerEnd<S, E> {
    Finished(S),
    Failed(E),
    Panicked,
}

/// Why a stage failed: by the failure of a worker, or because one panicked.
pub enum JoinFault<E> {
    Failed(E),
    Panicked(String),
}

/// Whether the first `n` workers finished.
pub open spec fn finished_before<S, E>(ends: Seq<WorkerEnd<S, E>>, n: int) -> bool {
    forall|k: int| 0 <= k < n ==> (#[trigger] ends[k]) is Finished
}

/// The counts of the first `n` parse workers.
pub open spec fn parse_stats_before<E>(
    ends: Seq<WorkerEnd<(ParseStats, u32), E>>,
    n: int,
) -> Seq<ParseStats> {
    Seq::new(n as nat, |k: int| ends[k]->Finished_0.0)
}

/// The batches that each of the first `n` parse workers gave up.
pub open spec fn errors_before<E>(ends: Seq<WorkerEnd<(ParseStats, u32), E>>, n: int) -> Seq<int> {
    Seq::new(n as nat, |k: int| ends[k]->Finished_0.1 as int)
}

/// Whether what the first `n` parse workers counted can be added up.
pub open spec fn parse_ends_summable<E>(
    ends: Seq<WorkerEnd<(ParseStats, u32), E>>,
    n: int,
) -> bool {
    stats::parse_summable(parse_stats_before(ends, n)) && stats::sum(errors_before(ends, n))
        <= u32::MAX
}

/// Whether what the parse workers counted can be added up, as far as they
/// finished one after the other.
pub open spec fn parse_joinable<E>(ends: Seq<WorkerEnd<(ParseStats, u32), E>>) -> bool {
    forall|n: int|
        0 <= n <= ends.len() && finished_before(ends, n) ==> #[trigger] parse_ends_summable(ends, n)
}

/// Whether what the parse workers counted can be added up.
pub fn can_join_parse_workers<E>(ends: &Vec<WorkerEnd<(ParseStats, u32), E>>) -> (res: bool)
    ensures
        res == parse_joinable(ends@),
{
    let mut combined = ParseStats::default();
    let mut total_errors: u32 = 0;
    let ghost all = ends@;
    let mut index: usize = 0;
    assert(parse_stats_before(all, 0) =~= Seq::empty());
    assert(errors_before(all, 0) =~= Seq::empty());
    while index < ends.len()
        invariant
            all == ends@,
            index <= all.len(),
            finished_before(all, index as int),
            combined == stats::parse_total(parse_stats_before(all, index as int)),
            total_errors == stats::sum(errors_before(all, index as int)),
            forall|n: int| 0 <= n <= index ==> #[trigger] parse_ends_summable(all, n),
        decreases all.len() - index,
    {
        match &ends[index] {
            WorkerEnd::Finished((counted, errors)) => {
                let ghost n = index + 1;
                assert(finished_before(all, n));
                assert(parse_ends_summable(all, index as int));
                assert(parse_stats_before(all, n).drop_last() =~= parse_stats_before(
                    all,
                    index as int,
                ));
                assert(errors_before(all, n).drop_last() =~= errors_before(all, index as int));
                if !combined.fits(counted) || *errors > u32::MAX - total_errors {
                    assert(!parse_ends_summable(all, n));
                    return false;
                }
                combined.merge(counted);
                total_errors += *errors;
                assert(parse_ends_summable(all, n));
            },
            _ => {
                assert forall|n: int|
                    0 <= n <= all.len() && finished_before(
                        all,
                        n,
                    ) implies #[trigger] parse_ends_summable(all, n) by {
                    assert(!(all[index as int] is Finished));
                }
                return true;
            },
        }
        index += 1;
    }
    true
}

/// Whether a fault is that of the worker at `i`, all workers before which
/// finished.
pub open spec fn is_parse_fault<E>(
    fault: JoinFault<E>,
    ends: Seq<WorkerEnd<(ParseStats, u32), E>>,
    i: int,
) -> bool {
    &&& 0 <= i < ends.len()
    &&& finished_before(ends, i)
    &&& match ends[i] {
        WorkerEnd::Finished(_) => false,
        WorkerEnd::Failed(e) => fault == JoinFault::<E>::Failed(e),
        WorkerEnd::Panicked => fault matches JoinFault::Panicked(t) && t@ == "parse worker "@
            + text::decimal(i as nat) + " panicked"@,
    }
}

/// Adds up what the parse workers counted and how many batches they gave up. The
/// first worker that did not finish makes the stage fail.
pub fn join_parse_workers<E>(ends: Vec<WorkerEnd<(ParseStats, u32), E>>) -> (res: Result<
    (ParseStats, u32),
    JoinFault<E>,
>)
    requires
        parse_joinable(ends@),
    ensures
        res is Ok <==> finished_before(ends@, ends@.len() as int),
        res matches Ok(total) ==> total.0 == stats::parse_total(
            parse_stats_before(ends@, ends@.len() as int),
        ) && total.1 == stats::sum(errors_before(ends@, ends@.len() as int)),
        res matches Err(fault) ==> exists|i: int| #[trigger] is_parse_fault(fault, ends@, i),
{
    let mut combined = ParseStats::default();
    let mut total_errors: u32 = 0;
    let ghost all = ends@;
    let mut index: usize = 0;
    let total: usize = ends.len();
    assert(parse_stats_before(all, 0) =~= Seq::empty());
    assert(errors_before(all, 0) =~= Seq::empty());
    for end in it: ends.into_iter()
        invariant
            it.seq() == all,
            it.index() == index,
            all.len() == total,
            finished_before(all, index as int),
            combined == stats::parse_total(parse_stats_before(all, index as int)),
            total_errors == stats::sum(errors_before(all, index as int)),
            parse_joinable(all),
    {
        match end {
            WorkerEnd::Finished((counted, errors)) => {
                proof {
                    let n = index + 1;
                    assert(finished_before(all, n));
                    assert(parse_ends_summable(all, n));
                    assert(parse_stats_before(all, n).drop_last() =~= parse_stats_before(
                        all,
                        index as int,
                    ));
                    assert(errors_before(all, n).drop_last() =~= errors_before(all, index as int));
                }
                combined.merge(&counted);
                total_errors += errors;
            },
            WorkerEnd::Failed(e) => {
                let fault = JoinFault::Failed(e);
                assert(is_parse_fault(fault, all, index as int));
                return Err(fault);
            },
            WorkerEnd::Panicked => {
                let mut told = "parse worker ".to_string();
                text::push_decimal(&mut told, index as u128);
                told.append(" panicked");
                let fault = JoinFault::Panicked(told);
                assert(is_parse_fault(fault, all, index as int));
                return Err(fault);
            },
        }
        index += 1;
    }
    Ok((combined, total_errors))
}

/// The counts of the first `n` transport workers.
pub open spec fn transport_stats_before<E>(
    ends: Seq<WorkerEnd<TransportStats, E>>,
    n: int,
) -> Seq<TransportStats> {
    Seq::new(n as nat, |k: int| ends[k]->Finished_0)
}

/// Whether what the first `n` transport workers counted can be added up.
pub open spec fn transport_ends_summable<E>(
    ends: Seq<WorkerEnd<TransportStats, E>>,
    n: int,
) -> bool {
    stats::transport_summable(transport_stats_before(ends, n))
}

/// Whether what the transport workers counted can be added up, as far as they
/// finished one after the other.
pub open spec fn transport_joinable<E>(ends: Seq<WorkerEnd<TransportStats, E>>) -> bool {
    forall|n: int|
        0 <= n <= ends.len() && finished_before(ends, n) ==> #[trigger] transport_ends_summable(
            ends,
            n,
        )
}

/// Whether what the transport workers counted can be added up.
pub fn can_join_transport_workers<E>(ends: &Vec<WorkerEnd<TransportStats, E>>) -> (res: bool)
    ensures
        res == transport_joinable(ends@),
{
    let mut combined = TransportStats::default();
    let ghost all = ends@;
    let mut index: usize = 0;
    assert(transport_stats_before(all, 0) =~= Seq::empty());
    while index < ends.len()
        invariant
            all == ends@,
            index <= all.len(),
            finished_before(all, index as int),
            combined == stats::transport_total(transport_stats_before(all, index as int)),
            forall|n: int| 0 <= n <= index ==> #[trigger] transport_ends_summable(all, n),
        decreases all.len() - index,
    {
        match &ends[index] {
            WorkerEnd::Finished(counted) => {
                let ghost n = index + 1;
                assert(finished_before(all, n));
                assert(transport_ends_summable(all, index as int));
                assert(transport_stats_before(all, n).drop_last() =~= transport_stats_before(
                    all,
                    index as int,
                ));
                if !combined.fits(counted) {
                    assert(!transport_ends_summable(all, n));
                    return false;
                }
                combined.merge(counted);
                assert(transport_ends_summable(all, n));
            },
            _ => {
                assert forall|n: int|
                    0 <= n <= all.len() && finished_before(
                        all,
                        n,
                    ) implies #[trigger] transport_ends_summable(all, n) by {
                    assert(!(all[index as int] is Finished));
                }
                return true;
            },
        }
        index += 1;
    }
    true
}

/// Whether a fault is that of the worker at `i`, all workers before which
/// finished.
pub open spec fn is_transport_fault<E>(
    fault: JoinFault<E>,
    ends: Seq<WorkerEnd<TransportStats, E>>,
    i: int,
) -> bool {
    &&& 0 <= i < ends.len()
    &&& finished_before(ends, i)
    &&& match ends[i] {
        WorkerEnd::Finished(_) => false,
        WorkerEnd::Failed(e) => fault == JoinFault::<E>::Failed(e),
        WorkerEnd::Panicked => fault matches JoinFault::Panicked(t) && t@
            == "transport worker panicked"@,
    }
}

/// Adds up what the transport workers counted. The first worker that did not
/// finish makes the stage fail.
pub fn join_transport_workers<E>(ends: Vec<WorkerEnd<TransportStats, E>>) -> (res: Result<
    TransportStats,
    JoinFault<E>,
>)
    requires
        transport_joinable(ends@),
    ensures
        res is Ok <==> finished_before(ends@, ends@.len() as int),
        res matches Ok(total) ==> total == stats::transport_total(
            transport_stats_before(ends@, ends@.len() as int),
        ),
        res matches Err(fault) ==> exists|i: int| #[trigger] is_transport_fault(fault, ends@, i),
{
    let mut combined = TransportStats::default();
    let ghost all = ends@;
    let mut index: usize = 0;
    let total: usize = ends.len();
    assert(transport_stats_before(all, 0) =~= Seq::empty());
    for end in it: ends.into_iter()
        invariant
            it.seq() == all,
            it.index() == index,
            all.len() == total,
            finished_before(all, index as int),
            combined == stats::transport_total(transport_stats_before(all, index as int)),
            transport_joinable(all),
    {
        match end {
            WorkerEnd::Finished(counted) => {
                proof {
                    let n = index + 1;
                    assert(finished_before(all, n));
                    assert(transport_ends_summable(all, n));
                    assert(transport_stats_before(all, n).drop_last() =~= transport_stats_before(
                        all,
                        index as int,
                    ));
                }
                combined.merge(&counted);
            },
            WorkerEnd::Failed(e) => {
                let fault = JoinFault::Failed(e);
                assert(is_transport_fault(fault, all, index as int));
                return Err(fault);
            },
            WorkerEnd::Panicked => {
                let fault = JoinFault::Panicked("transport worker panicked".to_string());
                assert(is_transport_fault(fault, all, index as int));
                return Err(fault);
            },
        }
        index += 1;
    }
    Ok(combined)
}

/// All that is posted when the lines from `start` on are sent: the transport
/// stage cuts them into chunks of at most `max` bytes, and the transport plugin
/// packs each chunk into bodies of at most `limit`.
pub open spec fn posted_from(lines: Seq<Seq<u8>>, start: int, max: int, limit: int) -> Seq<u8>
    decreases lines.len() - start,
{
    let end = transport_stage::chunk_stop(lines, start, 0, max);
    if 0 <= start < end <= lines.len() {
        bytes::joined(transport_plugin::packed(lines.subrange(start, end), limit)) + posted_from(
            lines,
            end,
            max,
            limit,
        )
    } else {
        Seq::empty()
    }
}

/// However a batch is cut up on its way, what is posted is all its lines, in
/// their order, each once and with a newline at its end.
pub proof fn law_all_lines_are_posted(lines: Seq<Seq<u8>>, max: int, limit: int)
    requires
        max >= 0,
    ensures
        posted_from(lines, 0, max, limit) == bytes::joined(transport_plugin::all_ended(lines)),
{
    lemma_posted(lines, 0, max, limit);
    assert(lines.subrange(0, lines.len() as int) =~= lines);
}

proof fn lemma_posted(lines: Seq<Seq<u8>>, start: int, max: int, limit: int)
    requires
        max >= 0,
        0 <= start <= lines.len(),
    ensures
        posted_from(lines, start, max, limit) == bytes::joined(
            transport_plugin::all_ended(lines.subrange(start, lines.len() as int)),
        ),
    decreases lines.len() - start,
{
    let all = lines.len() as int;
    let rest = lines.subrange(start, all);
    if start < all {
        assert(lines.subrange(start, start) =~= Seq::empty());
        transport_stage::lemma_chunk_stop(lines, start, start, max);
        let end = transport_stage::chunk_stop(lines, start, 0, max);
        let chunk = lines.subrange(start, end);
        let later = lines.subrange(end, all);
        lemma_posted(lines, end, max, limit);
        transport_plugin::law_bodies_hold_all_lines(chunk, limit);
        assert(transport_plugin::all_ended(rest) =~= transport_plugin::all_ended(chunk)
            + transport_plugin::all_ended(later));
        bytes::lemma_joined_add(
            transport_plugin::all_ended(chunk),
            transport_plugin::all_ended(later),
        );
    } else {
        assert(transport_plugin::all_ended(rest) =~= Seq::empty());
    }
}

/// The worker that makes the parse stage fail is the first that did not finish:
/// all before it did, whatever became of those behind it. Its failure is told as it
/// was, and a panic by the number of the worker.
pub proof fn law_first_parse_worker_decides<E>(
    fault: JoinFault<E>,
    ends: Seq<WorkerEnd<(ParseStats, u32), E>>,
    i: int,
)
    requires
        is_parse_fault(fault, ends, i),
    ensures
        forall|k: int| 0 <= k < i ==> (#[trigger] ends[k]) is Finished,
        !(ends[i] is Finished),
        ends[i] matches WorkerEnd::Failed(e) ==> fault == JoinFault::<E>::Failed(e),
        ends[i] is Panicked ==> (fault matches JoinFault::Panicked(t) && text::in_order(
            t@,
            seq!["worker "@ + text::decimal(i as nat), "panicked"@],
        )),
{
    if ends[i] is Panicked {
        reveal_strlit("parse worker ");
        reveal_strlit("worker ");
        reveal_strlit(" panicked");
        reveal_strlit("panicked");
        reveal_strlit("parse ");
        reveal_strlit(" ");
        let told = fault->Panicked_0@;
        let none = Seq::<Seq<char>>::empty();
        let end = Seq::<char>::empty();
        let who = "worker "@ + text::decimal(i as nat);
        text::lemma_nothing_in_order(end);
        assert(" panicked"@ =~= " "@ + "panicked"@ + end);
        text::lemma_in_order(" panicked"@, " "@, "panicked"@, end, none);
        assert("parse worker "@ =~= "parse "@ + "worker "@);
        assert(told =~= "parse "@ + who + " panicked"@);
        text::lemma_in_order(told, "parse "@, who, " panicked"@, seq!["panicked"@] + none);
        assert(seq![who] + (seq!["panicked"@] + none) =~= seq![who, "panicked"@]);
    }
}

/// The worker that makes the transport stage fail is the first that did not
/// finish. Its failure is told as it was.
pub proof fn law_first_transport_worker_decides<E>(
    fault: JoinFault<E>,
    ends: Seq<WorkerEnd<TransportStats, E>>,
    i: int,
)
    requires
        is_transport_fault(fault, ends, i),
    ensures
        forall|k: int| 0 <= k < i ==> (#[trigger] ends[k]) is Finished,
        !(ends[i] is Finished),
        ends[i] matches WorkerEnd::Failed(e) ==> fault == JoinFault::<E>::Failed(e),
        ends[i] is Panicked ==> fault is Panicked,
{
}

/// What is added up is what each worker counted, in their order and none left out.
pub proof fn law_every_worker_is_counted<E>(
    p: Seq<WorkerEnd<(ParseStats, u32), E>>,
    t: Seq<WorkerEnd<TransportStats, E>>,
    i: int,
)
    requires
        finished_before(p, p.len() as int),
        finished_before(t, t.len() as int),
    ensures
        parse_stats_before(p, p.len() as int).len() == p.len(),
        errors_before(p, p.len() as int).len() == p.len(),
        transport_stats_before(t, t.len() as int).len() == t.len(),
        0 <= i < p.len() ==> p[i] == WorkerEnd::<_, E>::Finished(
            (
                parse_stats_before(p, p.len() as int)[i],
                errors_before(p, p.len() as int)[i] as u32,
            ),
        ),
        0 <= i < t.len() ==> t[i] == WorkerEnd::<_, E>::Finished(
            transport_stats_before(t, t.len() as int)[i],
        ),
{
    if 0 <= i < p.len() {
        assert(p[i] is Finished);
    }
    if 0 <= i < t.len() {
        assert(t[i] is Finished);
    }
}

/// Where there is no worker, or the first did not finish, there is nothing that
/// could not be added up; and workers that can be added up can be without the last.
pub proof fn law_fewer_workers_can_be_joined<E>(
    p: Seq<WorkerEnd<(ParseStats, u32), E>>,
    t: Seq<WorkerEnd<TransportStats, E>>,
)
    ensures
        parse_joinable(p) && p.len() > 0 ==> parse_joinable(p.drop_last()),
        transport_joinable(t) && t.len() > 0 ==> transport_joinable(t.drop_last()),
        p.len() == 0 ==> parse_joinable(p),
        t.len() == 0 ==> transport_joinable(t),
        p.len() > 0 && !(p[0] is Finished) ==> parse_joinable(p),
        t.len() > 0 && !(t[0] is Finished) ==> transport_joinable(t),
{
    assert(parse_stats_before(p, 0) =~= Seq::empty());
    assert(errors_before(p, 0) =~= Seq::empty());
    assert(transport_stats_before(t, 0) =~= Seq::empty());
    if parse_joinable(p) && p.len() > 0 {
        let fewer = p.drop_last();
        assert forall|n: int|
            0 <= n <= fewer.len() && finished_before(fewer, n) implies #[trigger] parse_ends_summable(
            fewer,
            n,
        ) by {
            assert forall|k: int| 0 <= k < n implies (#[trigger] p[k]) is Finished by {
                assert(fewer[k] == p[k]);
            }
            assert(parse_ends_summable(p, n));
            assert(parse_stats_before(fewer, n) =~= parse_stats_before(p, n));
            assert(errors_before(fewer, n) =~= errors_before(p, n));
        }
    }
    if transport_joinable(t) && t.len() > 0 {
        let fewer = t.drop_last();
        assert forall|n: int|
            0 <= n <= fewer.len() && finished_before(
                fewer,
                n,
            ) implies #[trigger] transport_ends_summable(fewer, n) by {
            assert forall|k: int| 0 <= k < n implies (#[trigger] t[k]) is Finished by {
                assert(fewer[k] == t[k]);
            }
            assert(transport_ends_summable(t, n));
            assert(transport_stats_before(fewer, n) =~= transport_stats_before(t, n));
        }
    }
}

/// Only a filter that takes no part lets through what comes to it. Every other stage
/// that takes no part throws it away, and a stage that takes part runs, whatever
/// the others do.
pub proof fn law_stages_run_where_they_take_part(
    parse: bool,
    stages: PipelineStages,
    plan: PipelinePlan,
)
    requires
        call_ensures(plan_stages, (parse, &stages), plan),
    ensures
        plan.parse is Run <==> parse,
        plan.filter is Run <==> stages.filter,
        plan.format is Run <==> stages.format,
        plan.transport is Run <==> stages.transport,
        !(plan.filter is Drain),
        !(plan.parse is Bridge) && !(plan.format is Bridge) && !(plan.transport is Bridge),
{
}

} // verus!
