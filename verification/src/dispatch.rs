//! The dispatcher: gathers lines into batches and decides when a batch is
//! passed on to the parse workers.
use std::time::Instant;

use vstd::prelude::*;

use crate::batch;
use crate::batch::{Batch, FlushReason};

verus! {

/// A batch on its way to a parse worker.
pub struct WorkBatch {
    pub lines: Vec<String>,
    pub bytes: usize,
    pub seq: u64,
    pub reason: FlushReason,
    pub created_at: Instant,
}

impl WorkBatch {
    /// The lines, the number and the reason of the batch.
    pub open spec fn view(&self) -> WorkModel {
        WorkModel { lines: batch::texts(self.lines@), seq: self.seq as int, reason: self.reason }
    }
}

/// What a batch that is passed on comes down to.
pub struct WorkModel {
    pub lines: Seq<Seq<char>>,
    pub seq: int,
    pub reason: FlushReason,
}

/// What the dispatcher hears.
pub enum DispatchEvent {
    /// A line came in.
    Line(Seq<char>),
    /// No line came in for the time that the dispatcher waits.
    Timeout,
    /// No line will come in any more.
    Disconnected,
}

/// What the dispatcher knows.
pub struct DispatchModel {
    /// The lines that wait.
    pub pending: Seq<Seq<char>>,
    /// The number of the next batch.
    pub seq: int,
    /// The most bytes that a batch of several lines has.
    pub budget: int,
    /// The most lines that a batch has.
    pub max_lines: int,
}

impl DispatchModel {
    /// Whether a line would be too much for the lines that wait.
    pub open spec fn over_size(self, line: Seq<char>) -> bool {
        self.pending.len() > 0 && batch::total_bytes(self.pending) + batch::byte_len(line)
            > self.budget
    }

    /// Whether no further line may join the lines that wait.
    pub open spec fn full(self) -> bool {
        self.pending.len() > 0 && self.pending.len() >= self.max_lines
    }

    /// The lines that wait, passed on.
    pub open spec fn work(self, reason: FlushReason) -> WorkModel {
        WorkModel { lines: self.pending, seq: self.seq, reason }
    }

    /// What an event makes of the dispatcher, and the batch that it passes on.
    pub open spec fn step(self, event: DispatchEvent) -> (DispatchModel, Option<WorkModel>) {
        match event {
            DispatchEvent::Line(line) => {
                let size = self.over_size(line);
                let line_count = self.full();
                if size || line_count {
                    (
                        DispatchModel { pending: seq![line], seq: self.seq + 1, ..self },
                        Some(
                            self.work(
                                FlushReason { size, time: false, line_count, eof: false },
                            ),
                        ),
                    )
                } else {
                    (DispatchModel { pending: self.pending.push(line), ..self }, None)
                }
            },
            DispatchEvent::Timeout => {
                if self.pending.len() > 0 {
                    (
                        DispatchModel { pending: Seq::empty(), seq: self.seq + 1, ..self },
                        Some(
                            self.work(
                                FlushReason {
                                    size: false,
                                    time: true,
                                    line_count: false,
                                    eof: false,
                                },
                            ),
                        ),
                    )
                } else {
                    (self, None)
                }
            },
            DispatchEvent::Disconnected => {
                if self.pending.len() > 0 {
                    (
                        DispatchModel { pending: Seq::empty(), ..self },
                        Some(
                            self.work(
                                FlushReason {
                                    size: false,
                                    time: false,
                                    line_count: false,
                                    eof: true,
                                },
                            ),
                        ),
                    )
                } else {
                    (self, None)
                }
            },
        }
    }

    /// What several events make of the dispatcher.
    pub open spec fn after(self, events: Seq<DispatchEvent>) -> DispatchModel
        decreases events.len(),
    {
        if events.len() == 0 {
            self
        } else {
            self.after(events.drop_last()).step(events.last()).0
        }
    }

    /// The batches that it passes on at several events, in order.
    pub open spec fn passed_on(self, events: Seq<DispatchEvent>) -> Seq<WorkModel>
        decreases events.len(),
    {
        if events.len() == 0 {
            Seq::empty()
        } else {
            let earlier = self.passed_on(events.drop_last());
            match self.after(events.drop_last()).step(events.last()).1 {
                Some(work) => earlier.push(work),
                None => earlier,
            }
        }
    }

    /// A list of lines that keeps to the limits: no more lines than a batch
    /// may have, and no more bytes unless there is only one line.
    pub open spec fn keeps_limits(self, lines: Seq<Seq<char>>) -> bool {
        &&& lines.len() <= self.max_lines || lines.len() <= 1
        &&& batch::total_bytes(lines) <= self.budget || lines.len() <= 1
    }
}

/// The lines among several events.
pub open spec fn lines_in(events: Seq<DispatchEvent>) -> Seq<Seq<char>>
    decreases events.len(),
{
    if events.len() == 0 {
        Seq::empty()
    } else {
        match events.last() {
            DispatchEvent::Line(line) => lines_in(events.drop_last()).push(line),
            _ => lines_in(events.drop_last()),
        }
    }
}

/// The lines of several batches, one behind the other.
pub open spec fn lines_of(works: Seq<WorkModel>) -> Seq<Seq<char>>
    decreases works.len(),
{
    if works.len() == 0 {
        Seq::empty()
    } else {
        lines_of(works.drop_last()) + works.last().lines
    }
}

/// Takes the lines out of a batch and makes them the batch numbered `seq`. What
/// is left is begun anew, now.
pub fn take_work_batch(batch: &mut Batch, seq: u64, reason: FlushReason) -> (res: WorkBatch)
    ensures
        res.lines == old(batch).lines,
        res@ == (WorkModel { lines: old(batch)@, seq: seq as int, reason }),
        res.bytes == old(batch).bytes,
        res.created_at == old(batch).created_at,
        final(batch)@ == Seq::<Seq<char>>::empty(),
        final(batch).bytes == 0,
        final(batch).well_formed(),
{
    take_work_batch_at(batch, seq, reason, batch::now())
}

/// Takes the lines out of a batch and makes them the batch numbered `seq`. What
/// is left is begun anew, at a given time.
pub fn take_work_batch_at(batch: &mut Batch, seq: u64, reason: FlushReason, at: Instant) -> (res:
    WorkBatch)
    ensures
        res.lines == old(batch).lines,
        res@ == (WorkModel { lines: old(batch)@, seq: seq as int, reason }),
        res.bytes == old(batch).bytes,
        res.created_at == old(batch).created_at,
        final(batch)@ == Seq::<Seq<char>>::empty(),
        final(batch).bytes == 0,
        final(batch).created_at == at,
        final(batch).well_formed(),
{
    let created_at = batch.created_at;
    let bytes: usize = batch.bytes;
    let mut lines: Vec<String> = Vec::new();
    std::mem::swap(&mut lines, &mut batch.lines);
    batch.begin_at(at);
    WorkBatch { lines, bytes, seq, reason, created_at }
}

/// How long the dispatcher waits for the next line, in nanoseconds: the full
/// time while no line waits, and what is left of it otherwise.
pub open spec fn time_left(batch_is_empty: bool, max_wait: int, elapsed: int) -> int {
    if batch_is_empty {
        max_wait
    } else if elapsed < max_wait {
        max_wait - elapsed
    } else {
        0
    }
}

/// How long the dispatcher waits for the next line, in nanoseconds.
pub fn receive_timeout(batch_is_empty: bool, max_wait: u128, elapsed: u128) -> (res: u128)
    ensures
        res == time_left(batch_is_empty, max_wait as int, elapsed as int),
{
    if batch_is_empty {
        max_wait
    } else {
        max_wait.saturating_sub(elapsed)
    }
}

/// The dispatcher.
pub struct Dispatcher {
    pub batch: Batch,
    pub seq: u64,
    pub safe_data_budget: usize,
    pub max_batch_lines: usize,
}

impl Dispatcher {
    /// What the dispatcher knows.
    pub open spec fn view(&self) -> DispatchModel {
        DispatchModel {
            pending: self.batch@,
            seq: self.seq as int,
            budget: self.safe_data_budget as int,
            max_lines: self.max_batch_lines as int,
        }
    }

    /// Whether a dispatcher is what an event makes of another, and gives what the
    /// event passes on. The batch that is passed on keeps the time at which it
    /// was begun, and the time of the batch that waits stays where nothing is
    /// passed on.
    pub open spec fn heard(
        before: Dispatcher,
        event: DispatchEvent,
        after: Dispatcher,
        given: Option<WorkBatch>,
    ) -> bool {
        &&& after.well_formed()
        &&& after@ == before@.step(event).0
        &&& match before@.step(event).1 {
            Some(work) => given matches Some(w) && w@ == work && w.lines == before.batch.lines
                && w.bytes == before.batch.bytes && w.created_at == before.batch.created_at,
            None => given is None && after.batch.created_at == before.batch.created_at,
        }
    }

    /// The dispatcher's batch knows its size.
    pub open spec fn well_formed(&self) -> bool {
        self.batch.well_formed()
    }

    /// A dispatcher that has heard nothing yet.
    pub fn new(safe_data_budget: usize, max_batch_lines: usize) -> (res: Dispatcher)
        ensures
            res.well_formed(),
            res@ == (DispatchModel {
                pending: Seq::empty(),
                seq: 0,
                budget: safe_data_budget as int,
                max_lines: max_batch_lines as int,
            }),
    {
        Dispatcher::begun_at(safe_data_budget, max_batch_lines, batch::now())
    }

    /// A dispatcher that has heard nothing yet, begun at a given time.
    pub fn begun_at(safe_data_budget: usize, max_batch_lines: usize, at: Instant) -> (res:
        Dispatcher)
        ensures
            res.well_formed(),
            res@ == (DispatchModel {
                pending: Seq::empty(),
                seq: 0,
                budget: safe_data_budget as int,
                max_lines: max_batch_lines as int,
            }),
            res.batch.created_at == at,
    {
        Dispatcher { batch: Batch::begun_at(at), seq: 0, safe_data_budget, max_batch_lines }
    }

    /// How long to wait for the next line from now on, in nanoseconds, where lines
    /// wait for at most `max_wait`.
    pub fn wait(&self, max_wait: u128) -> (res: u128)
        ensures
            exists|at: Instant|
                res == time_left(
                    self@.pending.len() == 0,
                    max_wait as int,
                    #[trigger] batch::nanos_between(at, self.batch.created_at) as int,
                ),
    {
        self.wait_at(max_wait, batch::now())
    }

    /// How long to wait for the next line from a given time on, in nanoseconds,
    /// where lines wait for at most `max_wait`.
    pub fn wait_at(&self, max_wait: u128, at: Instant) -> (res: u128)
        ensures
            res == time_left(
                self@.pending.len() == 0,
                max_wait as int,
                batch::nanos_between(at, self.batch.created_at) as int,
            ),
    {
        receive_timeout(self.batch.is_empty(), max_wait, self.batch.elapsed_at(at))
    }

    /// Whether a line can be taken in, with its bytes counted and a batch that has
    /// to go before it numbered.
    pub fn can_take_line(&self, item: &String) -> (res: bool)
        requires
            self.well_formed(),
        ensures
            res == (self.batch.bytes + batch::byte_len(item@) <= usize::MAX && (self@.step(
                DispatchEvent::Line(item@),
            ).1 is Some ==> self.seq < u64::MAX)),
    {
        let line_len: usize = batch::len_in_bytes(item.as_str());
        if line_len > usize::MAX - self.batch.bytes {
            return false;
        }
        self.seq < u64::MAX || self.batch.is_empty() || (self.batch.bytes + line_len
            <= self.safe_data_budget && self.batch.len() < self.max_batch_lines)
    }

    /// Whether the batch that waits can be numbered at a timeout.
    pub fn can_take_timeout(&self) -> (res: bool)
        ensures
            res == (self@.step(DispatchEvent::Timeout).1 is Some ==> self.seq < u64::MAX),
    {
        self.batch.is_empty() || self.seq < u64::MAX
    }

    /// Takes a line in, and gives the batch that has to go before it. The next
    /// batch is then begun now.
    pub fn on_line(&mut self, item: String) -> (res: Option<WorkBatch>)
        requires
            old(self).well_formed(),
            old(self).batch.bytes + batch::byte_len(item@) <= usize::MAX,
            old(self)@.step(DispatchEvent::Line(item@)).1 is Some ==> old(self).seq < u64::MAX,
        ensures
            Dispatcher::heard(*old(self), DispatchEvent::Line(item@), *final(self), res),
    {
        self.on_line_at(item, batch::now())
    }

    /// Takes a line in, and gives the batch that has to go before it. The next
    /// batch is then begun at the given time.
    pub fn on_line_at(&mut self, item: String, at: Instant) -> (res: Option<WorkBatch>)
        requires
            old(self).well_formed(),
            old(self).batch.bytes + batch::byte_len(item@) <= usize::MAX,
            old(self)@.step(DispatchEvent::Line(item@)).1 is Some ==> old(self).seq < u64::MAX,
        ensures
            Dispatcher::heard(*old(self), DispatchEvent::Line(item@), *final(self), res),
            res is Some ==> final(self).batch.created_at == at,
    {
        let line_len: usize = batch::len_in_bytes(item.as_str());
        let size: bool = !self.batch.is_empty() && self.batch.bytes + line_len
            > self.safe_data_budget;
        let line_count: bool = !self.batch.is_empty() && self.batch.len() >= self.max_batch_lines;
        let mut work: Option<WorkBatch> = None;
        if size || line_count {
            let reason = FlushReason { size, time: false, line_count, eof: false };
            work = Some(take_work_batch_at(&mut self.batch, self.seq, reason, at));
            self.seq += 1;
        }
        self.batch.push(item);
        assert(Seq::<Seq<char>>::empty().push(item@) =~= seq![item@]);
        work
    }

    /// Hears that no line came for the time it waits, and gives the batch that
    /// has to go for that. The next batch is then begun now.
    pub fn on_timeout(&mut self) -> (res: Option<WorkBatch>)
        requires
            old(self).well_formed(),
            old(self)@.step(DispatchEvent::Timeout).1 is Some ==> old(self).seq < u64::MAX,
        ensures
            Dispatcher::heard(*old(self), DispatchEvent::Timeout, *final(self), res),
    {
        self.on_timeout_at(batch::now())
    }

    /// Hears that no line came for the time it waits, and gives the batch that
    /// has to go for that. The next batch is then begun at the given time.
    pub fn on_timeout_at(&mut self, at: Instant) -> (res: Option<WorkBatch>)
        requires
            old(self).well_formed(),
            old(self)@.step(DispatchEvent::Timeout).1 is Some ==> old(self).seq < u64::MAX,
        ensures
            Dispatcher::heard(*old(self), DispatchEvent::Timeout, *final(self), res),
            res is Some ==> final(self).batch.created_at == at,
    {
        if self.batch.is_empty() {
            return None;
        }
        let reason = FlushReason { size: false, time: true, line_count: false, eof: false };
        let work = take_work_batch_at(&mut self.batch, self.seq, reason, at);
        self.seq += 1;
        Some(work)
    }

    /// Hears that the input has ended, and gives the last batch. What is left is
    /// begun anew, now.
    pub fn on_disconnect(&mut self) -> (res: Option<WorkBatch>)
        requires
            old(self).well_formed(),
        ensures
            Dispatcher::heard(*old(self), DispatchEvent::Disconnected, *final(self), res),
    {
        self.on_disconnect_at(batch::now())
    }

    /// Hears that the input has ended, and gives the last batch. What is left is
    /// begun anew, at the given time.
    pub fn on_disconnect_at(&mut self, at: Instant) -> (res: Option<WorkBatch>)
        requires
            old(self).well_formed(),
        ensures
            Dispatcher::heard(*old(self), DispatchEvent::Disconnected, *final(self), res),
            res is Some ==> final(self).batch.created_at == at,
    {
        if self.batch.is_empty() {
            return None;
        }
        let reason = FlushReason { size: false, time: false, line_count: false, eof: true };
        Some(take_work_batch_at(&mut self.batch, self.seq, reason, at))
    }
}

/// No line is lost, doubled or moved: the lines passed on, with those that
/// wait behind them, are the lines that came in.
pub proof fn law_no_line_lost(start: DispatchModel, events: Seq<DispatchEvent>)
    requires
        start.pending.len() == 0,
    ensures
        lines_of(start.passed_on(events)) + start.after(events).pending == lines_in(events),
    decreases events.len(),
{
    if events.len() == 0 {
        assert(lines_of(start.passed_on(events)) + start.after(events).pending =~= lines_in(
            events,
        ));
    } else {
        let fewer = events.drop_last();
        law_no_line_lost(start, fewer);
        let before = start.after(fewer);
        let works = start.passed_on(fewer);
        match before.step(events.last()).1 {
            Some(work) => {
                assert(works.push(work).drop_last() =~= works);
                assert(lines_of(works.push(work)) == lines_of(works) + before.pending);
            },
            None => {},
        }
        assert(lines_of(start.passed_on(events)) + start.after(events).pending =~= lines_in(
            events,
        ));
    }
}

/// Once the input has ended no line waits: all of them have been passed on.
pub proof fn law_end_passes_all_on(start: DispatchModel, events: Seq<DispatchEvent>)
    requires
        start.pending.len() == 0,
        events.len() > 0,
        events.last() is Disconnected,
    ensures
        start.after(events).pending.len() == 0,
        lines_of(start.passed_on(events)) == lines_in(events),
{
    law_no_line_lost(start, events);
    assert(lines_of(start.passed_on(events)) + start.after(events).pending =~= lines_of(
        start.passed_on(events),
    ));
}

/// What is said of a batch that is passed on: it has a line, keeps to the
/// limits, and has one reason or, at a line, up to two.
pub open spec fn sound_work(start: DispatchModel, work: WorkModel) -> bool {
    &&& work.lines.len() > 0
    &&& start.keeps_limits(work.lines)
    &&& work.reason.size || work.reason.line_count || work.reason.time || work.reason.eof
    &&& work.reason.time || work.reason.eof ==> !work.reason.size && !work.reason.line_count
    &&& !(work.reason.time && work.reason.eof)
}

/// Every batch that is passed on has a line, keeps to the limits, and has one
/// reason or, at a line, up to two.
pub proof fn law_batches_keep_limits(start: DispatchModel, events: Seq<DispatchEvent>)
    requires
        start.pending.len() == 0,
    ensures
        start.after(events).budget == start.budget,
        start.after(events).max_lines == start.max_lines,
        start.keeps_limits(start.after(events).pending),
        forall|i: int|
            0 <= i < start.passed_on(events).len() ==> sound_work(
                start,
                #[trigger] start.passed_on(events)[i],
            ),
    decreases events.len(),
{
    if events.len() > 0 {
        let fewer = events.drop_last();
        law_batches_keep_limits(start, fewer);
        let before = start.after(fewer);
        match events.last() {
            DispatchEvent::Line(line) => {
                assert(before.pending.push(line).drop_last() =~= before.pending);
                assert(seq![line].drop_last() =~= Seq::empty());
            },
            _ => {},
        }
        match before.step(events.last()).1 {
            Some(work) => {
                assert(work.lines == before.pending);
                assert(sound_work(start, work));
                assert(start.passed_on(events) == start.passed_on(fewer).push(work));
            },
            None => {
                assert(start.passed_on(events) == start.passed_on(fewer));
            },
        }
    }
}

proof fn lemma_numbers(start: DispatchModel, events: Seq<DispatchEvent>)
    requires
        forall|i: int| 0 <= i < events.len() ==> !(#[trigger] events[i] is Disconnected),
    ensures
        start.after(events).seq == start.seq + start.passed_on(events).len(),
        forall|i: int|
            0 <= i < start.passed_on(events).len() ==> (#[trigger] start.passed_on(events)[i]).seq
                == start.seq + i,
    decreases events.len(),
{
    if events.len() > 0 {
        let fewer = events.drop_last();
        assert(events[events.len() - 1] == events.last());
        assert forall|i: int| 0 <= i < fewer.len() implies !(#[trigger] fewer[i] is Disconnected) by {
            assert(fewer[i] == events[i]);
        }
        lemma_numbers(start, fewer);
    }
}

/// Batches are numbered without a gap, in the order in which they are passed
/// on, up to and with the one that the end of the input brings.
pub proof fn law_numbers_without_gap(start: DispatchModel, events: Seq<DispatchEvent>)
    requires
        forall|i: int| 0 <= i < events.len() - 1 ==> !(#[trigger] events[i] is Disconnected),
    ensures
        forall|i: int|
            0 <= i < start.passed_on(events).len() ==> (#[trigger] start.passed_on(events)[i]).seq
                == start.seq + i,
{
    if events.len() > 0 {
        let fewer = events.drop_last();
        assert forall|i: int| 0 <= i < fewer.len() implies !(#[trigger] fewer[i] is Disconnected) by {
            assert(fewer[i] == events[i]);
        }
        lemma_numbers(start, fewer);
    }
}

proof fn lemma_no_end_yet(start: DispatchModel, events: Seq<DispatchEvent>)
    requires
        forall|i: int| 0 <= i < events.len() ==> !(#[trigger] events[i] is Disconnected),
    ensures
        forall|i: int|
            0 <= i < start.passed_on(events).len() ==> !(#[trigger] start.passed_on(
                events,
            )[i]).reason.eof,
    decreases events.len(),
{
    if events.len() > 0 {
        let fewer = events.drop_last();
        assert(events[events.len() - 1] == events.last());
        assert forall|i: int| 0 <= i < fewer.len() implies !(#[trigger] fewer[i] is Disconnected) by {
            assert(fewer[i] == events[i]);
        }
        lemma_no_end_yet(start, fewer);
        let earlier = start.passed_on(fewer);
        let all = start.passed_on(events);
        assert(forall|i: int| 0 <= i < earlier.len() ==> all[i] == earlier[i]);
    }
}

/// Only the last batch is marked as that of the end of the input, and it is
/// where the end found lines that waited.
pub proof fn law_end_marks_last_batch(start: DispatchModel, events: Seq<DispatchEvent>)
    requires
        events.len() > 0,
        forall|i: int| 0 <= i < events.len() - 1 ==> !(#[trigger] events[i] is Disconnected),
    ensures
        forall|i: int|
            0 <= i < start.passed_on(events).len() ==> ((#[trigger] start.passed_on(
                events,
            )[i]).reason.eof <==> i == start.passed_on(events).len() - 1 && events.last()
                is Disconnected && start.after(events.drop_last()).pending.len() > 0),
        events.last() is Disconnected && start.after(events.drop_last()).pending.len() > 0
            ==> start.passed_on(events).len() > 0,
{
    let fewer = events.drop_last();
    assert forall|i: int| 0 <= i < fewer.len() implies !(#[trigger] fewer[i] is Disconnected) by {
        assert(fewer[i] == events[i]);
    }
    lemma_no_end_yet(start, fewer);
    let earlier = start.passed_on(fewer);
    let all = start.passed_on(events);
    assert(forall|i: int| 0 <= i < earlier.len() ==> all[i] == earlier[i]);
}

/// At a timeout whatever waits is passed on, for the time alone and under the
/// next number, and no line waits any more. Where none waited nothing happens.
pub proof fn law_timeout_passes_all_on(m: DispatchModel)
    ensures
        m.pending.len() > 0 ==> m.step(DispatchEvent::Timeout).1 == Some(
            WorkModel {
                lines: m.pending,
                seq: m.seq,
                reason: FlushReason { size: false, time: true, line_count: false, eof: false },
            },
        ),
        m.pending.len() == 0 ==> m.step(DispatchEvent::Timeout).1 is None,
        m.step(DispatchEvent::Timeout).0.pending.len() == 0,
        m.step(DispatchEvent::Timeout).0.seq == m.seq + m.step(
            DispatchEvent::Timeout,
        ).1.is_some() as int,
        m.step(DispatchEvent::Timeout).0.budget == m.budget,
        m.step(DispatchEvent::Timeout).0.max_lines == m.max_lines,
{
}

/// At the end of the input whatever waits is passed on, for the end alone and
/// under the next number, and no line waits any more. Where none waited nothing
/// happens.
pub proof fn law_end_passes_rest_on(m: DispatchModel)
    ensures
        m.pending.len() > 0 ==> m.step(DispatchEvent::Disconnected).1 == Some(
            WorkModel {
                lines: m.pending,
                seq: m.seq,
                reason: FlushReason { size: false, time: false, line_count: false, eof: true },
            },
        ),
        m.pending.len() == 0 ==> m.step(DispatchEvent::Disconnected).1 is None,
        m.step(DispatchEvent::Disconnected).0.pending.len() == 0,
{
}

/// A line joins those that wait exactly where the batch with it keeps to both
/// limits, or where it is the first. Else those that wait are passed on before
/// it, all of them, under the next number and for each limit that the batch
/// with the line would break, and the line alone waits.
pub proof fn law_line_joins_within_limits(m: DispatchModel, line: Seq<char>)
    ensures
        ({
            let joined = m.pending.push(line);
            let (after, passed) = m.step(DispatchEvent::Line(line));
            let too_large = batch::total_bytes(joined) > m.budget;
            let too_long = joined.len() > m.max_lines;
            &&& passed is None <==> joined.len() == 1 || !too_large && !too_long
            &&& passed is None ==> after.pending == joined && after.seq == m.seq
            &&& passed matches Some(work) ==> {
                &&& work.lines == m.pending
                &&& work.seq == m.seq
                &&& work.reason == (FlushReason {
                    size: too_large,
                    time: false,
                    line_count: too_long,
                    eof: false,
                })
                &&& after.pending.len() == 1
                &&& after.seq == m.seq + 1
            }
            &&& after.pending.last() == line
            &&& after.budget == m.budget
            &&& after.max_lines == m.max_lines
        }),
{
    assert(m.pending.push(line).drop_last() =~= m.pending);
}

/// What a dispatcher that hears of something gives is the batch that it held, with
/// all its lines, its size, its time and the dispatcher's number. At a timeout and
/// at the end it gives it wherever a line waits, for that reason alone, and holds
/// nothing any more. A line is then the last that it holds, behind those that it
/// held before, unless the batch with the line would break a limit: then it gives
/// those, for each limit that would be broken. Where it gives nothing it loses
/// nothing, and the time at which its batch was begun stays.
pub proof fn law_given_batch_is_the_one_held(
    before: Dispatcher,
    event: DispatchEvent,
    after: Dispatcher,
    given: Option<WorkBatch>,
)
    requires
        before.batch.bytes == batch::total_bytes(batch::texts(before.batch.lines@)),
        Dispatcher::heard(before, event, after, given),
    ensures
        given matches Some(w) ==> {
            &&& w.lines == before.batch.lines
            &&& w.bytes == before.batch.bytes
            &&& w.created_at == before.batch.created_at
            &&& w.seq == before.seq
            &&& w.lines@.len() > 0
            &&& event is Timeout ==> w.reason == (FlushReason {
                size: false,
                time: true,
                line_count: false,
                eof: false,
            })
            &&& event is Disconnected ==> w.reason == (FlushReason {
                size: false,
                time: false,
                line_count: false,
                eof: true,
            })
            &&& event matches DispatchEvent::Line(line) ==> w.reason == (FlushReason {
                size: before.batch.bytes + vstd::utf8::encode_utf8(line).len()
                    > before.safe_data_budget,
                time: false,
                line_count: before.batch.lines@.len() >= before.max_batch_lines,
                eof: false,
            })
        },
        given is None ==> after.batch.created_at == before.batch.created_at && after.seq
            == before.seq,
        given is Some && !(event is Disconnected) ==> after.seq == before.seq + 1,
        !(event is Line) ==> (given is Some <==> before.batch.lines@.len() > 0)
            && after.batch.lines@.len() == 0 && after.batch.bytes == 0,
        event matches DispatchEvent::Line(line) ==> {
            &&& given is Some <==> before.batch.lines@.len() > 0 && (before.batch.bytes
                + vstd::utf8::encode_utf8(line).len() > before.safe_data_budget
                || before.batch.lines@.len() >= before.max_batch_lines)
            &&& given is Some ==> after.batch.lines@.len() == 1
            &&& given is None ==> after.batch.lines@.len() == before.batch.lines@.len() + 1 && (
            forall|i: int|
                0 <= i < before.batch.lines@.len() ==> (#[trigger] after.batch.lines@[i])@
                    == before.batch.lines@[i]@)
            &&& after.batch.lines@.last()@ == line
            &&& after.batch.bytes == vstd::utf8::encode_utf8(line).len() + (if given is Some {
                0
            } else {
                before.batch.bytes as int
            })
        },
        after.safe_data_budget == before.safe_data_budget,
        after.max_batch_lines == before.max_batch_lines,
{
    let m = before@;
    law_timeout_passes_all_on(m);
    law_end_passes_rest_on(m);
    batch::law_texts_are_of_each_line(before.batch.lines@);
    batch::law_texts_are_of_each_line(after.batch.lines@);
    assert(before@.pending.len() == before.batch.lines@.len());
    assert(after@.pending.len() == after.batch.lines@.len());
    match event {
        DispatchEvent::Line(line) => {
            law_line_joins_within_limits(m, line);
            batch::law_sizes_add_up(m.pending, seq![line], line);
            assert(m.pending + seq![line] =~= m.pending.push(line));
            let n = after.batch.lines@.len() - 1;
            assert(after@.pending[n] == after.batch.lines@[n]@);
            if given is Some {
                assert(after@.pending =~= seq![line]);
            } else {
                assert forall|i: int| 0 <= i < before.batch.lines@.len() implies (
                #[trigger] after.batch.lines@[i])@ == before.batch.lines@[i]@ by {
                    assert(after@.pending[i] == m.pending[i]);
                }
            }
        },
        _ => {
            assert(after@.pending =~= Seq::empty());
        },
    }
}

/// Lines that wait are waited with until their time is up and no longer: what
/// has passed and what is still waited together are the longest wait, or what has
/// passed where that is more. While no line waits the wait is always the same.
pub proof fn law_wait_ends_in_time(max_wait: int, elapsed: int)
    requires
        0 <= max_wait,
        0 <= elapsed,
    ensures
        elapsed <= max_wait ==> elapsed + time_left(false, max_wait, elapsed) == max_wait,
        time_left(false, max_wait, elapsed) == 0 <==> max_wait <= elapsed,
        time_left(false, max_wait, elapsed) >= 0,
        time_left(true, max_wait, elapsed) == max_wait,
{
}

} // verus!
