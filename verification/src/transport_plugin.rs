//! The transport plugin: it packs lines into the bodies of HTTP requests, posts
//! one body after the other, tries again where it may, and counts what it sent.
use vstd::prelude::*;

use crate::bytes;
use crate::endpoint;
use crate::endpoint::Scheme;
use crate::entry::PluginError;
use crate::format_stage;
use crate::headers;
use crate::headers::AuthMethod;
use crate::text;

verus! {

/// How often and after what time a request is made again.
#[derive(Clone, Copy, Debug, PartialEq, Eq, Structural)]
pub struct RetryConfig {
    pub max_retries: u32,
    pub initial_backoff_ms: u32,
    pub max_backoff_ms: u32,
}

/// How and where lines are sent.
pub struct TransportConfig {
    pub endpoint: String,
    pub auth: AuthMethod,
    /// Zero for no limit.
    pub connect_timeout_ms: u32,
    /// Zero for no limit.
    pub request_timeout_ms: u32,
    pub retry: Option<RetryConfig>,
    pub extra_headers: Vec<(String, String)>,
    /// How many bytes go into one body. Zero for no limit.
    pub max_batch_bytes: u32,
}

/// The byte that ends a line.
pub const NEWLINE: u8 = 10;

/// A line with a newline at its end.
pub open spec fn ended(line: Seq<u8>) -> Seq<u8> {
    if line.len() > 0 && line.last() == NEWLINE {
        line
    } else {
        line.push(NEWLINE)
    }
}

/// Lines, each with a newline at its end.
pub open spec fn all_ended(lines: Seq<Seq<u8>>) -> Seq<Seq<u8>> {
    Seq::new(lines.len(), |i: int| ended(lines[i]))
}

/// The bodies that lines are packed into. A line goes into the body before it
/// while that, and room for the line and a newline, stay within the limit.
/// Without a limit there is one body.
pub open spec fn packed(lines: Seq<Seq<u8>>, limit: int) -> Seq<Seq<u8>>
    decreases lines.len(),
{
    if lines.len() == 0 {
        Seq::empty()
    } else {
        let before = packed(lines.drop_last(), limit);
        let line = lines.last();
        if before.len() > 0 && (limit == 0 || before.last().len() + line.len() + 1 <= limit) {
            before.drop_last().push(before.last() + ended(line))
        } else {
            before.push(ended(line))
        }
    }
}

fn push_ended(out: &mut Vec<u8>, line: &Vec<u8>)
    ensures
        final(out)@ == old(out)@ + ended(line@),
{
    bytes::push_bytes(out, line.as_slice());
    if line.len() == 0 || line[line.len() - 1] != NEWLINE {
        out.push(NEWLINE);
    }
    assert(out@ =~= old(out)@ + ended(line@));
}

/// Whether a line still fits into a body that is begun.
fn fits(body_len: usize, line_len: usize, limit: usize) -> (res: bool)
    ensures
        res == (limit == 0 || body_len + line_len + 1 <= limit),
{
    limit == 0 || (body_len < limit && line_len < limit - body_len)
}

/// Packs lines into the bodies of requests.
pub fn pack_bodies(lines: &Vec<Vec<u8>>, max_batch_bytes: u32) -> (res: Vec<Vec<u8>>)
    ensures
        bytes::views(res@) == packed(bytes::views(lines@), max_batch_bytes as int),
{
    let limit: usize = max_batch_bytes as usize;
    let mut bodies: Vec<Vec<u8>> = Vec::new();
    if lines.len() == 0 {
        assert(bytes::views(bodies@) =~= Seq::empty());
        return bodies;
    }
    let ghost all = bytes::views(lines@);
    let mut current: Vec<u8> = Vec::new();
    push_ended(&mut current, &lines[0]);
    let mut i: usize = 1;
    proof {
        let first = all.subrange(0, 1);
        assert(first.drop_last() =~= Seq::empty());
        assert(packed(first.drop_last(), limit as int) =~= Seq::empty());
        assert(current@ =~= ended(all[0]));
        assert(bytes::views(bodies@) =~= Seq::empty());
        assert(bytes::views(bodies@).push(current@) =~= packed(first, limit as int));
    }
    while i < lines.len()
        invariant
            1 <= i <= lines@.len(),
            all == bytes::views(lines@),
            packed(all.subrange(0, i as int), limit as int) == bytes::views(bodies@).push(current@),
        decreases lines@.len() - i,
    {
        let ghost part = all.subrange(0, i + 1);
        let ghost done = bytes::views(bodies@);
        assert(part.drop_last() =~= all.subrange(0, i as int));
        assert(done.push(current@).drop_last() =~= done);
        if !fits(current.len(), lines[i].len(), limit) {
            let mut full: Vec<u8> = Vec::new();
            std::mem::swap(&mut full, &mut current);
            proof {
                bytes::lemma_views_push(bodies@, full);
            }
            bodies.push(full);
            push_ended(&mut current, &lines[i]);
            assert(current@ =~= ended(all[i as int]));
        } else {
            push_ended(&mut current, &lines[i]);
        }
        i += 1;
    }
    assert(all.subrange(0, i as int) =~= all);
    proof {
        bytes::lemma_views_push(bodies@, current);
    }
    bodies.push(current);
    bodies
}

/// Whatever the limit, the bodies hold all lines, in their order, each with a
/// newline at its end, and nothing else.
pub proof fn law_bodies_hold_all_lines(lines: Seq<Seq<u8>>, limit: int)
    ensures
        bytes::joined(packed(lines, limit)) == bytes::joined(all_ended(lines)),
    decreases lines.len(),
{
    if lines.len() == 0 {
        assert(all_ended(lines) =~= Seq::empty());
    } else {
        let before = packed(lines.drop_last(), limit);
        let line = lines.last();
        law_bodies_hold_all_lines(lines.drop_last(), limit);
        assert(all_ended(lines) =~= all_ended(lines.drop_last()).push(ended(line)));
        bytes::lemma_joined_push(all_ended(lines.drop_last()), ended(line));
        if before.len() > 0 && (limit == 0 || before.last().len() + line.len() + 1 <= limit) {
            bytes::lemma_joined_push(before.drop_last(), before.last() + ended(line));
            assert(bytes::joined(packed(lines, limit)) =~= bytes::joined(before.drop_last())
                + before.last() + ended(line));
        } else {
            bytes::lemma_joined_push(before, ended(line));
        }
    }
}

/// The lines that each body holds.
pub open spec fn grouped(lines: Seq<Seq<u8>>, limit: int) -> Seq<Seq<Seq<u8>>>
    decreases lines.len(),
{
    if lines.len() == 0 {
        Seq::empty()
    } else {
        let groups = grouped(lines.drop_last(), limit);
        let before = packed(lines.drop_last(), limit);
        let line = lines.last();
        if before.len() > 0 && (limit == 0 || before.last().len() + line.len() + 1 <= limit) {
            groups.drop_last().push(groups.last().push(line))
        } else {
            groups.push(seq![line])
        }
    }
}

/// Each body is made of its lines, at least one, each with a newline at its end.
/// The lines of all bodies, one behind the other, are the lines that were given.
pub proof fn law_bodies_are_made_of_lines(lines: Seq<Seq<u8>>, limit: int)
    ensures
        grouped(lines, limit).len() == packed(lines, limit).len(),
        grouped(lines, limit).flatten() == lines,
        forall|k: int|
            0 <= k < grouped(lines, limit).len() ==> {
                let group = #[trigger] grouped(lines, limit)[k];
                &&& group.len() > 0
                &&& packed(lines, limit)[k] == bytes::joined(all_ended(group))
            },
    decreases lines.len(),
{
    if lines.len() == 0 {
        assert(grouped(lines, limit).flatten() =~= lines);
    } else {
        let shorter = lines.drop_last();
        let line = lines.last();
        law_bodies_are_made_of_lines(shorter, limit);
        let groups = grouped(shorter, limit);
        let before = packed(shorter, limit);
        let now = grouped(lines, limit);
        let bodies = packed(lines, limit);
        groups.lemma_flatten_and_flatten_alt_are_equivalent();
        now.lemma_flatten_and_flatten_alt_are_equivalent();
        let last = now.last();
        assert(now.flatten() =~= now.drop_last().flatten_alt() + last) by {
            assert(now.flatten_alt() == now.drop_last().flatten_alt() + last);
        }
        if before.len() > 0 && (limit == 0 || before.last().len() + line.len() + 1 <= limit) {
            assert(now.drop_last() =~= groups.drop_last());
            assert(groups.flatten_alt() == groups.drop_last().flatten_alt() + groups.last());
            assert(all_ended(last) =~= all_ended(groups.last()).push(ended(line)));
            bytes::lemma_joined_push(all_ended(groups.last()), ended(line));
            assert(groups.last() == groups[groups.len() - 1]);
            assert(bodies.last() == bytes::joined(all_ended(last)));
        } else {
            assert(now.drop_last() =~= groups);
            assert(all_ended(last) =~= Seq::<Seq<u8>>::empty().push(ended(line)));
            bytes::lemma_joined_push(Seq::empty(), ended(line));
            assert(bodies.last() =~= bytes::joined(all_ended(last)));
        }
        assert(lines =~= shorter.push(line));
        assert(now.flatten() =~= lines);
        assert forall|k: int| 0 <= k < now.len() implies {
            let group = #[trigger] now[k];
            &&& group.len() > 0
            &&& bodies[k] == bytes::joined(all_ended(group))
        } by {
            if k < now.len() - 1 {
                assert(now[k] == groups[k]);
                assert(bodies[k] == before[k]);
            }
        }
    }
}

/// A body that holds two lines or more is no larger than the limit. No body is
/// empty, and each ends a line.
pub proof fn law_bodies_keep_limit(lines: Seq<Seq<u8>>, limit: int)
    requires
        limit > 0,
    ensures
        forall|k: int|
            0 <= k < packed(lines, limit).len() ==> {
                let body = #[trigger] packed(lines, limit)[k];
                &&& grouped(lines, limit)[k].len() >= 2 ==> body.len() <= limit
                &&& body.len() > 0
                &&& body.last() == NEWLINE
            },
    decreases lines.len(),
{
    if lines.len() > 0 {
        let shorter = lines.drop_last();
        let line = lines.last();
        law_bodies_keep_limit(shorter, limit);
        law_bodies_are_made_of_lines(shorter, limit);
        let groups = grouped(shorter, limit);
        let before = packed(shorter, limit);
        let bodies = packed(lines, limit);
        assert forall|k: int| 0 <= k < bodies.len() implies {
            let body = #[trigger] bodies[k];
            &&& grouped(lines, limit)[k].len() >= 2 ==> body.len() <= limit
            &&& body.len() > 0
            &&& body.last() == NEWLINE
        } by {
            if k < bodies.len() - 1 {
                assert(bodies[k] == before[k]);
                assert(grouped(lines, limit)[k] == groups[k]);
            } else {
                assert(bodies[k].last() == ended(line).last());
            }
        }
    }
}

/// Without a limit all lines go into one body.
pub proof fn law_no_limit_one_body(lines: Seq<Seq<u8>>)
    requires
        lines.len() > 0,
    ensures
        packed(lines, 0) == seq![bytes::joined(all_ended(lines))],
    decreases lines.len(),
{
    if lines.len() > 1 {
        law_no_limit_one_body(lines.drop_last());
    }
    law_bodies_hold_all_lines(lines, 0);
    let bodies = packed(lines, 0);
    assert(bodies.len() == 1) by {
        if lines.len() == 1 {
            assert(packed(lines.drop_last(), 0) =~= Seq::empty());
        }
    }
    assert(bodies.drop_last() =~= Seq::empty());
    assert(bytes::joined(bodies) =~= bodies[0]) by {
        reveal_with_fuel(bytes::joined, 2);
    }
    assert(bodies =~= seq![bytes::joined(all_ended(lines))]);
}

/// A request that is ready to be made.
pub struct RequestPlan {
    pub scheme: Scheme,
    pub authority: String,
    pub path: String,
    /// In the order in which they are set.
    pub headers: Vec<(String, String)>,
    /// Nanoseconds.
    pub connect_timeout: Option<u64>,
    /// Nanoseconds, until the first byte of the answer and between its bytes.
    pub request_timeout: Option<u64>,
}

/// A time limit in nanoseconds. Zero stands for none.
pub open spec fn timeout_ns(ms: u32) -> Option<u64> {
    if ms > 0 {
        Some((ms * 1_000_000) as u64)
    } else {
        None
    }
}

fn timeout_of(ms: u32) -> (res: Option<u64>)
    ensures
        res == timeout_ns(ms),
{
    if ms > 0 {
        Some(ms as u64 * 1_000_000)
    } else {
        None
    }
}

/// Makes a request to post a body of `body_len` bytes.
pub fn plan_request(config: &TransportConfig, body_len: usize) -> (res: Result<
    RequestPlan,
    PluginError,
>)
    ensures
        match endpoint::scheme_of(config.endpoint@) {
            Some(scheme) => res matches Ok(plan) && {
                let rest = endpoint::behind_scheme(config.endpoint@, scheme);
                &&& plan.scheme == scheme
                &&& plan.authority@ == endpoint::authority_of(rest)
                &&& plan.path@ == endpoint::path_of(rest)
                &&& headers::header_views(plan.headers@) == headers::request_headers(
                    config.auth,
                    config.extra_headers@,
                    body_len as nat,
                )
                &&& plan.connect_timeout == timeout_ns(config.connect_timeout_ms)
                &&& plan.request_timeout == timeout_ns(config.request_timeout_ms)
            },
            None => res matches Err(PluginError::ConfigError(t)) && t@
                == "unsupported scheme in endpoint: "@ + config.endpoint@,
        },
{
    match endpoint::parse_endpoint(config.endpoint.as_str()) {
        Ok((scheme, authority, path)) => Ok(
            RequestPlan {
                scheme,
                authority,
                path,
                headers: headers::build_headers(&config.auth, &config.extra_headers, body_len),
                connect_timeout: timeout_of(config.connect_timeout_ms),
                request_timeout: timeout_of(config.request_timeout_ms),
            },
        ),
        Err(e) => Err(e),
    }
}

/// How many bytes of a body are written at once at most.
pub const MAX_WRITE: usize = 4096;

/// The bounds of the pieces in which a body of `len` bytes is written.
pub fn write_pieces(len: usize) -> (res: Vec<(usize, usize)>)
    ensures
        format_stage::bounds_of(res@) == format_stage::chunks_from(0, len as int, MAX_WRITE as int),
{
    format_stage::format_chunks(len, MAX_WRITE)
}

/// The pieces in which a body is written make up the body, in order, and none of
/// them is empty or larger than what can be written at once.
pub proof fn law_pieces_make_body(body: Seq<u8>)
    ensures
        ({
            let pieces = format_stage::chunks_from(0, body.len() as int, MAX_WRITE as int);
            &&& format_stage::parts_joined(body, pieces) == body
            &&& forall|i: int|
                0 <= i < pieces.len() ==> {
                    let c = #[trigger] pieces[i];
                    0 <= c.0 < c.1 <= body.len() && c.1 - c.0 <= MAX_WRITE
                }
        }),
{
    format_stage::law_chunks_cover(body, MAX_WRITE as int);
}

/// Whether the answer to a request tells of success, or what it tells.
pub fn check_status(status: u16) -> (res: Result<(), PluginError>)
    ensures
        res is Ok <==> 200 <= status < 300,
        res matches Err(e) ==> e is ProcessingFailed && e.text() == "server returned HTTP "@
            + text::decimal(status as nat),
{
    if 200 <= status && status < 300 {
        Ok(())
    } else {
        let mut e = "server returned HTTP ".to_string();
        text::push_decimal(&mut e, status as u128);
        Err(PluginError::ProcessingFailed(e))
    }
}

/// How often and after what time a body is posted again.
#[derive(Clone, Copy, Debug, PartialEq, Eq, Structural)]
pub struct RetryLimits {
    pub max_retries: u32,
    pub initial_backoff_ms: u64,
    pub max_backoff_ms: u64,
}

impl RetryLimits {
    /// The limits that a configuration sets.
    pub open spec fn of(retry: Option<RetryConfig>) -> RetryLimits {
        match retry {
            Some(r) => RetryLimits {
                max_retries: r.max_retries,
                initial_backoff_ms: r.initial_backoff_ms as u64,
                max_backoff_ms: r.max_backoff_ms as u64,
            },
            None => RetryLimits {
                max_retries: 0,
                initial_backoff_ms: 100,
                max_backoff_ms: 5000,
            },
        }
    }

    /// Times that were set as 32 bits.
    pub open spec fn well_formed(self) -> bool {
        self.initial_backoff_ms <= u32::MAX && self.max_backoff_ms <= u32::MAX
    }
}

fn limits_of(retry: &Option<RetryConfig>) -> (res: RetryLimits)
    ensures
        res == RetryLimits::of(*retry),
        res.well_formed(),
{
    match retry {
        Some(r) => RetryLimits {
            max_retries: r.max_retries,
            initial_backoff_ms: r.initial_backoff_ms as u64,
            max_backoff_ms: r.max_backoff_ms as u64,
        },
        None => RetryLimits { max_retries: 0, initial_backoff_ms: 100, max_backoff_ms: 5000 },
    }
}

/// How far sending has come: the body that is next, how often it was posted
/// again, how long to wait before it is posted once more, and the bytes of the
/// bodies that were sent.
#[derive(Clone, Copy, Debug, PartialEq, Eq, Structural)]
pub struct SendState {
    pub next: usize,
    pub attempt: u32,
    pub backoff_ms: u64,
    pub sent: u64,
}

/// The next thing to do.
#[derive(Clone, Copy, Debug, PartialEq, Eq, Structural)]
pub enum SendStep {
    /// Post the next body.
    Post,
    /// Wait for so many nanoseconds, then post the same body again.
    SleepThenPost(u64),
    /// All bodies were sent.
    Done,
    /// Give up with the failure of the last request.
    GiveUp,
}

/// The smaller of two numbers.
pub open spec fn smaller(a: int, b: int) -> int {
    if b < a {
        b
    } else {
        a
    }
}

impl SendState {
    /// Nothing has been sent yet.
    pub open spec fn begun(limits: RetryLimits) -> SendState {
        SendState { next: 0, attempt: 0, backoff_ms: limits.initial_backoff_ms, sent: 0 }
    }

    /// What is left to do when no request has just failed.
    pub open spec fn pending(self, bodies: Seq<Seq<u8>>) -> SendStep {
        if self.next < bodies.len() {
            SendStep::Post
        } else {
            SendStep::Done
        }
    }

    /// What comes of a request: the state behind it, and the next thing to do.
    pub open spec fn advanced(self, bodies: Seq<Seq<u8>>, limits: RetryLimits, ok: bool) -> (
        SendState,
        SendStep,
    ) {
        if ok {
            let after = SendState {
                next: (self.next + 1) as usize,
                attempt: 0,
                backoff_ms: limits.initial_backoff_ms,
                sent: (self.sent + bodies[self.next as int].len()) as u64,
            };
            (after, after.pending(bodies))
        } else if self.attempt < limits.max_retries {
            (
                SendState {
                    attempt: (self.attempt + 1) as u32,
                    backoff_ms: smaller(self.backoff_ms * 2, limits.max_backoff_ms as int) as u64,
                    ..self
                },
                SendStep::SleepThenPost((self.backoff_ms * 1_000_000) as u64),
            )
        } else {
            (self, SendStep::GiveUp)
        }
    }

    /// The state behind a number of requests, each of which went well or not.
    pub open spec fn after(
        self,
        bodies: Seq<Seq<u8>>,
        limits: RetryLimits,
        results: Seq<bool>,
    ) -> SendState
        decreases results.len(),
    {
        if results.len() == 0 {
            self
        } else {
            self.after(bodies, limits, results.drop_last()).advanced(
                bodies,
                limits,
                results.last(),
            ).0
        }
    }

    /// What holds of every state of sending.
    pub open spec fn well_formed(self, bodies: Seq<Seq<u8>>, limits: RetryLimits) -> bool {
        &&& self.next <= bodies.len()
        &&& self.sent == bytes::total_len(bodies.take(self.next as int))
        &&& self.attempt <= limits.max_retries
        &&& self.backoff_ms <= u32::MAX
    }
}

/// The bodies of one call and how far sending them has come.
pub struct SendRun {
    pub bodies: Vec<Vec<u8>>,
    pub limits: RetryLimits,
    pub state: SendState,
}

impl SendRun {
    /// The bodies.
    pub open spec fn view(&self) -> Seq<Seq<u8>> {
        bytes::views(self.bodies@)
    }

    /// What holds of every run.
    pub open spec fn well_formed(&self) -> bool {
        &&& self.limits.well_formed()
        &&& self.state.well_formed(self@, self.limits)
        &&& bytes::total_len(self@) <= u64::MAX
    }

    /// The first thing to do.
    pub fn first_step(&self) -> (res: SendStep)
        ensures
            res == self.state.pending(self@),
    {
        if self.state.next < self.bodies.len() {
            SendStep::Post
        } else {
            SendStep::Done
        }
    }

    /// The body to post, where one is left.
    pub fn body(&self) -> (res: Option<&Vec<u8>>)
        ensures
            res is Some <==> self.state.next < self@.len(),
            res matches Some(b) ==> b@ == self@[self.state.next as int],
    {
        if self.state.next < self.bodies.len() {
            Some(&self.bodies[self.state.next])
        } else {
            None
        }
    }
}

/// What the plugin keeps between its calls.
pub struct TransportPlugin {
    /// Set by `init`.
    pub config: Option<TransportConfig>,
    /// The bytes of all bodies that were sent since `init`.
    pub bytes_sent: u64,
}

impl TransportPlugin {
    /// The plugin before any call.
    pub fn new() -> (res: TransportPlugin)
        ensures
            res.config is None,
            res.bytes_sent == 0,
    {
        TransportPlugin { config: None, bytes_sent: 0 }
    }

    /// Takes a configuration and begins to count anew. One whose endpoint cannot
    /// be used is refused, and nothing changes.
    pub fn init(&mut self, config: TransportConfig) -> (res: Result<(), PluginError>)
        ensures
            res is Ok <==> config.endpoint@.len() > 0 && endpoint::scheme_of(config.endpoint@)
                is Some,
            res is Ok ==> final(self).config == Some(config) && final(self).bytes_sent == 0,
            res is Err ==> *final(self) == *old(self),
            res matches Err(e) ==> e is ConfigError && e.text() == (if config.endpoint@.len() == 0 {
                "endpoint must not be empty"@
            } else {
                "unsupported scheme in endpoint: "@ + config.endpoint@
            }),
    {
        if config.endpoint.as_str().unicode_len() == 0 {
            return Err(PluginError::ConfigError("endpoint must not be empty".to_string()));
        }
        match endpoint::parse_endpoint(config.endpoint.as_str()) {
            Ok(_) => {},
            Err(e) => {
                return Err(e);
            },
        }
        self.config = Some(config);
        self.bytes_sent = 0;
        Ok(())
    }

    /// Whether the bytes of lines, each with a newline at its end, can be counted.
    pub fn can_send(&self, output_data: &Vec<Vec<u8>>) -> (res: bool)
        ensures
            res == (bytes::total_len(bytes::views(output_data@)) + output_data@.len() <= u64::MAX),
    {
        let ghost all = bytes::views(output_data@);
        let mut total: u64 = 0;
        let mut i: usize = 0;
        assert(all.take(0) =~= Seq::empty());
        while i < output_data.len()
            invariant
                all == bytes::views(output_data@),
                i <= all.len(),
                total == bytes::total_len(all.take(i as int)) + i,
            decreases all.len() - i,
        {
            let len: u64 = output_data[i].len() as u64;
            proof {
                let upto = all.take(i + 1);
                assert(upto.drop_last() =~= all.take(i as int));
                assert(upto =~= all.subrange(0, i + 1));
                bytes::lemma_total_len_part(all, 0, i + 1);
            }
            if len >= u64::MAX - total {
                return false;
            }
            total += len + 1;
            i += 1;
        }
        assert(all.take(i as int) =~= all);
        true
    }

    /// Begins to send lines: packs them into bodies, of which none was posted
    /// yet.
    pub fn send(&self, output_data: &Vec<Vec<u8>>) -> (res: Result<SendRun, PluginError>)
        requires
            bytes::total_len(bytes::views(output_data@)) + output_data@.len() <= u64::MAX,
        ensures
            res is Ok <==> self.config is Some,
            res matches Ok(run) ==> {
                let config = self.config.unwrap();
                &&& run@ == packed(bytes::views(output_data@), config.max_batch_bytes as int)
                &&& run.limits == RetryLimits::of(config.retry)
                &&& run.state == SendState::begun(run.limits)
                &&& run.well_formed()
            },
            res matches Err(e) ==> e is ConfigError && e.text()
                == "init() not called before send()"@,
    {
        match &self.config {
            Some(config) => {
                let bodies = pack_bodies(output_data, config.max_batch_bytes);
                let limits = limits_of(&config.retry);
                let run = SendRun {
                    bodies,
                    limits,
                    state: SendState {
                        next: 0,
                        attempt: 0,
                        backoff_ms: limits.initial_backoff_ms,
                        sent: 0,
                    },
                };
                proof {
                    let lines = bytes::views(output_data@);
                    law_bodies_hold_all_lines(lines, config.max_batch_bytes as int);
                    lemma_joined_len(run@);
                    lemma_joined_len(all_ended(lines));
                    lemma_ended_len(lines);
                    assert(run@.take(0) =~= Seq::empty());
                }
                Ok(run)
            },
            None => Err(PluginError::ConfigError("init() not called before send()".to_string())),
        }
    }

    /// Takes the outcome of posting a body, and says what to do next. The bytes
    /// of a body that was sent are counted at once.
    pub fn on_posted(&mut self, run: &mut SendRun, ok: bool) -> (res: SendStep)
        requires
            old(run).well_formed(),
            old(run).state.next < old(run)@.len(),
            ok ==> old(self).bytes_sent + old(run)@[old(run).state.next as int].len() <= u64::MAX,
        ensures
            final(run).bodies == old(run).bodies,
            final(run).limits == old(run).limits,
            (final(run).state, res) == old(run).state.advanced(old(run)@, old(run).limits, ok),
            final(run).well_formed(),
            final(self).config == old(self).config,
            final(self).bytes_sent == old(self).bytes_sent + (final(run).state.sent - old(
                run,
            ).state.sent),
    {
        let ghost all = run@;
        let next: usize = run.state.next;
        if ok {
            let len: u64 = run.bodies[next].len() as u64;
            assert(next < run.bodies.len());
            proof {
                let upto = all.take(next + 1);
                assert(upto.drop_last() =~= all.take(next as int));
                assert(upto =~= all.subrange(0, next + 1));
                bytes::lemma_total_len_part(all, 0, next + 1);
            }
            run.state = SendState {
                next: next + 1,
                attempt: 0,
                backoff_ms: run.limits.initial_backoff_ms,
                sent: run.state.sent + len,
            };
            self.bytes_sent += len;
            run.first_step()
        } else if run.state.attempt < run.limits.max_retries {
            let waited: u64 = run.state.backoff_ms;
            let doubled: u64 = waited * 2;
            run.state = SendState {
                next,
                attempt: run.state.attempt + 1,
                backoff_ms: if run.limits.max_backoff_ms < doubled {
                    run.limits.max_backoff_ms
                } else {
                    doubled
                },
                sent: run.state.sent,
            };
            SendStep::SleepThenPost(waited * 1_000_000)
        } else {
            SendStep::GiveUp
        }
    }

    /// Whether one more body of a run can be counted.
    pub fn can_count(&self, run: &SendRun) -> (res: bool)
        ensures
            res == (run.state.next < run@.len() && self.bytes_sent
                + run@[run.state.next as int].len() <= u64::MAX),
    {
        match run.body() {
            Some(b) => self.bytes_sent.checked_add(b.len() as u64).is_some(),
            None => false,
        }
    }

    /// The bytes that were sent since `init`.
    pub fn report_usage(&self) -> (res: u64)
        ensures
            res == self.bytes_sent,
    {
        self.bytes_sent
    }
}

proof fn lemma_joined_len(lines: Seq<Seq<u8>>)
    ensures
        bytes::joined(lines).len() == bytes::total_len(lines),
    decreases lines.len(),
{
    if lines.len() > 0 {
        lemma_joined_len(lines.drop_last());
    }
}

proof fn lemma_ended_len(lines: Seq<Seq<u8>>)
    ensures
        bytes::total_len(all_ended(lines)) <= bytes::total_len(lines) + lines.len(),
    decreases lines.len(),
{
    if lines.len() > 0 {
        lemma_ended_len(lines.drop_last());
        assert(all_ended(lines).drop_last() =~= all_ended(lines.drop_last()));
    }
}

/// What is counted as sent is the length of the bodies that were sent, all of
/// them and no other, whatever failed and was tried again in between.
pub proof fn law_usage_is_what_was_sent(
    bodies: Seq<Seq<u8>>,
    limits: RetryLimits,
    results: Seq<bool>,
)
    requires
        bytes::total_len(bodies) <= u64::MAX,
        limits.well_formed(),
        forall|i: int|
            0 <= i < results.len() ==> SendState::begun(limits).after(
                bodies,
                limits,
                #[trigger] results.take(i),
            ).next < bodies.len(),
        bodies.len() <= usize::MAX,
    ensures
        SendState::begun(limits).after(bodies, limits, results).well_formed(bodies, limits),
        SendState::begun(limits).after(bodies, limits, results).sent == bytes::total_len(
            bodies.take(SendState::begun(limits).after(bodies, limits, results).next as int),
        ),
    decreases results.len(),
{
    let begun = SendState::begun(limits);
    if results.len() == 0 {
        assert(bodies.take(0) =~= Seq::empty());
    } else {
        let before = results.drop_last();
        assert(results.take(results.len() - 1) =~= before);
        assert forall|i: int| 0 <= i < before.len() implies begun.after(
            bodies,
            limits,
            #[trigger] before.take(i),
        ).next < bodies.len() by {
            assert(results.take(i) =~= before.take(i));
        }
        law_usage_is_what_was_sent(bodies, limits, before);
        let state = begun.after(bodies, limits, before);
        let next = state.next as int;
        let upto = bodies.take(next + 1);
        assert(upto.drop_last() =~= bodies.take(next));
        assert(upto =~= bodies.subrange(0, next + 1));
        bytes::lemma_total_len_part(bodies, 0, next + 1);
    }
}

/// How long to wait before a body is posted for the time numbered `n`, from
/// zero.
pub open spec fn backoff(limits: RetryLimits, n: nat) -> int
    decreases n,
{
    if n == 0 {
        limits.initial_backoff_ms as int
    } else {
        smaller(backoff(limits, (n - 1) as nat) * 2, limits.max_backoff_ms as int)
    }
}

/// A body whose requests all fail is posted again as often as the limits say,
/// and then given up. Each wait is that of `backoff`.
pub proof fn law_retries_are_limited(bodies: Seq<Seq<u8>>, limits: RetryLimits, n: nat)
    requires
        limits.well_formed(),
        n <= limits.max_retries,
    ensures
        ({
            let failed = Seq::new(n, |i: int| false);
            let state = SendState::begun(limits).after(bodies, limits, failed);
            &&& state.attempt == n
            &&& state.next == 0
            &&& state.backoff_ms == backoff(limits, n)
            &&& state.advanced(bodies, limits, false).1 == if n < limits.max_retries {
                SendStep::SleepThenPost((backoff(limits, n) * 1_000_000) as u64)
            } else {
                SendStep::GiveUp
            }
        }),
    decreases n,
{
    let failed = Seq::new(n, |i: int| false);
    if n > 0 {
        law_retries_are_limited(bodies, limits, (n - 1) as nat);
        assert(failed.drop_last() =~= Seq::new((n - 1) as nat, |i: int| false));
        lemma_backoff_bound(limits, (n - 1) as nat);
    }
}

proof fn lemma_backoff_bound(limits: RetryLimits, n: nat)
    requires
        limits.well_formed(),
    ensures
        0 <= backoff(limits, n) <= u32::MAX,
    decreases n,
{
    if n > 0 {
        lemma_backoff_bound(limits, (n - 1) as nat);
    }
}

/// The wait doubles each time, from the first on, and stops at the longest
/// that is set. Only the first wait can be longer than that.
pub proof fn law_backoff_doubles(limits: RetryLimits, n: nat)
    requires
        n > 0,
    ensures
        backoff(limits, n) == smaller(
            limits.initial_backoff_ms * vstd::arithmetic::power2::pow2(n),
            limits.max_backoff_ms as int,
        ),
        backoff(limits, n) <= limits.max_backoff_ms,
    decreases n,
{
    vstd::arithmetic::power2::lemma_pow2_unfold(n);
    let p = vstd::arithmetic::power2::pow2((n - 1) as nat) as int;
    let first = limits.initial_backoff_ms as int;
    if n == 1 {
        vstd::arithmetic::power2::lemma2_to64();
        reveal_with_fuel(backoff, 2);
    } else {
        law_backoff_doubles(limits, (n - 1) as nat);
    }
    assert(first * (2 * p) == 2 * (first * p)) by (nonlinear_arith);
}

/// A line that is sent has its bytes unchanged and a newline at its end: its own
/// where it has one, else one more.
pub proof fn law_line_is_ended_once(line: Seq<u8>)
    ensures
        ended(line).len() > 0,
        ended(line).last() == 10,
        ended(line).take(line.len() as int) == line,
        ended(line) == line <==> line.len() > 0 && line.last() == 10,
        ended(line).len() <= line.len() + 1,
        ended(ended(line)) == ended(line),
{
    assert(ended(line).take(line.len() as int) =~= line);
    if line.len() > 0 && line.last() == 10 {
        assert(ended(line) =~= line);
    }
}

/// A new body is begun only where the next line would have put the body before it
/// over the limit.
pub proof fn law_bodies_are_filled(lines: Seq<Seq<u8>>, limit: int, k: int)
    requires
        0 <= k < packed(lines, limit).len() - 1,
    ensures
        limit != 0,
        packed(lines, limit)[k].len() + grouped(lines, limit)[k + 1][0].len() + 1 > limit,
    decreases lines.len(),
{
    let shorter = lines.drop_last();
    let line = lines.last();
    let before = packed(shorter, limit);
    let groups = grouped(shorter, limit);
    law_bodies_are_made_of_lines(shorter, limit);
    law_bodies_are_made_of_lines(lines, limit);
    if k < before.len() - 1 {
        law_bodies_are_filled(shorter, limit, k);
        assert(packed(lines, limit)[k] == before[k]);
        assert(groups[k + 1].len() > 0);
        assert(grouped(lines, limit)[k + 1][0] == groups[k + 1][0]);
    } else {
        assert(packed(lines, limit) == before.push(ended(line)));
    }
}

/// A request that went well is done with: the next body is posted, or none where
/// it was the last, and that body has all its retries and its first wait again.
/// Its bytes are counted.
pub proof fn law_success_moves_on(state: SendState, bodies: Seq<Seq<u8>>, limits: RetryLimits)
    requires
        state.next < bodies.len() <= usize::MAX,
        state.sent + bodies[state.next as int].len() <= u64::MAX,
    ensures
        ({
            let (after, step) = state.advanced(bodies, limits, true);
            &&& after.next == state.next + 1
            &&& after.attempt == 0
            &&& after.backoff_ms == limits.initial_backoff_ms
            &&& after.sent - state.sent == bodies[state.next as int].len()
            &&& step is Post <==> state.next + 1 < bodies.len()
            &&& step is Done <==> state.next + 1 == bodies.len()
        }),
{
}

/// A request that failed leaves the body where it is and counts nothing. While
/// retries are left it is posted again behind the wait that is due, and the next
/// wait is twice as long, up to the longest; else the call is given up.
pub proof fn law_failure_stays(state: SendState, bodies: Seq<Seq<u8>>, limits: RetryLimits)
    requires
        limits.well_formed(),
        state.backoff_ms <= u32::MAX,
    ensures
        ({
            let (after, step) = state.advanced(bodies, limits, false);
            &&& after.next == state.next
            &&& after.sent == state.sent
            &&& state.attempt < limits.max_retries ==> {
                &&& after.attempt == state.attempt + 1
                &&& step is SleepThenPost
                &&& step->SleepThenPost_0 == state.backoff_ms * 1_000_000
                &&& after.backoff_ms <= limits.max_backoff_ms
                &&& after.backoff_ms == 2 * state.backoff_ms || after.backoff_ms
                    == limits.max_backoff_ms && limits.max_backoff_ms < 2 * state.backoff_ms
            }
            &&& state.attempt >= limits.max_retries ==> step is GiveUp && after == state
        }),
{
}

/// Where every request goes well all bodies are posted, one after the other, and
/// all their bytes are counted.
pub proof fn law_all_bodies_are_sent(bodies: Seq<Seq<u8>>, limits: RetryLimits, n: nat)
    requires
        n <= bodies.len() <= usize::MAX,
        bytes::total_len(bodies) <= u64::MAX,
        limits.well_formed(),
    ensures
        ({
            let state = SendState::begun(limits).after(bodies, limits, Seq::new(n, |i: int| true));
            &&& state.next == n
            &&& state.sent == bytes::joined(bodies.take(n as int)).len()
            &&& state.pending(bodies) is Done <==> n == bodies.len()
            &&& state.pending(bodies) is Post <==> n < bodies.len()
        }),
    decreases n,
{
    let results = Seq::new(n, |i: int| true);
    lemma_joined_len(bodies.take(n as int));
    if n == 0 {
        assert(bodies.take(0) =~= Seq::empty());
    } else {
        let before = (n - 1) as nat;
        law_all_bodies_are_sent(bodies, limits, before);
        assert(results.drop_last() =~= Seq::new(before, |i: int| true));
        let upto = bodies.take(n as int);
        assert(upto.drop_last() =~= bodies.take(n - 1));
        lemma_joined_len(bodies.take(n - 1));
        assert(upto =~= bodies.subrange(0, n as int));
        bytes::lemma_total_len_part(bodies, 0, n as int);
    }
}

/// Retries are those that are configured, and none where nothing is. A time limit
/// in milliseconds is set in nanoseconds, and zero sets none.
pub proof fn law_configured_limits(retry: Option<RetryConfig>, ms: u32)
    ensures
        retry is None ==> RetryLimits::of(retry).max_retries == 0,
        retry matches Some(r) ==> RetryLimits::of(retry).max_retries == r.max_retries
            && RetryLimits::of(retry).initial_backoff_ms == r.initial_backoff_ms
            && RetryLimits::of(retry).max_backoff_ms == r.max_backoff_ms,
        timeout_ns(ms) is None <==> ms == 0,
        timeout_ns(ms) matches Some(ns) ==> ns / 1_000_000 == ms && ns % 1_000_000 == 0,
        SendState::begun(RetryLimits::of(retry)).backoff_ms == RetryLimits::of(
            retry,
        ).initial_backoff_ms,
{
}

/// A run knows its bodies one by one, and has counted as sent the bytes of those
/// before the one that is next.
pub proof fn law_run_counts_bodies_before_the_next(run: SendRun)
    requires
        run.well_formed(),
    ensures
        run@.len() == run.bodies@.len(),
        forall|i: int| 0 <= i < run@.len() ==> #[trigger] run@[i] == run.bodies@[i]@,
        run.state.next <= run.bodies@.len(),
        run.state.sent == bytes::joined(run@.take(run.state.next as int)).len(),
        run.state.attempt <= run.limits.max_retries,
        run.state.pending(run@) is Done <==> run.state.next == run.bodies@.len(),
{
    lemma_joined_len(run@.take(run.state.next as int));
}

/// An answer tells of success exactly where its status is of the two hundreds, and
/// no two other statuses are told alike.
pub proof fn law_status_is_told(
    a: u16,
    b: u16,
    on_a: Result<(), PluginError>,
    on_b: Result<(), PluginError>,
)
    requires
        call_ensures(check_status, (a,), on_a),
        call_ensures(check_status, (b,), on_b),
    ensures
        on_a is Ok <==> a / 100 == 2,
        on_a is Err && on_b is Err && on_a == on_b ==> a == b,
{
    if on_a is Err && on_b is Err && on_a == on_b {
        let head = "server returned HTTP "@;
        let (x, y) = (text::decimal(a as nat), text::decimal(b as nat));
        assert((head + x).skip(head.len() as int) =~= x);
        assert((head + y).skip(head.len() as int) =~= y);
        text::law_decimal_tells_numbers_apart(a as nat, b as nat);
    }
}

/// Whatever the limit, the bodies that lines are packed into hold all lines, in
/// their order, each with a newline at its end, and nothing else.
pub proof fn law_packing_loses_nothing(
    lines: Vec<Vec<u8>>,
    max_batch_bytes: u32,
    res: Vec<Vec<u8>>,
)
    requires
        call_ensures(pack_bodies, (&lines, max_batch_bytes), res),
    ensures
        bytes::joined(bytes::views(res@)) == bytes::joined(all_ended(bytes::views(lines@))),
        all_ended(bytes::views(lines@)).len() == lines@.len(),
        forall|i: int|
            0 <= i < lines@.len() ==> {
                let line = #[trigger] all_ended(bytes::views(lines@))[i];
                line == lines@[i]@ || line == lines@[i]@.push(10)
            },
        lines@.len() == 0 <==> res@.len() == 0,
{
    let all = bytes::views(lines@);
    let bodies = packed(all, max_batch_bytes as int);
    law_bodies_hold_all_lines(all, max_batch_bytes as int);
    assert(bytes::views(res@).len() == res@.len());
    if lines@.len() > 0 {
        law_bodies_are_made_of_lines(all, max_batch_bytes as int);
        assert(bodies.len() > 0);
    }
}

} // verus!
