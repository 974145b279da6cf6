//! How the forwarder is set up, and what can be wrong with it.
use vstd::prelude::*;

use crate::batch;
use crate::text;

verus! {

/// Which stages behind the parser take part.
#[derive(Clone, Copy, Debug, PartialEq, Eq, Structural)]
pub struct PipelineStages {
    pub filter: bool,
    pub format: bool,
    pub transport: bool,
}

/// A fraction, held as the bits of its IEEE 754 double.
#[derive(Clone, Copy, Debug, PartialEq, Eq, Structural)]
pub struct Ratio {
    pub bits: u64,
}

/// The bits of the double `1.0`.
pub const ONE_BITS: u64 = 0x3FF0_0000_0000_0000;

/// The bits of the double `0.5`.
pub const HALF_BITS: u64 = 0x3FE0_0000_0000_0000;

impl Ratio {
    /// Whether the fraction lies between zero and one, both left out. The bits
    /// of doubles that are not negative are ordered as the doubles are, and
    /// those of all other doubles lie above.
    pub open spec fn spec_is_proper(self) -> bool {
        0 < self.bits < ONE_BITS
    }

    /// Whether the fraction lies between zero and one, both left out.
    #[verifier::when_used_as_spec(spec_is_proper)]
    pub fn is_proper(self) -> (res: bool)
        ensures
            res == self.spec_is_proper(),
    {
        0 < self.bits && self.bits < ONE_BITS
    }
}

/// A fraction as it is shown.
pub struct RatioText {
    /// As a plain number.
    pub plain: String,
    /// In percent, rounded to a whole number.
    pub percent: String,
}

/// How lines are gathered, cut up and sent.
#[derive(Clone, Debug)]
pub struct BatchConfig {
    /// The memory that each plugin instance may have, in megabytes.
    pub mem_limit_mb: usize,
    /// The part of that memory up to which lines are gathered.
    pub safe_data_ratio: Ratio,
    /// The nanoseconds for which lines are gathered at most.
    pub max_wait: u128,
    /// How many lines are gathered at most.
    pub max_batch_lines: usize,
    /// How many lines may wait to be gathered.
    pub channel_capacity: usize,
    /// How many entries a format plugin is given at once at most.
    pub max_format_chunk: usize,
    /// Where lines are sent.
    pub transport_endpoint: String,
    /// How many bytes a transport plugin is given at once at most.
    pub max_transport_bytes: usize,
    /// How many transport workers there are.
    pub transport_workers: usize,
}

/// The nanoseconds of a millisecond.
pub const MILLI_NS: u128 = 1_000_000;

/// The bytes of a megabyte.
pub const MEGABYTE: usize = 1_048_576;

/// Where lines are sent if nothing else is said.
pub open spec fn default_endpoint() -> Seq<char> {
    "http://127.0.0.1:8080/ingest"@
}

impl Default for BatchConfig {
    fn default() -> (res: BatchConfig)
        ensures
            res.mem_limit_mb == 256,
            res.safe_data_ratio == (Ratio { bits: HALF_BITS }),
            res.max_wait == 5000 * MILLI_NS,
            res.max_batch_lines == 50_000,
            res.channel_capacity == 150_000,
            res.max_format_chunk == 50_000,
            res.transport_endpoint@ == default_endpoint(),
            res.max_transport_bytes == 128 * 1024,
            res.transport_workers == 5,
    {
        BatchConfig {
            mem_limit_mb: 256,
            safe_data_ratio: Ratio { bits: HALF_BITS },
            max_wait: 5000 * MILLI_NS,
            max_batch_lines: 50_000,
            channel_capacity: 150_000,
            max_format_chunk: 50_000,
            transport_endpoint: "http://127.0.0.1:8080/ingest".to_string(),
            max_transport_bytes: 131_072,
            transport_workers: 5,
        }
    }
}

/// Whether a text names an endpoint that can be reached by HTTP.
pub open spec fn is_http_url(s: Seq<char>) -> bool {
    text::begins_with(s, "http://"@) || text::begins_with(s, "https://"@)
}

/// A line of the table's frame.
#[verifier::opaque]
pub open spec fn frame_line(
    left: Seq<char>,
    cross: Seq<char>,
    right: Seq<char>,
) -> Seq<char> {
    left + text::fill('─', 28) + cross + text::fill('─', 14) + cross + text::fill('─', 7) + cross
        + text::fill('─', 58) + right
}

/// A line of the table with its four cells.
#[verifier::opaque]
pub open spec fn cell_line(
    name: Seq<char>,
    value: Seq<char>,
    mark: Seq<char>,
    usage: Seq<char>,
) -> Seq<char> {
    "│ "@ + text::pad_right(name, 26, ' ') + " │ "@ + text::pad_right(value, 12, ' ') + " │ "@
        + text::pad_right(mark, 5, ' ') + " │ "@ + text::pad_right(usage, 56, ' ') + " │"@
}

/// The mark of a setting: whether it is the default.
pub open spec fn default_mark(is_default: bool) -> Seq<char> {
    if is_default {
        "✓"@
    } else {
        "●"@
    }
}

fn push_frame_line(lines: &mut Vec<String>, left: &str, cross: &str, right: &str)
    ensures
        batch::texts(final(lines)@) == batch::texts(old(lines)@).push(
            frame_line(left@, cross@, right@),
        ),
{
    reveal(frame_line);
    let mut out = left.to_string();
    text::push_fill(&mut out, '─', 28);
    out.append(cross);
    text::push_fill(&mut out, '─', 14);
    out.append(cross);
    text::push_fill(&mut out, '─', 7);
    out.append(cross);
    text::push_fill(&mut out, '─', 58);
    out.append(right);
    lines.push(out);
    assert(batch::texts(lines@) =~= batch::texts(old(lines)@).push(
        frame_line(left@, cross@, right@),
    ));
}

fn push_cell_line(lines: &mut Vec<String>, name: &str, value: &str, mark: &str, usage: &str)
    ensures
        batch::texts(final(lines)@) == batch::texts(old(lines)@).push(
            cell_line(name@, value@, mark@, usage@),
        ),
{
    reveal(cell_line);
    let mut out = "│ ".to_string();
    text::push_padded_right(&mut out, name, 26, ' ');
    out.append(" │ ");
    text::push_padded_right(&mut out, value, 12, ' ');
    out.append(" │ ");
    text::push_padded_right(&mut out, mark, 5, ' ');
    out.append(" │ ");
    text::push_padded_right(&mut out, usage, 56, ' ');
    out.append(" │");
    lines.push(out);
    assert(batch::texts(lines@) =~= batch::texts(old(lines)@).push(
        cell_line(name@, value@, mark@, usage@),
    ));
}

fn push_setting(lines: &mut Vec<String>, name: &str, value: &str, is_default: bool, usage: &str)
    ensures
        batch::texts(final(lines)@) == batch::texts(old(lines)@).push(
            cell_line(name@, value@, default_mark(is_default), usage@),
        ),
{
    if is_default {
        push_cell_line(lines, name, value, "✓", usage);
    } else {
        push_cell_line(lines, name, value, "●", usage);
    }
}

fn push_number(
    lines: &mut Vec<String>,
    name: &str,
    n: u128,
    unit: &str,
    is_default: bool,
    usage: &str,
)
    ensures
        batch::texts(final(lines)@) == batch::texts(old(lines)@).push(
            cell_line(
                name@,
                text::decimal(n as nat) + unit@,
                default_mark(is_default),
                usage@,
            ),
        ),
{
    let mut value = text::decimal_text(n);
    value.append(unit);
    push_setting(lines, name, value.as_str(), is_default, usage);
}

impl BatchConfig {
    /// The lines of the table of settings.
    pub open spec fn table(&self, percent: Seq<char>) -> Seq<Seq<char>> {
        seq![
            frame_line("┌"@, "┬"@, "┐"@),
            cell_line("參數"@, "值"@, "預設"@, "用途"@),
            frame_line("├"@, "┼"@, "┤"@),
            cell_line(
                "mem_limit_mb"@,
                text::decimal(self.mem_limit_mb as nat) + " MB"@,
                default_mark(self.mem_limit_mb == 256),
                "每個 WASM store 線性記憶體上限 (runtime.rs MyLimiter)"@,
            ),
            cell_line(
                "safe_data_ratio"@,
                percent + "%"@,
                default_mark(self.safe_data_ratio.bits == HALF_BITS),
                "parse batch size 觸發提前 flush 的閾值 (runtime.rs parse_loop)"@,
            ),
            cell_line(
                "max_wait"@,
                text::decimal((self.max_wait / MILLI_NS) as nat) + " ms"@,
                default_mark(self.max_wait == 5000 * MILLI_NS),
                "parse 時間觸發 flush 的等待上限 (runtime.rs parse_loop recv_timeout)"@,
            ),
            cell_line(
                "max_batch_lines"@,
                text::decimal(self.max_batch_lines as nat),
                default_mark(self.max_batch_lines == 50_000),
                "parse 行數觸發 flush 的上限 (runtime.rs parse_loop)"@,
            ),
            cell_line(
                "channel_capacity"@,
                text::decimal(self.channel_capacity as nat),
                default_mark(self.channel_capacity == 150_000),
                "stdin→parse LineItem channel 容量 [注意: parsed/formatted channel 硬編碼 20000]"@,
            ),
            cell_line(
                "max_format_chunk"@,
                text::decimal(self.max_format_chunk as nat),
                default_mark(self.max_format_chunk == 50_000),
                "format plugin 每次呼叫的最大 entry 數 (runtime.rs format_loop chunks)"@,
            ),
            cell_line(
                "transport_endpoint"@,
                self.transport_endpoint@,
                default_mark(self.transport_endpoint@ == default_endpoint()),
                "transport plugin init() 目標 URL (runtime.rs make_transport_config_val)"@,
            ),
            cell_line(
                "max_transport_bytes"@,
                text::decimal((self.max_transport_bytes / 1024) as nat) + " KB"@,
                default_mark(self.max_transport_bytes == 128 * 1024),
                "每次 transport send() 的最大 byte 數 = 一個 HTTP POST 大小"@,
            ),
            cell_line(
                "transport_workers"@,
                text::decimal(self.transport_workers as nat),
                default_mark(self.transport_workers == 5),
                "並行 transport worker 數量，每個持有獨立 WASM store"@,
            ),
            frame_line("└"@, "┴"@, "┘"@),
        ]
    }

    /// What is wrong with the settings that are looked at first.
    pub open spec fn gathering_fault(&self, plain: Seq<char>) -> Option<Seq<char>> {
        if self.mem_limit_mb < 64 {
            Some(
                "mem_limit_mb="@ + text::decimal(self.mem_limit_mb as nat)
                    + " 過小（建議 >= 64 MB）"@,
            )
        } else if !self.safe_data_ratio.is_proper() {
            Some("safe_data_ratio="@ + plain + " 必須在 (0.0, 1.0) 之間"@)
        } else if self.max_wait == 0 {
            Some("max_wait 不能為 0（parse loop 會無限 spin）"@)
        } else if self.max_batch_lines == 0 {
            Some("max_batch_lines 不能為 0"@)
        } else {
            None
        }
    }

    /// What is wrong with the settings that are looked at last.
    pub open spec fn sending_fault(&self) -> Option<Seq<char>> {
        if !is_http_url(self.transport_endpoint@) {
            Some("transport_endpoint='"@ + self.transport_endpoint@ + "' 不是合法的 HTTP/HTTPS URL"@)
        } else if self.max_transport_bytes < 4096 {
            Some(
                "max_transport_bytes="@ + text::decimal(self.max_transport_bytes as nat)
                    + " 過小（至少需 4096 B，等於一次 WASI write）"@,
            )
        } else if self.transport_workers == 0 {
            Some("transport_workers 不能為 0"@)
        } else {
            None
        }
    }

    /// The first thing that is wrong with the settings.
    pub open spec fn fault(&self, plain: Seq<char>) -> Option<Seq<char>> {
        if self.gathering_fault(plain) is Some {
            self.gathering_fault(plain)
        } else if self.max_format_chunk == 0 {
            Some("max_format_chunk 不能為 0"@)
        } else {
            self.sending_fault()
        }
    }

    /// Whether nothing is wrong with the settings.
    pub open spec fn is_sound(&self) -> bool {
        &&& self.mem_limit_mb >= 64
        &&& self.safe_data_ratio.is_proper()
        &&& self.max_wait > 0
        &&& self.max_batch_lines > 0
        &&& self.max_format_chunk > 0
        &&& is_http_url(self.transport_endpoint@)
        &&& self.max_transport_bytes >= 4096
        &&& self.transport_workers > 0
    }

    /// The warning that a batch may never be full.
    pub open spec fn capacity_warning(&self) -> Seq<Seq<char>> {
        if self.channel_capacity < self.max_batch_lines {
            seq![
                "[config-warn] channel_capacity="@ + text::decimal(self.channel_capacity as nat)
                    + " < max_batch_lines="@ + text::decimal(self.max_batch_lines as nat)
                    + "，stdin channel 可能在單個 batch 積滿前就阻塞"@,
            ]
        } else {
            Seq::empty()
        }
    }

    /// The warning that entries are never cut up.
    pub open spec fn chunk_warning(&self) -> Seq<Seq<char>> {
        if self.max_format_chunk > self.max_batch_lines {
            seq![
                "[config-warn] max_format_chunk="@ + text::decimal(self.max_format_chunk as nat)
                    + " > max_batch_lines="@ + text::decimal(self.max_batch_lines as nat)
                    + "，format 拆塊無實際效果（每批只有一塊）"@,
            ]
        } else {
            Seq::empty()
        }
    }

    /// What is said about the settings until something is found wrong, and with
    /// the table of all settings where nothing is.
    pub open spec fn remarks(&self, plain: Seq<char>, percent: Seq<char>) -> Seq<Seq<char>> {
        if self.gathering_fault(plain) is Some {
            Seq::empty()
        } else if self.max_format_chunk == 0 {
            self.capacity_warning()
        } else if self.sending_fault() is Some {
            self.capacity_warning() + self.chunk_warning()
        } else {
            self.capacity_warning() + self.chunk_warning() + self.table(percent)
        }
    }

    fn check_gathering(&self, plain: &str) -> (res: Result<(), String>)
        ensures
            res is Ok <==> self.gathering_fault(plain@) is None,
            res matches Err(e) ==> self.gathering_fault(plain@) == Some(e@),
    {
        if self.mem_limit_mb < 64 {
            let mut e = "mem_limit_mb=".to_string();
            text::push_decimal(&mut e, self.mem_limit_mb as u128);
            e.append(" 過小（建議 >= 64 MB）");
            return Err(e);
        }
        if !self.safe_data_ratio.is_proper() {
            let mut e = "safe_data_ratio=".to_string();
            e.append(plain);
            e.append(" 必須在 (0.0, 1.0) 之間");
            return Err(e);
        }
        if self.max_wait == 0 {
            return Err("max_wait 不能為 0（parse loop 會無限 spin）".to_string());
        }
        if self.max_batch_lines == 0 {
            return Err("max_batch_lines 不能為 0".to_string());
        }
        Ok(())
    }

    fn check_sending(&self) -> (res: Result<(), String>)
        ensures
            res is Ok <==> self.sending_fault() is None,
            res matches Err(e) ==> self.sending_fault() == Some(e@),
    {
        if !text::starts_with(self.transport_endpoint.as_str(), "http://") && !text::starts_with(
            self.transport_endpoint.as_str(),
            "https://",
        ) {
            let mut e = "transport_endpoint='".to_string();
            e.append(self.transport_endpoint.as_str());
            e.append("' 不是合法的 HTTP/HTTPS URL");
            return Err(e);
        }
        if self.max_transport_bytes < 4096 {
            let mut e = "max_transport_bytes=".to_string();
            text::push_decimal(&mut e, self.max_transport_bytes as u128);
            e.append(" 過小（至少需 4096 B，等於一次 WASI write）");
            return Err(e);
        }
        if self.transport_workers == 0 {
            return Err("transport_workers 不能為 0".to_string());
        }
        Ok(())
    }

    /// Checks the settings one after the other and says what is wrong with the
    /// first that is. Warnings are added to `remarks`, and where nothing is wrong
    /// the table that tells what each setting is used for.
    pub fn validate_and_describe(&self, shown: &RatioText, remarks: &mut Vec<String>) -> (res: Result<
        (),
        String,
    >)
        ensures
            res is Ok <==> self.is_sound(),
            res is Ok <==> self.fault(shown.plain@) is None,
            res matches Err(e) ==> self.fault(shown.plain@) == Some(e@),
            batch::texts(final(remarks)@) == batch::texts(old(remarks)@) + self.remarks(
                shown.plain@,
                shown.percent@,
            ),
    {
        let ghost before = batch::texts(remarks@);
        assert(before + Seq::<Seq<char>>::empty() =~= before);
        match self.check_gathering(shown.plain.as_str()) {
            Ok(()) => {},
            Err(e) => {
                return Err(e);
            },
        }
        if self.channel_capacity < self.max_batch_lines {
            let mut w = "[config-warn] channel_capacity=".to_string();
            text::push_decimal(&mut w, self.channel_capacity as u128);
            w.append(" < max_batch_lines=");
            text::push_decimal(&mut w, self.max_batch_lines as u128);
            w.append("，stdin channel 可能在單個 batch 積滿前就阻塞");
            remarks.push(w);
        }
        assert(batch::texts(remarks@) =~= before + self.capacity_warning());
        if self.max_format_chunk == 0 {
            return Err("max_format_chunk 不能為 0".to_string());
        }
        if self.max_format_chunk > self.max_batch_lines {
            let mut w = "[config-warn] max_format_chunk=".to_string();
            text::push_decimal(&mut w, self.max_format_chunk as u128);
            w.append(" > max_batch_lines=");
            text::push_decimal(&mut w, self.max_batch_lines as u128);
            w.append("，format 拆塊無實際效果（每批只有一塊）");
            remarks.push(w);
        }
        assert(batch::texts(remarks@) =~= before + (self.capacity_warning()
            + self.chunk_warning()));
        match self.check_sending() {
            Ok(()) => {},
            Err(e) => {
                return Err(e);
            },
        }
        let mut table = self.print_config_table(shown.percent.as_str());
        let ghost warned = remarks@;
        let ghost rows = table@;
        remarks.append(&mut table);
        assert(remarks@ =~= warned + rows);
        assert(batch::texts(remarks@) =~= batch::texts(warned) + batch::texts(rows));
        assert(batch::texts(remarks@) =~= before + (self.capacity_warning() + self.chunk_warning()
            + self.table(shown.percent@)));
        Ok(())
    }

    /// The lines of a table that tells of each setting what it is, what it is
    /// used for, and whether it is the default.
    pub fn print_config_table(&self, percent: &str) -> (res: Vec<String>)
        ensures
            batch::texts(res@) == self.table(percent@),
    {
        let default = BatchConfig::default();
        let mut lines: Vec<String> = Vec::new();
        assert(batch::texts(lines@) =~= Seq::<Seq<char>>::empty());
        push_frame_line(&mut lines, "┌", "┬", "┐");
        push_cell_line(&mut lines, "參數", "值", "預設", "用途");
        push_frame_line(&mut lines, "├", "┼", "┤");
        push_number(
            &mut lines,
            "mem_limit_mb",
            self.mem_limit_mb as u128,
            " MB",
            self.mem_limit_mb == default.mem_limit_mb,
            "每個 WASM store 線性記憶體上限 (runtime.rs MyLimiter)",
        );
        let mut ratio = percent.to_string();
        ratio.append("%");
        push_setting(
            &mut lines,
            "safe_data_ratio",
            ratio.as_str(),
            self.safe_data_ratio.bits == default.safe_data_ratio.bits,
            "parse batch size 觸發提前 flush 的閾值 (runtime.rs parse_loop)",
        );
        push_number(
            &mut lines,
            "max_wait",
            self.max_wait / MILLI_NS,
            " ms",
            self.max_wait == default.max_wait,
            "parse 時間觸發 flush 的等待上限 (runtime.rs parse_loop recv_timeout)",
        );
        push_setting(
            &mut lines,
            "max_batch_lines",
            text::decimal_text(self.max_batch_lines as u128).as_str(),
            self.max_batch_lines == default.max_batch_lines,
            "parse 行數觸發 flush 的上限 (runtime.rs parse_loop)",
        );
        push_setting(
            &mut lines,
            "channel_capacity",
            text::decimal_text(self.channel_capacity as u128).as_str(),
            self.channel_capacity == default.channel_capacity,
            "stdin→parse LineItem channel 容量 [注意: parsed/formatted channel 硬編碼 20000]",
        );
        push_setting(
            &mut lines,
            "max_format_chunk",
            text::decimal_text(self.max_format_chunk as u128).as_str(),
            self.max_format_chunk == default.max_format_chunk,
            "format plugin 每次呼叫的最大 entry 數 (runtime.rs format_loop chunks)",
        );
        push_setting(
            &mut lines,
            "transport_endpoint",
            self.transport_endpoint.as_str(),
            text::same_text(self.transport_endpoint.as_str(), default.transport_endpoint.as_str()),
            "transport plugin init() 目標 URL (runtime.rs make_transport_config_val)",
        );
        push_number(
            &mut lines,
            "max_transport_bytes",
            (self.max_transport_bytes / 1024) as u128,
            " KB",
            self.max_transport_bytes == default.max_transport_bytes,
            "每次 transport send() 的最大 byte 數 = 一個 HTTP POST 大小",
        );
        push_setting(
            &mut lines,
            "transport_workers",
            text::decimal_text(self.transport_workers as u128).as_str(),
            self.transport_workers == default.transport_workers,
            "並行 transport worker 數量，每個持有獨立 WASM store",
        );
        push_frame_line(&mut lines, "└", "┴", "┘");
        lines
    }

    /// The memory that each plugin instance may have, in bytes.
    pub fn mem_limit_bytes(&self) -> (res: usize)
        requires
            self.mem_limit_mb * MEGABYTE <= usize::MAX,
        ensures
            res == self.mem_limit_mb * MEGABYTE,
    {
        self.mem_limit_mb * MEGABYTE
    }
}

/// The counters of all channels, each in a place of its own.
pub struct Counters {
    pub places: Vec<usize>,
}

impl Counters {
    /// The counters.
    pub open spec fn view(&self) -> Seq<usize> {
        self.places@
    }

    /// No counter yet.
    pub fn new() -> (res: Counters)
        ensures
            res@ == Seq::<usize>::empty(),
    {
        Counters { places: Vec::new() }
    }
}

/// Counts what waits in a channel: how many items, and how many bytes. It holds
/// the places of its two counters, so that all its clones share them.
#[derive(Clone, Copy, Debug, PartialEq, Eq, Structural)]
pub struct ChannelStats {
    pub count: usize,
    pub bytes: usize,
}

impl ChannelStats {
    /// Whether the two counters are there, and are two.
    pub open spec fn lives_in(self, places: Seq<usize>) -> bool {
        self.count < places.len() && self.bytes < places.len() && self.count != self.bytes
    }

    /// Whether two channels have no counter in common.
    pub open spec fn apart(self, other: ChannelStats) -> bool {
        &&& self.count != other.count
        &&& self.count != other.bytes
        &&& self.bytes != other.count
        &&& self.bytes != other.bytes
    }

    /// How many items and how many bytes are counted.
    pub open spec fn waiting(self, places: Seq<usize>) -> (usize, usize) {
        (places[self.count as int], places[self.bytes as int])
    }

    /// The counters with other counts for this channel.
    pub open spec fn counting(self, places: Seq<usize>, counts: (usize, usize)) -> Seq<usize> {
        places.update(self.count as int, counts.0).update(self.bytes as int, counts.1)
    }

    /// The counters behind an event of this channel. Counts begin anew behind the
    /// largest number.
    pub open spec fn after_event(self, places: Seq<usize>, event: ChannelEvent) -> Seq<usize> {
        let (count, bytes) = self.waiting(places);
        match event {
            ChannelEvent::Sent(n) => self.counting(
                places,
                (count.wrapping_add(1), bytes.wrapping_add(n)),
            ),
            ChannelEvent::Received(n) => self.counting(
                places,
                (count.wrapping_sub(1), bytes.wrapping_sub(n)),
            ),
        }
    }

    /// Of an empty channel, with counters of its own.
    pub fn new(counters: &mut Counters) -> (res: ChannelStats)
        requires
            old(counters)@.len() + 2 <= usize::MAX,
        ensures
            final(counters)@ == old(counters)@.push(0).push(0),
            res.count == old(counters)@.len(),
            res.bytes == old(counters)@.len() + 1,
    {
        let place: usize = counters.places.len();
        counters.places.push(0);
        counters.places.push(0);
        ChannelStats { count: place, bytes: place + 1 }
    }

    /// Counts an item that was sent.
    pub fn on_send(&self, counters: &mut Counters, byte_len: usize)
        requires
            self.lives_in(old(counters)@),
        ensures
            final(counters)@ == self.after_event(old(counters)@, ChannelEvent::Sent(byte_len)),
    {
        let count: usize = counters.places[self.count];
        let bytes: usize = counters.places[self.bytes];
        counters.places[self.count] = count.wrapping_add(1);
        counters.places[self.bytes] = bytes.wrapping_add(byte_len);
    }

    /// Counts an item that was received.
    pub fn on_recv(&self, counters: &mut Counters, byte_len: usize)
        requires
            self.lives_in(old(counters)@),
        ensures
            final(counters)@ == self.after_event(old(counters)@, ChannelEvent::Received(byte_len)),
    {
        let count: usize = counters.places[self.count];
        let bytes: usize = counters.places[self.bytes];
        counters.places[self.count] = count.wrapping_sub(1);
        counters.places[self.bytes] = bytes.wrapping_sub(byte_len);
    }

    /// How many items and how many bytes wait.
    pub fn snapshot(&self, counters: &Counters) -> (res: (usize, usize))
        requires
            self.lives_in(counters@),
        ensures
            res == self.waiting(counters@),
    {
        (counters.places[self.count], counters.places[self.bytes])
    }
}

/// A new channel has counters that no channel before it has, they are at zero,
/// and the counters before it stay as they are.
pub proof fn law_new_channel_is_apart(places: Seq<usize>, s: ChannelStats, other: ChannelStats)
    requires
        s.count == places.len(),
        s.bytes == places.len() + 1,
        other.lives_in(places),
    ensures
        s.lives_in(places.push(0).push(0)),
        s.waiting(places.push(0).push(0)) == (0usize, 0usize),
        s.apart(other),
        other.lives_in(places.push(0).push(0)),
        other.waiting(places.push(0).push(0)) == other.waiting(places),
{
}

/// Receiving what was sent undoes the count of it, for every clone: all counters
/// are what they were, also where a count has begun anew in between.
pub proof fn law_received_is_uncounted(
    places: Seq<usize>,
    tx_side: ChannelStats,
    rx_side: ChannelStats,
    byte_len: usize,
)
    requires
        tx_side.lives_in(places),
        rx_side == tx_side,
    ensures
        ({
            let sent = tx_side.after_event(places, ChannelEvent::Sent(byte_len));
            let received = rx_side.after_event(sent, ChannelEvent::Received(byte_len));
            &&& received == places
            &&& rx_side.waiting(received) == rx_side.waiting(places)
            &&& tx_side.waiting(received) == rx_side.waiting(places)
        }),
{
    let sent = tx_side.after_event(places, ChannelEvent::Sent(byte_len));
    let received = rx_side.after_event(sent, ChannelEvent::Received(byte_len));
    assert(received =~= places);
}

/// What was counted of items sent and items received. Each holds the length of
/// an item.
#[derive(Clone, Copy, Debug, PartialEq, Eq, Structural)]
pub enum ChannelEvent {
    Sent(usize),
    Received(usize),
}

/// How many items more were sent than received.
pub open spec fn waiting_items(events: Seq<ChannelEvent>) -> int
    decreases events.len(),
{
    if events.len() == 0 {
        0
    } else {
        waiting_items(events.drop_last()) + (match events.last() {
            ChannelEvent::Sent(_) => 1int,
            ChannelEvent::Received(_) => -1int,
        })
    }
}

/// How many bytes more were sent than received.
pub open spec fn waiting_bytes(events: Seq<ChannelEvent>) -> int
    decreases events.len(),
{
    if events.len() == 0 {
        0
    } else {
        waiting_bytes(events.drop_last()) + (match events.last() {
            ChannelEvent::Sent(n) => n as int,
            ChannelEvent::Received(n) => -(n as int),
        })
    }
}

/// A call on a channel: by which of its clones, and what it counts.
pub struct ChannelCall {
    pub by: ChannelStats,
    pub event: ChannelEvent,
}

/// The counters behind a number of calls.
pub open spec fn after_calls(places: Seq<usize>, calls: Seq<ChannelCall>) -> Seq<usize>
    decreases calls.len(),
{
    if calls.len() == 0 {
        places
    } else {
        calls.last().by.after_event(after_calls(places, calls.drop_last()), calls.last().event)
    }
}

/// What the clones of a channel counted among a number of calls.
pub open spec fn events_of(s: ChannelStats, calls: Seq<ChannelCall>) -> Seq<ChannelEvent>
    decreases calls.len(),
{
    if calls.len() == 0 {
        Seq::empty()
    } else if calls.last().by == s {
        events_of(s, calls.drop_last()).push(calls.last().event)
    } else {
        events_of(s, calls.drop_last())
    }
}

/// Whether each of a number of calls is by a clone of a channel or by a channel
/// that has no counter in common with it.
pub open spec fn well_kept(s: ChannelStats, places: Seq<usize>, calls: Seq<ChannelCall>) -> bool {
    forall|i: int|
        0 <= i < calls.len() ==> (#[trigger] calls[i]).by.lives_in(places) && (calls[i].by == s
            || s.apart(calls[i].by))
}

/// Where what waits can be held, every clone of a channel finds what waits
/// counted: all that was sent and not received, whichever clones counted it, in
/// whatever order, and whatever other channels counted in between.
pub proof fn law_counts_are_what_waits(
    s: ChannelStats,
    places: Seq<usize>,
    calls: Seq<ChannelCall>,
    clone: ChannelStats,
)
    requires
        s.lives_in(places),
        s.waiting(places) == (0usize, 0usize),
        well_kept(s, places, calls),
        clone == s,
    ensures
        clone.lives_in(after_calls(places, calls)),
        0 <= waiting_items(events_of(s, calls)) <= usize::MAX ==> clone.waiting(
            after_calls(places, calls),
        ).0 == waiting_items(events_of(s, calls)),
        0 <= waiting_bytes(events_of(s, calls)) <= usize::MAX ==> clone.waiting(
            after_calls(places, calls),
        ).1 == waiting_bytes(events_of(s, calls)),
{
    lemma_counts_modulo(s, places, calls);
    let events = events_of(s, calls);
    let m = usize::MAX + 1;
    if 0 <= waiting_items(events) <= usize::MAX {
        vstd::arithmetic::div_mod::lemma_small_mod(waiting_items(events) as nat, m as nat);
    }
    if 0 <= waiting_bytes(events) <= usize::MAX {
        vstd::arithmetic::div_mod::lemma_small_mod(waiting_bytes(events) as nat, m as nat);
    }
}

proof fn lemma_counts_modulo(s: ChannelStats, places: Seq<usize>, calls: Seq<ChannelCall>)
    requires
        s.lives_in(places),
        s.waiting(places) == (0usize, 0usize),
        well_kept(s, places, calls),
    ensures
        after_calls(places, calls).len() == places.len(),
        s.waiting(after_calls(places, calls)).0 == waiting_items(events_of(s, calls)) % (usize::MAX
            + 1),
        s.waiting(after_calls(places, calls)).1 == waiting_bytes(events_of(s, calls)) % (usize::MAX
            + 1),
    decreases calls.len(),
{
    if calls.len() == 0 {
        vstd::arithmetic::div_mod::lemma_small_mod(0, (usize::MAX + 1) as nat);
    } else {
        let before = calls.drop_last();
        assert forall|i: int| 0 <= i < before.len() implies (
        #[trigger] before[i]).by.lives_in(places) && (before[i].by == s || s.apart(before[i].by)) by {
            assert(before[i] == calls[i]);
        }
        lemma_counts_modulo(s, places, before);
        let last = calls[calls.len() - 1];
        assert(last == calls.last());
        let counted = s.waiting(after_calls(places, before));
        let events = events_of(s, before);
        if last.by == s {
            assert(events_of(s, calls).drop_last() =~= events);
            match last.event {
                ChannelEvent::Sent(n) => {
                    lemma_wrap_add(counted.0, 1, waiting_items(events));
                    lemma_wrap_add(counted.1, n, waiting_bytes(events));
                },
                ChannelEvent::Received(n) => {
                    lemma_wrap_sub(counted.0, 1, waiting_items(events));
                    lemma_wrap_sub(counted.1, n, waiting_bytes(events));
                },
            }
        }
    }
}

proof fn lemma_wrap_add(held: usize, n: usize, exact: int)
    requires
        held == exact % (usize::MAX + 1),
    ensures
        held.wrapping_add(n) == (exact + n) % (usize::MAX + 1),
{
    let m = usize::MAX + 1;
    vstd::arithmetic::div_mod::lemma_add_mod_noop(exact, n as int, m);
    vstd::arithmetic::div_mod::lemma_small_mod(n as nat, m as nat);
    if held + n < m {
        vstd::arithmetic::div_mod::lemma_small_mod((held + n) as nat, m as nat);
    } else {
        vstd::arithmetic::div_mod::lemma_mod_sub_multiples_vanish(held + n, m);
        vstd::arithmetic::div_mod::lemma_small_mod((held + n - m) as nat, m as nat);
    }
}

proof fn lemma_wrap_sub(held: usize, n: usize, exact: int)
    requires
        held == exact % (usize::MAX + 1),
    ensures
        held.wrapping_sub(n) == (exact - n) % (usize::MAX + 1),
{
    let m = usize::MAX + 1;
    vstd::arithmetic::div_mod::lemma_sub_mod_noop(exact, n as int, m);
    vstd::arithmetic::div_mod::lemma_small_mod(n as nat, m as nat);
    if held >= n {
        vstd::arithmetic::div_mod::lemma_small_mod((held - n) as nat, m as nat);
    } else {
        vstd::arithmetic::div_mod::lemma_mod_add_multiples_vanish(held - n, m);
        vstd::arithmetic::div_mod::lemma_small_mod((held - n + m) as nat, m as nat);
    }
}

/// A fraction lies between zero and one exactly where it is not zero, not negative,
/// and has an exponent below that of one. There are eleven bits of exponent, above
/// fifty-two bits of fraction and below the sign.
pub proof fn law_proper_ratio(r: Ratio)
    ensures
        r.spec_is_proper() <==> r.bits != 0 && r.bits / 0x10_0000_0000_0000 < 1023,
        (Ratio { bits: HALF_BITS }).spec_is_proper(),
        !(Ratio { bits: ONE_BITS }).spec_is_proper(),
        !(Ratio { bits: 0 }).spec_is_proper(),
{
}

/// Each setting is checked on its own, whatever the others are: settings are sound
/// exactly where the one looked at is, and the same settings with a default in its
/// place are.
pub proof fn law_each_setting_is_checked(c: BatchConfig, other: String)
    requires
        other@ == "http://127.0.0.1:8080/ingest"@,
    ensures
        c.is_sound() <==> c.mem_limit_mb >= 64 && (BatchConfig { mem_limit_mb: 256, ..c }).is_sound(),
        c.is_sound() <==> c.safe_data_ratio.spec_is_proper() && (BatchConfig {
            safe_data_ratio: Ratio { bits: HALF_BITS },
            ..c
        }).is_sound(),
        c.is_sound() <==> c.max_wait != 0 && (BatchConfig { max_wait: 5_000_000_000, ..c }).is_sound(),
        c.is_sound() <==> c.max_batch_lines != 0 && (BatchConfig {
            max_batch_lines: 50_000,
            ..c
        }).is_sound(),
        c.is_sound() <==> c.max_format_chunk != 0 && (BatchConfig {
            max_format_chunk: 50_000,
            ..c
        }).is_sound(),
        c.is_sound() <==> is_http_url(c.transport_endpoint@) && (BatchConfig {
            transport_endpoint: other,
            ..c
        }).is_sound(),
        c.is_sound() <==> c.max_transport_bytes >= 4096 && (BatchConfig {
            max_transport_bytes: 131_072,
            ..c
        }).is_sound(),
        c.is_sound() <==> c.transport_workers != 0 && (BatchConfig {
            transport_workers: 5,
            ..c
        }).is_sound(),
        c.is_sound() <==> (BatchConfig { channel_capacity: 150_000, ..c }).is_sound(),
{
    lemma_default_endpoint();
}

proof fn lemma_default_endpoint()
    ensures
        is_http_url("http://127.0.0.1:8080/ingest"@),
{
    reveal_strlit("http://127.0.0.1:8080/ingest");
    reveal_strlit("http://");
    let s = "http://127.0.0.1:8080/ingest"@;
    assert(s.subrange(0, 7) =~= "http://"@);
}

/// Settings that are all the default are sound.
pub proof fn law_default_settings_are_sound(c: BatchConfig)
    requires
        c.mem_limit_mb == 256,
        c.safe_data_ratio.bits == HALF_BITS,
        c.max_wait == 5_000_000_000,
        c.max_batch_lines == 50_000,
        c.max_format_chunk == 50_000,
        c.transport_endpoint@ == default_endpoint(),
        c.max_transport_bytes == 131_072,
        c.transport_workers == 5,
    ensures
        c.is_sound(),
{
    lemma_default_endpoint();
}

/// An endpoint is one that can be reached by HTTP exactly where it begins with one
/// of the two schemes.
pub proof fn law_http_endpoint(s: Seq<char>, rest: Seq<char>)
    ensures
        is_http_url("http://"@ + rest),
        is_http_url("https://"@ + rest),
        is_http_url(s) ==> s == "http://"@ + s.skip("http://"@.len() as int) || s == "https://"@
            + s.skip("https://"@.len() as int),
{
    text::law_begins_with_what_is_before(s, "http://"@, rest);
    text::law_begins_with_what_is_before(s, "https://"@, rest);
}

/// Something is told to be wrong exactly where settings are not sound, and it is
/// the first setting that is wrong, by its name, in the order of the settings.
pub proof fn law_first_fault_is_named(c: BatchConfig, plain: Seq<char>)
    ensures
        c.fault(plain) is None <==> c.is_sound(),
        c.fault(plain) matches Some(told) ==> {
            let a = c.mem_limit_mb >= 64;
            let b = a && c.safe_data_ratio.bits != 0 && c.safe_data_ratio.bits
                / 0x10_0000_0000_0000 < 1023;
            let d = b && c.max_wait > 0;
            let e = d && c.max_batch_lines > 0;
            let f = e && c.max_format_chunk > 0;
            let g = f && is_http_url(c.transport_endpoint@);
            let h = g && c.max_transport_bytes >= 4096;
            &&& !a ==> text::begins_with(told, "mem_limit_mb"@)
            &&& a && !b ==> text::begins_with(told, "safe_data_ratio"@)
            &&& b && !d ==> text::begins_with(told, "max_wait"@)
            &&& d && !e ==> text::begins_with(told, "max_batch_lines"@)
            &&& e && !f ==> text::begins_with(told, "max_format_chunk"@)
            &&& f && !g ==> text::begins_with(told, "transport_endpoint"@)
            &&& g && !h ==> text::begins_with(told, "max_transport_bytes"@)
            &&& h ==> text::begins_with(told, "transport_workers"@)
        },
{
    law_proper_ratio(c.safe_data_ratio);
    if c.fault(plain) is Some {
        let told = c.fault(plain).unwrap();
        reveal_strlit("mem_limit_mb");
        reveal_strlit("mem_limit_mb=");
        reveal_strlit("safe_data_ratio");
        reveal_strlit("safe_data_ratio=");
        reveal_strlit("max_wait");
        reveal_strlit("max_wait 不能為 0（parse loop 會無限 spin）");
        reveal_strlit("max_batch_lines");
        reveal_strlit("max_batch_lines 不能為 0");
        reveal_strlit("max_format_chunk");
        reveal_strlit("max_format_chunk 不能為 0");
        reveal_strlit("transport_endpoint");
        reveal_strlit("transport_endpoint='");
        reveal_strlit("max_transport_bytes");
        reveal_strlit("max_transport_bytes=");
        reveal_strlit("transport_workers");
        reveal_strlit("transport_workers 不能為 0");
        if c.mem_limit_mb < 64 {
            assert(told.subrange(0, 12) =~= "mem_limit_mb"@);
        } else if !c.safe_data_ratio.spec_is_proper() {
            assert(told.subrange(0, 15) =~= "safe_data_ratio"@);
        } else if c.max_wait == 0 {
            assert(told.subrange(0, 8) =~= "max_wait"@);
        } else if c.max_batch_lines == 0 {
            assert(told.subrange(0, 15) =~= "max_batch_lines"@);
        } else if c.max_format_chunk == 0 {
            assert(told.subrange(0, 16) =~= "max_format_chunk"@);
        } else if !is_http_url(c.transport_endpoint@) {
            assert(told.subrange(0, 18) =~= "transport_endpoint"@);
        } else if c.max_transport_bytes < 4096 {
            assert(told.subrange(0, 19) =~= "max_transport_bytes"@);
        } else {
            assert(told.subrange(0, 17) =~= "transport_workers"@);
        }
    }
}

/// It is warned exactly where a channel cannot hold a batch, and where a chunk is
/// larger than a batch, once for each. The table follows exactly where nothing is
/// wrong, and nothing is said where gathering cannot begin.
pub proof fn law_warnings_are_told(c: BatchConfig, plain: Seq<char>, percent: Seq<char>)
    ensures
        c.capacity_warning().len() == (c.channel_capacity < c.max_batch_lines) as int,
        c.chunk_warning().len() == (c.max_format_chunk > c.max_batch_lines) as int,
        c.is_sound() ==> c.remarks(plain, percent) == c.capacity_warning() + c.chunk_warning()
            + c.table(percent),
        !c.is_sound() ==> c.remarks(plain, percent).len() <= 2,
        c.table(percent).len() == 13,
{
}

/// The warning of a channel tells how much it holds and how much a batch does, in this
/// order.
pub proof fn law_capacity_warning_tells_both(c: BatchConfig)
    requires
        c.channel_capacity < c.max_batch_lines,
    ensures
        text::in_order(
            c.capacity_warning()[0],
            seq![
                text::decimal(c.channel_capacity as nat),
                text::decimal(c.max_batch_lines as nat),
            ],
        ),
{
    let none = Seq::<Seq<char>>::empty();
    let p0 = text::decimal(c.channel_capacity as nat);
    let p1 = text::decimal(c.max_batch_lines as nat);
    let h1 = "[config-warn] channel_capacity="@ + p0;
    let h2 = h1 + " < max_batch_lines="@ + p1;
    let r2 = "，stdin channel 可能在單個 batch 積滿前就阻塞"@;
    let r1 = " < max_batch_lines="@ + p1 + r2;
    let line = c.capacity_warning()[0];
    assert(line =~= h2 + r2);
    text::lemma_put_together(h1, " < max_batch_lines="@, p1, r2);
    text::lemma_nothing_in_order(r2);
    text::lemma_in_order(r1, " < max_batch_lines="@, p1, r2, none);
    let q1 = seq![p1] + none;
    text::lemma_in_order(line, "[config-warn] channel_capacity="@, p0, r1, q1);
    let q0 = seq![p0] + q1;
    assert(q0 =~= seq![p0, p1]);
}

/// The warning of a chunk tells how large it may be and how large a batch may, in this
/// order.
pub proof fn law_chunk_warning_tells_both(c: BatchConfig)
    requires
        c.max_format_chunk > c.max_batch_lines,
    ensures
        text::in_order(
            c.chunk_warning()[0],
            seq![
                text::decimal(c.max_format_chunk as nat),
                text::decimal(c.max_batch_lines as nat),
            ],
        ),
{
    let none = Seq::<Seq<char>>::empty();
    let p0 = text::decimal(c.max_format_chunk as nat);
    let p1 = text::decimal(c.max_batch_lines as nat);
    let h1 = "[config-warn] max_format_chunk="@ + p0;
    let h2 = h1 + " > max_batch_lines="@ + p1;
    let r2 = "，format 拆塊無實際效果（每批只有一塊）"@;
    let r1 = " > max_batch_lines="@ + p1 + r2;
    let line = c.chunk_warning()[0];
    assert(line =~= h2 + r2);
    text::lemma_put_together(h1, " > max_batch_lines="@, p1, r2);
    text::lemma_nothing_in_order(r2);
    text::lemma_in_order(r1, " > max_batch_lines="@, p1, r2, none);
    let q1 = seq![p1] + none;
    text::lemma_in_order(line, "[config-warn] max_format_chunk="@, p0, r1, q1);
    let q0 = seq![p0] + q1;
    assert(q0 =~= seq![p0, p1]);
}

/// A line of the table holds its four cells, in their order.
pub proof fn law_table_line_holds_its_cells(
    name: Seq<char>,
    value: Seq<char>,
    mark: Seq<char>,
    usage: Seq<char>,
)
    ensures
        text::in_order(
            cell_line(name, value, mark, usage),
            seq![
                name,
                value,
                mark,
                usage,
            ],
        ),
{
    reveal(cell_line);
    let none = Seq::<Seq<char>>::empty();
    let p0 = name;
    let p1 = value;
    let p2 = mark;
    let p3 = usage;
    let h1 = "│ "@ + text::pad_right(p0, 26, ' ');
    let h2 = h1 + " │ "@ + text::pad_right(p1, 12, ' ');
    let h3 = h2 + " │ "@ + text::pad_right(p2, 5, ' ');
    let h4 = h3 + " │ "@ + text::pad_right(p3, 56, ' ');
    let r4 = " │"@;
    let r3 = " │ "@ + text::pad_right(p3, 56, ' ') + r4;
    let r2 = " │ "@ + text::pad_right(p2, 5, ' ') + r3;
    let r1 = " │ "@ + text::pad_right(p1, 12, ' ') + r2;
    let line = cell_line(name, value, mark, usage);
    assert(line =~= h4 + r4);
    text::lemma_put_together(h3, " │ "@, text::pad_right(p3, 56, ' '), r4);
    text::lemma_put_together(h2, " │ "@, text::pad_right(p2, 5, ' '), r3);
    text::lemma_put_together(h1, " │ "@, text::pad_right(p1, 12, ' '), r2);
    text::lemma_nothing_in_order(r4);
    text::lemma_padded_in_order(r3, " │ "@, p3, 56, r4, none);
    let q3 = seq![p3] + none;
    text::lemma_padded_in_order(r2, " │ "@, p2, 5, r3, q3);
    let q2 = seq![p2] + q3;
    text::lemma_padded_in_order(r1, " │ "@, p1, 12, r2, q2);
    let q1 = seq![p1] + q2;
    text::lemma_padded_in_order(line, "│ "@, p0, 26, r1, q1);
    let q0 = seq![p0] + q1;
    assert(q0 =~= seq![p0, p1, p2, p3]);
}

/// Whether a line of the table shows a setting by its name, then its value, then a
/// mark that tells whether it is the default.
pub open spec fn shows(
    line: Seq<char>,
    name: Seq<char>,
    value: Seq<char>,
    is_default: bool,
) -> bool {
    text::in_order(
        line,
        seq![
            name,
            value,
            if is_default {
                "✓"@
            } else {
                "●"@
            },
        ],
    )
}

proof fn lemma_shows(name: Seq<char>, value: Seq<char>, is_default: bool, usage: Seq<char>)
    ensures
        shows(cell_line(name, value, default_mark(is_default), usage), name, value, is_default),
{
    let mark = default_mark(is_default);
    law_table_line_holds_its_cells(name, value, mark, usage);
    let three = seq![name, value, mark];
    assert(seq![name, value, mark, usage] =~= three.push(usage));
    text::lemma_in_order_fewer(cell_line(name, value, mark, usage), three, usage);
}

/// The table shows every setting as it is, each in a line of its own, and marks
/// those that are the default.
pub proof fn law_table_shows_every_setting(c: BatchConfig, percent: Seq<char>)
    ensures
        shows(c.table(percent)[3], "mem_limit_mb"@, text::decimal(c.mem_limit_mb as nat) + " MB"@, c.mem_limit_mb == 256),
        shows(c.table(percent)[4], "safe_data_ratio"@, percent + "%"@, c.safe_data_ratio.bits == HALF_BITS),
        shows(c.table(percent)[5], "max_wait"@, text::decimal((c.max_wait / 1_000_000) as nat) + " ms"@, c.max_wait == 5_000_000_000),
        shows(c.table(percent)[6], "max_batch_lines"@, text::decimal(c.max_batch_lines as nat), c.max_batch_lines == 50_000),
        shows(c.table(percent)[7], "channel_capacity"@, text::decimal(c.channel_capacity as nat), c.channel_capacity == 150_000),
        shows(c.table(percent)[8], "max_format_chunk"@, text::decimal(c.max_format_chunk as nat), c.max_format_chunk == 50_000),
        shows(c.table(percent)[9], "transport_endpoint"@, c.transport_endpoint@, c.transport_endpoint@ == "http://127.0.0.1:8080/ingest"@),
        shows(c.table(percent)[10], "max_transport_bytes"@, text::decimal((c.max_transport_bytes / 1024) as nat) + " KB"@, c.max_transport_bytes == 131_072),
        shows(c.table(percent)[11], "transport_workers"@, text::decimal(c.transport_workers as nat), c.transport_workers == 5),
{
    lemma_shows("mem_limit_mb"@, text::decimal(c.mem_limit_mb as nat) + " MB"@, c.mem_limit_mb == 256, "每個 WASM store 線性記憶體上限 (runtime.rs MyLimiter)"@);
    lemma_shows("safe_data_ratio"@, percent + "%"@, c.safe_data_ratio.bits == HALF_BITS, "parse batch size 觸發提前 flush 的閾值 (runtime.rs parse_loop)"@);
    lemma_shows("max_wait"@, text::decimal((c.max_wait / 1_000_000) as nat) + " ms"@, c.max_wait == 5_000_000_000, "parse 時間觸發 flush 的等待上限 (runtime.rs parse_loop recv_timeout)"@);
    lemma_shows("max_batch_lines"@, text::decimal(c.max_batch_lines as nat), c.max_batch_lines == 50_000, "parse 行數觸發 flush 的上限 (runtime.rs parse_loop)"@);
    lemma_shows("channel_capacity"@, text::decimal(c.channel_capacity as nat), c.channel_capacity == 150_000, "stdin→parse LineItem channel 容量 [注意: parsed/formatted channel 硬編碼 20000]"@);
    lemma_shows("max_format_chunk"@, text::decimal(c.max_format_chunk as nat), c.max_format_chunk == 50_000, "format plugin 每次呼叫的最大 entry 數 (runtime.rs format_loop chunks)"@);
    lemma_shows("transport_endpoint"@, c.transport_endpoint@, c.transport_endpoint@ == "http://127.0.0.1:8080/ingest"@, "transport plugin init() 目標 URL (runtime.rs make_transport_config_val)"@);
    lemma_shows("max_transport_bytes"@, text::decimal((c.max_transport_bytes / 1024) as nat) + " KB"@, c.max_transport_bytes == 131_072, "每次 transport send() 的最大 byte 數 = 一個 HTTP POST 大小"@);
    lemma_shows("transport_workers"@, text::decimal(c.transport_workers as nat), c.transport_workers == 5, "並行 transport worker 數量，每個持有獨立 WASM store"@);
}

/// A line of the frame is as wide as a line of the table whose cells fit, and has
/// its corners at its ends.
pub proof fn law_frame_fits_the_table(
    left: Seq<char>,
    cross: Seq<char>,
    right: Seq<char>,
    name: Seq<char>,
    value: Seq<char>,
    mark: Seq<char>,
    usage: Seq<char>,
)
    requires
        left.len() == 1,
        cross.len() == 1,
        right.len() == 1,
        name.len() <= 26,
        value.len() <= 12,
        mark.len() <= 5,
        usage.len() <= 56,
    ensures
        frame_line(left, cross, right).len() == cell_line(name, value, mark, usage).len(),
        frame_line(left, cross, right)[0] == left[0],
        frame_line(left, cross, right).last() == right[0],
        forall|i: int|
            0 < i < frame_line(left, cross, right).len() - 1 ==> #[trigger] frame_line(
                left,
                cross,
                right,
            )[i] == '─' || frame_line(left, cross, right)[i] == cross[0],
{
    reveal(frame_line);
    reveal(cell_line);
    reveal_strlit("│ ");
    reveal_strlit(" │ ");
    reveal_strlit(" │");
}

/// Once the settings of gathering are sound it is warned of a channel that cannot
/// hold a batch, and once chunks are too, of one that is larger than a batch,
/// whatever is found wrong behind that. Before that nothing is said.
pub proof fn law_warnings_come_before_faults(c: BatchConfig, plain: Seq<char>, percent: Seq<char>)
    ensures
        ({
            let gathering = c.mem_limit_mb >= 64 && c.safe_data_ratio.bits != 0
                && c.safe_data_ratio.bits / 0x10_0000_0000_0000 < 1023 && c.max_wait > 0
                && c.max_batch_lines > 0;
            let said = c.remarks(plain, percent);
            &&& !gathering ==> said.len() == 0
            &&& gathering && c.max_format_chunk == 0 ==> said == c.capacity_warning()
            &&& gathering && c.max_format_chunk > 0 && !c.is_sound() ==> said
                == c.capacity_warning() + c.chunk_warning()
        }),
{
    law_proper_ratio(c.safe_data_ratio);
}

} // verus!
