//! Filters that misbehave when a record asks for it. They show how a host copes
//! with a plugin that hangs or takes ever more memory.
use vstd::prelude::*;

verus! {

/// Whether `word` occurs in `data`.
pub open spec fn occurs(data: Seq<u8>, word: Seq<u8>) -> bool {
    exists|i: int|
        0 <= i <= data.len() - word.len() && #[trigger] data.subrange(i, i + word.len()) == word
}

/// Whether a record asks for a fault: it names injection and the fault.
pub open spec fn triggers(data: Seq<u8>, value: Seq<u8>) -> bool {
    occurs(data, vstd::utf8::encode_utf8("inject"@)) && occurs(data, value)
}

fn matches_at(data: &[u8], at: usize, word: &[u8]) -> (res: bool)
    requires
        at + word@.len() <= data@.len(),
    ensures
        res == (data@.subrange(at as int, at + word@.len()) == word@),
{
    let total: usize = data.len();
    let mut i: usize = 0;
    let ghost part = data@.subrange(at as int, at + word@.len());
    while i < word.len()
        invariant
            i <= word@.len(),
            total == data@.len(),
            at + word@.len() <= data@.len(),
            part == data@.subrange(at as int, at + word@.len()),
            forall|k: int| 0 <= k < i ==> part[k] == word@[k],
        decreases word@.len() - i,
    {
        if data[at + i] != word[i] {
            assert(part[i as int] != word@[i as int]);
            return false;
        }
        i += 1;
    }
    assert(part =~= word@);
    true
}

fn contains_word(data: &[u8], word: &[u8]) -> (res: bool)
    ensures
        res == occurs(data@, word@),
{
    if data.len() < word.len() {
        return false;
    }
    let last: usize = data.len() - word.len();
    let mut at: usize = 0;
    loop
        invariant
            at <= last,
            last == data@.len() - word@.len(),
            forall|i: int|
                0 <= i < at ==> #[trigger] data@.subrange(i, i + word@.len()) != word@,
        decreases last - at,
    {
        if matches_at(data, at, word) {
            return true;
        }
        if at == last {
            assert(!occurs(data@, word@));
            return false;
        }
        at += 1;
    }
}

/// Whether a record asks for a fault.
pub fn has_trigger(data: &[u8], value: &[u8]) -> (res: bool)
    requires
        value@.len() > 0,
    ensures
        res == triggers(data@, value@),
{
    contains_word(data, "inject".as_bytes()) && contains_word(data, value)
}

/// A way to hang.
#[derive(Clone, Copy, Debug, PartialEq, Eq, Structural)]
pub enum HangScenario {
    /// Compute for ever.
    Cpu,
    /// Wait for ever.
    Io,
    /// Spin for ever.
    Loop,
}

/// What a filter does with a record.
#[derive(Clone, Copy, Debug, PartialEq, Eq, Structural)]
pub enum Reaction {
    /// Hand it on unchanged.
    Pass,
    /// Never return.
    Hang,
}

impl HangScenario {
    /// The word that asks for the fault.
    pub open spec fn word(self) -> Seq<char> {
        match self {
            HangScenario::Cpu => "cpu"@,
            HangScenario::Io => "io"@,
            HangScenario::Loop => "loop"@,
        }
    }

    /// What a filter does with a record. One without bytes is handed on.
    pub fn filter_func(self, record: &[u8]) -> (res: Reaction)
        ensures
            res == (if triggers(record@, vstd::utf8::encode_utf8(self.word())) {
                Reaction::Hang
            } else {
                Reaction::Pass
            }),
    {
        proof {
            lemma_words();
        }
        let triggered = match self {
            HangScenario::Cpu => has_trigger(record, "cpu".as_bytes()),
            HangScenario::Io => has_trigger(record, "io".as_bytes()),
            HangScenario::Loop => has_trigger(record, "loop".as_bytes()),
        };
        if triggered {
            Reaction::Hang
        } else {
            Reaction::Pass
        }
    }
}

/// The words that ask for faults have bytes.
proof fn lemma_words()
    ensures
        vstd::utf8::encode_utf8("cpu"@).len() > 0,
        vstd::utf8::encode_utf8("io"@).len() > 0,
        vstd::utf8::encode_utf8("loop"@).len() > 0,
        vstd::utf8::encode_utf8("mem"@).len() > 0,
{
    reveal_strlit("cpu");
    reveal_strlit("io");
    reveal_strlit("loop");
    reveal_strlit("mem");
    vstd::utf8::is_ascii_chars_encode_utf8("cpu"@);
    vstd::utf8::is_ascii_chars_encode_utf8("io"@);
    vstd::utf8::is_ascii_chars_encode_utf8("loop"@);
    vstd::utf8::is_ascii_chars_encode_utf8("mem"@);
}

/// After how many records memory grows again.
pub const GROW_EVERY: usize = 32;

/// A filter that takes ever more memory once a record has asked for it.
#[derive(Clone, Copy, Debug, PartialEq, Eq, Structural)]
pub struct LeakFilter {
    /// Whether a record has asked for it.
    pub active: bool,
    /// The records since then.
    pub calls: usize,
}

/// Whether a record asks for memory to be taken.
pub open spec fn asks_for_leak(record: Seq<u8>) -> bool {
    triggers(record, vstd::utf8::encode_utf8("mem"@))
}

impl LeakFilter {
    /// Whether memory is taken from this record on.
    pub open spec fn is_active_at(self, record: Seq<u8>) -> bool {
        self.active || asks_for_leak(record)
    }

    /// The filter behind a record.
    pub open spec fn after(self, record: Seq<u8>) -> LeakFilter {
        if record.len() == 0 {
            self
        } else if self.is_active_at(record) {
            LeakFilter { active: true, calls: self.calls.wrapping_add(1) }
        } else {
            self
        }
    }

    /// Whether memory grows at a record.
    pub open spec fn grows_at(self, record: Seq<u8>) -> bool {
        record.len() > 0 && self.is_active_at(record) && self.calls % GROW_EVERY == 0
    }

    /// The filter behind a number of records.
    pub open spec fn after_all(self, records: Seq<Seq<u8>>) -> LeakFilter
        decreases records.len(),
    {
        if records.len() == 0 {
            self
        } else {
            self.after_all(records.drop_last()).after(records.last())
        }
    }

    /// How often memory grows over a number of records.
    pub open spec fn growths(self, records: Seq<Seq<u8>>) -> int
        decreases records.len(),
    {
        if records.len() == 0 {
            0
        } else {
            let before = records.drop_last();
            self.growths(before) + if self.after_all(before).grows_at(records.last()) {
                1int
            } else {
                0
            }
        }
    }

    /// A filter that no record has asked yet.
    pub fn new() -> (res: LeakFilter)
        ensures
            res == (LeakFilter { active: false, calls: 0 }),
    {
        LeakFilter { active: false, calls: 0 }
    }

    /// Takes a record and says whether memory is to grow by a page. The record
    /// is handed on either way. One without bytes changes nothing.
    pub fn filter_func(&mut self, record: &[u8]) -> (res: bool)
        ensures
            res == old(self).grows_at(record@),
            *final(self) == old(self).after(record@),
    {
        if record.len() == 0 {
            return false;
        }
        proof {
            lemma_words();
        }
        if has_trigger(record, "mem".as_bytes()) {
            self.active = true;
        }
        if !self.active {
            return false;
        }
        let n: usize = self.calls;
        self.calls = n.wrapping_add(1);
        n % GROW_EVERY == 0
    }
}

/// From the record on that asks for it, memory grows at every thirty-second
/// record, the first among them, whatever the records hold. Records without
/// bytes do not count.
pub proof fn law_leak_rate(records: Seq<Seq<u8>>)
    requires
        records.len() <= usize::MAX,
        records.len() > 0,
        asks_for_leak(records[0]),
        forall|i: int| 0 <= i < records.len() ==> (#[trigger] records[i]).len() > 0,
    ensures
        ({
            let start = LeakFilter { active: false, calls: 0 };
            &&& start.growths(records) == (records.len() + GROW_EVERY - 1) / GROW_EVERY as int
            &&& start.after_all(records).active
        }),
{
    lemma_leak(records);
}

proof fn lemma_leak(records: Seq<Seq<u8>>)
    requires
        records.len() <= usize::MAX,
        records.len() > 0,
        asks_for_leak(records[0]),
        forall|i: int| 0 <= i < records.len() ==> (#[trigger] records[i]).len() > 0,
    ensures
        ({
            let start = LeakFilter { active: false, calls: 0 };
            &&& start.after_all(records) == (LeakFilter {
                active: true,
                calls: records.len() as usize,
            })
            &&& start.growths(records) == (records.len() + GROW_EVERY - 1) / GROW_EVERY as int
        }),
    decreases records.len(),
{
    let start = LeakFilter { active: false, calls: 0 };
    let before = records.drop_last();
    assert(records.last() == records[records.len() - 1]);
    if before.len() > 0 {
        assert(before[0] == records[0]);
        assert forall|i: int| 0 <= i < before.len() implies (#[trigger] before[i]).len() > 0 by {
            assert(before[i] == records[i]);
        }
        lemma_leak(before);
    } else {
        assert(start.after_all(before) == start);
        assert(start.growths(before) == 0);
    }
}

/// Until a record asks for it, memory never grows.
pub proof fn law_no_leak_unasked(records: Seq<Seq<u8>>)
    requires
        forall|i: int| 0 <= i < records.len() ==> !asks_for_leak(#[trigger] records[i]),
    ensures
        ({
            let start = LeakFilter { active: false, calls: 0 };
            &&& start.growths(records) == 0
            &&& start.after_all(records) == start
        }),
    decreases records.len(),
{
    if records.len() > 0 {
        let before = records.drop_last();
        assert(records.last() == records[records.len() - 1]);
        assert forall|i: int| 0 <= i < before.len() implies !asks_for_leak(#[trigger] before[i]) by {
            assert(before[i] == records[i]);
        }
        law_no_leak_unasked(before);
    }
}

/// A word occurs in a record exactly where the record is the word with something
/// before and behind it.
pub proof fn law_word_occurs_somewhere(data: Seq<u8>, word: Seq<u8>)
    ensures
        occurs(data, word) <==> exists|a: Seq<u8>, b: Seq<u8>| data == #[trigger] (a + word + b),
{
    if occurs(data, word) {
        let i = choose|i: int|
            0 <= i <= data.len() - word.len() && #[trigger] data.subrange(i, i + word.len())
                == word;
        let (a, b) = (data.take(i), data.skip(i + word.len()));
        assert(data =~= a + word + b);
    }
    if exists|a: Seq<u8>, b: Seq<u8>| data == #[trigger] (a + word + b) {
        let (a, b) = choose|a: Seq<u8>, b: Seq<u8>| data == #[trigger] (a + word + b);
        let i = a.len() as int;
        assert(data.subrange(i, i + word.len()) =~= word);
    }
}

/// A record asks for a fault exactly where it holds both the word for injection
/// and that of the fault, wherever they stand and whatever else it holds.
pub proof fn law_both_words_trigger(data: Seq<u8>, value: Seq<u8>)
    ensures
        triggers(data, value) <==> {
            &&& exists|a: Seq<u8>, b: Seq<u8>|
                data == #[trigger] (a + vstd::utf8::encode_utf8("inject"@) + b)
            &&& exists|a: Seq<u8>, b: Seq<u8>| data == #[trigger] (a + value + b)
        },
{
    law_word_occurs_somewhere(data, vstd::utf8::encode_utf8("inject"@));
    law_word_occurs_somewhere(data, value);
}

/// Each way to hang is asked for by a word of its own.
pub proof fn law_each_fault_has_its_word(s: HangScenario)
    ensures
        s.word() == "cpu"@ <==> s is Cpu,
        s.word() == "io"@ <==> s is Io,
        s.word() == "loop"@ <==> s is Loop,
{
    reveal_strlit("cpu");
    reveal_strlit("io");
    reveal_strlit("loop");
    assert("cpu"@.len() == 3 && "io"@.len() == 2 && "loop"@.len() == 4);
}

/// A record without bytes changes nothing. Once a record has asked for it memory is
/// taken for good: every later record with bytes counts, and memory grows at every
/// thirty-second of them.
pub proof fn law_leak_goes_on(f: LeakFilter, record: Seq<u8>)
    requires
        f.calls < usize::MAX,
    ensures
        record.len() == 0 ==> f.after(record) == f && !f.grows_at(record),
        f.active && record.len() > 0 ==> f.after(record).calls == f.calls + 1,
        f.active ==> f.after(record).active,
        f.after(record).active && !f.active ==> asks_for_leak(record),
        f.active && record.len() > 0 ==> (f.grows_at(record) <==> exists|n: int|
            f.calls == #[trigger] (n * 32)),
{
    if f.calls % GROW_EVERY == 0 {
        let n = f.calls as int / 32;
        assert(f.calls == n * 32);
    }
    if exists|n: int| f.calls == #[trigger] (n * 32) {
        let n = choose|n: int| f.calls == #[trigger] (n * 32);
        assert(f.calls as int % 32 == 0);
    }
}

} // verus!
