//! Exchanging a plugin while the forwarder runs.
use vstd::prelude::*;

use crate::text;

verus! {

/// A plugin that can be exchanged, and how often it was.
pub struct PluginSlot<T> {
    pub runtime: T,
    pub version: u64,
}

/// What is said of an exchange.
pub open spec fn swapped_text(label: Seq<char>, version: nat, new_path: Seq<char>) -> Seq<char> {
    "[config] "@ + label + " plugin hot-swapped → v"@ + text::decimal(version) + " ("@ + new_path
        + ")"@
}

/// What is said where the new plugin could not be built.
pub open spec fn kept_text(label: Seq<char>, error: Seq<char>) -> Seq<char> {
    "[config] "@ + label + " plugin rebuild FAILED — keeping old plugin: "@ + error
}

impl<T> PluginSlot<T> {
    /// The slot behind an attempt to build a new plugin.
    pub open spec fn after(self, built: Result<T, String>) -> PluginSlot<T> {
        match built {
            Ok(runtime) => PluginSlot { runtime, version: (self.version + 1) as u64 },
            Err(_) => self,
        }
    }

    /// A slot with its first plugin.
    pub fn new(runtime: T) -> (res: PluginSlot<T>)
        ensures
            res == (PluginSlot { runtime, version: 0 }),
    {
        PluginSlot { runtime, version: 0 }
    }

    /// Takes what came of building a new plugin. Where it was built it takes the
    /// place of the old one; else the old one stays. Tells which, and what is
    /// said of it.
    pub fn rebuild(&mut self, built: Result<T, String>, label: &str, new_path: &str) -> (res: (
        bool,
        String,
    ))
        requires
            built is Ok ==> old(self).version < u64::MAX,
        ensures
            *final(self) == old(self).after(built),
            res.0 == (built is Ok),
            res.1@ == match built {
                Ok(_) => swapped_text(label@, final(self).version as nat, new_path@),
                Err(e) => kept_text(label@, e@),
            },
    {
        let mut told = "[config] ".to_string();
        told.append(label);
        match built {
            Ok(runtime) => {
                self.runtime = runtime;
                self.version += 1;
                told.append(" plugin hot-swapped → v");
                text::push_decimal(&mut told, self.version as u128);
                told.append(" (");
                told.append(new_path);
                told.append(")");
                (true, told)
            },
            Err(e) => {
                told.append(" plugin rebuild FAILED — keeping old plugin: ");
                told.append(e.as_str());
                (false, told)
            },
        }
    }

    /// The slot behind a number of attempts.
    pub open spec fn after_all(self, attempts: Seq<Result<T, String>>) -> PluginSlot<T>
        decreases attempts.len(),
    {
        if attempts.len() == 0 {
            self
        } else {
            self.after_all(attempts.drop_last()).after(attempts.last())
        }
    }
}

/// How many attempts gave a plugin.
pub open spec fn successes<T>(attempts: Seq<Result<T, String>>) -> int
    decreases attempts.len(),
{
    if attempts.len() == 0 {
        0
    } else {
        successes(attempts.drop_last()) + if attempts.last() is Ok {
            1int
        } else {
            0
        }
    }
}

/// The version counts the exchanges: it changes exactly when the plugin does,
/// and attempts that fail leave both as they are.
pub proof fn law_version_counts_swaps<T>(slot: PluginSlot<T>, attempts: Seq<Result<T, String>>)
    requires
        slot.version + attempts.len() <= u64::MAX,
    ensures
        slot.after_all(attempts).version == slot.version + successes(attempts),
        successes(attempts) == 0 ==> slot.after_all(attempts) == slot,
        0 <= successes(attempts) <= attempts.len(),
    decreases attempts.len(),
{
    if attempts.len() > 0 {
        law_version_counts_swaps(slot, attempts.drop_last());
    }
}

/// The plugin that is used is the latest that could be built: one that was built
/// takes the place of the old one, and failures behind it change nothing.
pub proof fn law_latest_build_is_used<T>(
    slot: PluginSlot<T>,
    attempts: Seq<Result<T, String>>,
    built: T,
    failures: Seq<String>,
)
    ensures
        slot.after_all(
            attempts.push(Ok(built)) + failures.map_values(|e: String| Err::<T, String>(e)),
        ).runtime == built,
    decreases failures.len(),
{
    let fail = |e: String| Err::<T, String>(e);
    let all = attempts.push(Ok(built)) + failures.map_values(fail);
    if failures.len() == 0 {
        assert(all =~= attempts.push(Ok(built)));
        assert(all.drop_last() =~= attempts);
    } else {
        law_latest_build_is_used(slot, attempts, built, failures.drop_last());
        assert(all.drop_last() =~= attempts.push(Ok(built)) + failures.drop_last().map_values(
            fail,
        ));
        assert(all.last() == fail(failures.last()));
    }
}

/// What is said of an exchange tells the plugin, its version and where it is from;
/// what is said where there was none tells the plugin and why.
pub proof fn law_exchange_is_told(
    label: Seq<char>,
    version: nat,
    new_path: Seq<char>,
    error: Seq<char>,
)
    ensures
        text::in_order(
            swapped_text(label, version, new_path),
            seq![label, text::decimal(version), new_path],
        ),
        text::in_order(kept_text(label, error), seq![label, error]),
{
    let none = Seq::<Seq<char>>::empty();
    let end = Seq::<char>::empty();
    let v = text::decimal(version);
    text::lemma_nothing_in_order(end);
    text::lemma_nothing_in_order(")"@);
    let r2 = " ("@ + new_path + ")"@;
    text::lemma_in_order(r2, " ("@, new_path, ")"@, none);
    let r1 = " plugin hot-swapped → v"@ + v + r2;
    text::lemma_in_order(r1, " plugin hot-swapped → v"@, v, r2, seq![new_path] + none);
    let told = swapped_text(label, version, new_path);
    assert(told =~= "[config] "@ + label + r1);
    text::lemma_in_order(told, "[config] "@, label, r1, seq![v] + (seq![new_path] + none));
    assert(seq![label] + (seq![v] + (seq![new_path] + none)) =~= seq![label, v, new_path]);
    let why = " plugin rebuild FAILED — keeping old plugin: "@;
    let k1 = why + error;
    assert(k1 =~= why + error + end);
    text::lemma_in_order(k1, why, error, end, none);
    let kept = kept_text(label, error);
    assert(kept =~= "[config] "@ + label + k1);
    text::lemma_in_order(kept, "[config] "@, label, k1, seq![error] + none);
    assert(seq![label] + (seq![error] + none) =~= seq![label, error]);
}

} // verus!
