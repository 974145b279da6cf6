//! The host that tries a transport plugin out.
use vstd::prelude::*;

use crate::headers::AuthMethod;
use crate::text;
use crate::transport_plugin::TransportConfig;

verus! {

/// What a plugin function gave back.
pub enum CallOutcome {
    Succeeded,
    /// With what it told, where it told anything.
    Failed(Option<String>),
    /// Something that is no result at all.
    Unexpected(String),
}

/// What is said of a call: as the success or as the failure that it was.
pub open spec fn call_text(fn_name: Seq<char>, outcome: CallOutcome) -> Seq<char> {
    match outcome {
        CallOutcome::Succeeded => "[host] "@ + fn_name + "() -> Ok"@,
        CallOutcome::Failed(Some(detail)) => "[host] "@ + fn_name + "() failed: "@ + detail@,
        CallOutcome::Failed(None) => "[host] "@ + fn_name + "() failed: (no error detail)"@,
        CallOutcome::Unexpected(value) => "[host] "@ + fn_name + "() unexpected result type: "@
            + value@,
    }
}

/// Tells whether a call succeeded, with what is said of it either way.
pub fn check_result(fn_name: &str, outcome: &CallOutcome) -> (res: Result<String, String>)
    ensures
        res is Ok <==> outcome is Succeeded,
        res matches Ok(t) ==> t@ == call_text(fn_name@, *outcome),
        res matches Err(t) ==> t@ == call_text(fn_name@, *outcome),
{
    let mut out = "[host] ".to_string();
    out.append(fn_name);
    match outcome {
        CallOutcome::Succeeded => {
            out.append("() -> Ok");
            Ok(out)
        },
        CallOutcome::Failed(Some(detail)) => {
            out.append("() failed: ");
            out.append(detail.as_str());
            Err(out)
        },
        CallOutcome::Failed(None) => {
            out.append("() failed: (no error detail)");
            Err(out)
        },
        CallOutcome::Unexpected(value) => {
            out.append("() unexpected result type: ");
            out.append(value.as_str());
            Err(out)
        },
    }
}

/// The configuration with which a plugin is tried out.
pub fn trial_config(endpoint: String) -> (res: TransportConfig)
    ensures
        res.endpoint == endpoint,
        res.auth is Anonymous,
        res.connect_timeout_ms == 5_000,
        res.request_timeout_ms == 10_000,
        res.retry is None,
        res.extra_headers@.len() == 0,
        res.max_batch_bytes == 0,
{
    TransportConfig {
        endpoint,
        auth: AuthMethod::Anonymous,
        connect_timeout_ms: 5_000,
        request_timeout_ms: 10_000,
        retry: None,
        extra_headers: Vec::new(),
        max_batch_bytes: 0,
    }
}

/// What is said of a call begins with the name of the function, and ends with what
/// the call told where it told anything.
pub proof fn law_call_is_told(fn_name: Seq<char>, outcome: CallOutcome)
    ensures
        text::begins_with(call_text(fn_name, outcome), "[host] "@ + fn_name + "() "@),
        outcome matches CallOutcome::Failed(Some(detail)) ==> text::in_order(
            call_text(fn_name, outcome),
            seq!["failed: "@ + detail@],
        ),
        outcome matches CallOutcome::Unexpected(value) ==> text::in_order(
            call_text(fn_name, outcome),
            seq![value@],
        ),
        outcome is Succeeded <==> call_text(fn_name, outcome) == "[host] "@ + fn_name
            + "() -> Ok"@,
{
    reveal_strlit("[host] ");
    reveal_strlit("() ");
    reveal_strlit("() -> Ok");
    reveal_strlit("() failed: ");
    reveal_strlit("failed: ");
    reveal_strlit("() failed: (no error detail)");
    reveal_strlit("() unexpected result type: ");
    let head = "[host] "@ + fn_name;
    let all = call_text(fn_name, outcome);
    let n = head.len() as int;
    assert(all.subrange(0, n + 3) =~= head + "() "@);
    let none = Seq::<Seq<char>>::empty();
    let end = Seq::<char>::empty();
    text::lemma_nothing_in_order(end);
    match outcome {
        CallOutcome::Succeeded => {},
        CallOutcome::Failed(Some(detail)) => {
            let part = "failed: "@ + detail@;
            assert(all =~= (head + "() "@) + part + end);
            text::lemma_in_order(all, head + "() "@, part, end, none);
            assert(seq![part] + none =~= seq![part]);
            assert(all[n + 3] == 'f');
            assert((head + "() -> Ok"@)[n + 3] == '-');
        },
        CallOutcome::Failed(None) => {
            assert(all[n + 3] == 'f');
            assert((head + "() -> Ok"@)[n + 3] == '-');
        },
        CallOutcome::Unexpected(value) => {
            let before = head + "() unexpected result type: "@;
            assert(all =~= before + value@ + end);
            text::lemma_in_order(all, before, value@, end, none);
            assert(seq![value@] + none =~= seq![value@]);
            assert(all[n + 3] == 'u');
            assert((head + "() -> Ok"@)[n + 3] == '-');
        },
    }
}

} // verus!
