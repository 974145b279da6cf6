//! Following a file: what to do with each attempt to open or to read it.
use vstd::prelude::*;

use crate::text;

verus! {

/// How an attempt to open or to read the file ended.
pub enum TailEvent {
    /// It could not be opened.
    OpenFailed,
    /// Nothing more is there yet.
    EndOfFile,
    /// A line, with its end where it has one.
    Line(String),
    /// Reading failed.
    ReadFailed,
}

/// What to do next.
pub enum TailAction {
    /// Wait for so many milliseconds, then try again.
    Wait(u64),
    /// Send a line, then read on.
    Send(String),
    /// Read on.
    ReadOn,
}

/// A line without its end. A carriage return belongs to the end only before a
/// newline.
pub open spec fn trimmed(line: Seq<char>) -> Seq<char> {
    if line.len() > 0 && line.last() == '\n' {
        let body = line.drop_last();
        if body.len() > 0 && body.last() == '\r' {
            body.drop_last()
        } else {
            body
        }
    } else {
        line
    }
}

/// A line without its end.
pub fn trim_line(line: &str) -> (res: String)
    ensures
        res@ == trimmed(line@),
{
    let chars = text::chars_of(line);
    let mut end: usize = chars.len();
    if end > 0 && chars[end - 1] == '\n' {
        end -= 1;
        if end > 0 && chars[end - 1] == '\r' {
            end -= 1;
        }
    }
    let res = text::text_of(&chars, 0, end);
    assert(res@ =~= trimmed(line@));
    res
}

/// Decides what to do next. Lines without text are passed over.
pub fn tail_step(event: TailEvent) -> (res: TailAction)
    ensures
        match event {
            TailEvent::OpenFailed => res == TailAction::Wait(1000),
            TailEvent::EndOfFile => res == TailAction::Wait(50),
            TailEvent::ReadFailed => res == TailAction::Wait(100),
            TailEvent::Line(line) => if trimmed(line@).len() > 0 {
                res matches TailAction::Send(sent) && sent@ == trimmed(line@)
            } else {
                res is ReadOn
            },
        },
{
    match event {
        TailEvent::OpenFailed => TailAction::Wait(1000),
        TailEvent::EndOfFile => TailAction::Wait(50),
        TailEvent::ReadFailed => TailAction::Wait(100),
        TailEvent::Line(line) => {
            let sent = trim_line(line.as_str());
            if sent.as_str().unicode_len() > 0 {
                TailAction::Send(sent)
            } else {
                TailAction::ReadOn
            }
        },
    }
}

/// However a line was ended, and if it was ended, what is sent is the line.
pub proof fn law_line_ends_are_dropped(line: Seq<char>)
    requires
        line.len() == 0 || (line.last() != '\n' && line.last() != '\r'),
    ensures
        trimmed(line) == line,
        trimmed(line.push('\n')) == line,
        trimmed(line.push('\r').push('\n')) == line,
{
    assert(line.push('\n').drop_last() =~= line);
    assert(line.push('\r').push('\n').drop_last() =~= line.push('\r'));
    assert(line.push('\r').drop_last() =~= line);
}

/// Of whatever line only its end is dropped: a newline, and a carriage return right
/// before it. A line without a newline stays as it is, with a carriage return at
/// its end too.
pub proof fn law_only_the_end_is_dropped(line: Seq<char>)
    ensures
        line.len() == 0 || line.last() != '\n' ==> trimmed(line) == line,
        line.len() == 0 || line.last() != '\r' ==> trimmed(line.push('\n')) == line,
        trimmed(line.push('\r').push('\n')) == line,
        trimmed(line.push('\r')) == line.push('\r'),
        trimmed(line) == line.take(trimmed(line).len() as int),
        line.len() - trimmed(line).len() <= 2,
{
    assert(line.push('\n').drop_last() =~= line);
    assert(line.push('\r').push('\n').drop_last() =~= line.push('\r'));
    assert(line.push('\r').drop_last() =~= line);
    assert(trimmed(line) =~= line.take(trimmed(line).len() as int));
}

/// Every line with text is sent, without its end and with nothing else changed;
/// one without is passed over. Nothing else is ever sent.
pub proof fn law_lines_with_text_are_sent(event: TailEvent, action: TailAction)
    requires
        call_ensures(tail_step, (event,), action),
    ensures
        action is Send ==> event is Line,
        event matches TailEvent::Line(line) ==> {
            &&& action is ReadOn <==> line@.len() == 0 || line@ == seq!['\n'] || line@ == seq![
                '\r',
                '\n',
            ]
            &&& action matches TailAction::Send(sent) ==> {
                &&& sent@.len() > 0
                &&& line@ == sent@ || line@ == sent@.push('\n') || line@ == sent@.push('\r').push(
                    '\n',
                )
                &&& line@ == sent@ ==> line@.last() != '\n'
                &&& line@ == sent@.push('\n') ==> sent@.last() != '\r'
            }
            &&& !(action is Wait)
        },
        !(event is Line) ==> action is Wait && action->Wait_0 > 0,
{
    match event {
        TailEvent::Line(line) => {
            let l = line@;
            if l.len() > 0 && l.last() == '\n' {
                let body = l.drop_last();
                assert(l =~= body.push('\n'));
                if body.len() > 0 && body.last() == '\r' {
                    assert(body =~= body.drop_last().push('\r'));
                }
            }
            if trimmed(l).len() == 0 {
                if l.len() == 1 {
                    assert(l =~= seq!['\n']);
                } else if l.len() == 2 {
                    assert(l =~= seq!['\r', '\n']);
                }
            }
        },
        _ => {},
    }
}

} // verus!
