//! The records of the log files.
//!
//! Opening the files, the clock and writing are the application's; the
//! library says what one record looks like.

use vstd::prelude::*;
use crate::text::push_char;

verus! {

/// The message with each line feed written as `\n`, so that a record
/// stays on one line.
pub open spec fn escaped(msg: Seq<char>) -> Seq<char>
    decreases msg.len(),
{
    if msg.len() == 0 {
        seq![]
    } else if msg.last() == '\n' {
        escaped(msg.drop_last()) + seq!['\\', 'n']
    } else {
        escaped(msg.drop_last()).push(msg.last())
    }
}

/// One record of a log file: the time, the level in brackets, the
/// escaped message, and a line feed.
pub open spec fn log_record(timestamp: Seq<char>, level: Seq<char>, msg: Seq<char>) -> Seq<char> {
    timestamp + " ["@ + level + "] "@ + escaped(msg) + "\n"@
}

/// Writes a message with each line feed written as `\n`.
pub fn escape_newlines(msg: &str) -> (r: String)
    ensures
        r@ == escaped(msg@),
{
    let cs = crate::text::chars_of(msg);
    let mut out = String::new();
    let mut i: usize = 0;
    while i < cs.len()
        invariant
            i <= cs@.len(),
            cs@ == msg@,
            out@ == escaped(msg@.take(i as int)),
        decreases cs.len() - i,
    {
        assert(msg@.take(i + 1).drop_last() =~= msg@.take(i as int));
        if cs[i] == '\n' {
            push_char(&mut out, '\\');
            push_char(&mut out, 'n');
        } else {
            push_char(&mut out, cs[i]);
        }
        assert(out@ =~= escaped(msg@.take(i + 1)));
        i = i + 1;
    }
    assert(msg@.take(msg@.len() as int) =~= msg@);
    out
}

/// Writes one record of a log file.
pub fn log_line(timestamp: &str, level: &str, msg: &str) -> (r: String)
    ensures
        r@ == log_record(timestamp@, level@, msg@),
{
    proof {
        reveal_strlit(" [");
        reveal_strlit("] ");
        reveal_strlit("\n");
    }
    let mut r = timestamp.to_owned();
    r.append(" [");
    r.append(level);
    r.append("] ");
    r.append(escape_newlines(msg).as_str());
    r.append("\n");
    r
}

} // verus!
