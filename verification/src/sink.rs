//! The diagnostic sink's entry format. The sink itself owns two
//! exclusively-locked append-only files; opening, locking, appending and
//! flushing are filesystem work and live with the caller that owns the
//! files, while the entry text they append is composed and pinned down
//! here.
use vstd::prelude::*;
use vstd::string::*;
use crate::text::dec_rep;

verus! {

/// One log entry: a newline, the timestamp, the writing process's id, and
/// the payload, unchanged, at the end.
pub open spec fn format_log_spec(now_secs: u64, pid: u64, content: Seq<char>) -> Seq<char> {
    "\nTime: "@ + dec_rep(now_secs as nat) + ", PID: "@ + dec_rep(pid as nat) + content
}

/// Composes one log entry from the clock reading, the process id, and the
/// payload.
pub fn format_log(now_secs: u64, pid: u64, content: &str) -> (r: String)
    ensures
        r@ == format_log_spec(now_secs, pid, content@),
{
    let mut out = String::new();
    out.append("\nTime: ");
    let t = crate::text::u64_to_string(now_secs);
    out.append(t.as_str());
    out.append(", PID: ");
    let p = crate::text::u64_to_string(pid);
    out.append(p.as_str());
    out.append(content);
    proof {
        assert(out@ =~= format_log_spec(now_secs, pid, content@));
    }
    out
}

/// Law: a log entry ends with its payload, so the tail of the stream
/// after a push ends with the pushed text.
pub proof fn lemma_log_entry_ends_with_payload(now_secs: u64, pid: u64, content: Seq<char>)
    ensures
        format_log_spec(now_secs, pid, content).len() >= content.len(),
        format_log_spec(now_secs, pid, content).skip(
            format_log_spec(now_secs, pid, content).len() - content.len(),
        ) == content,
{
    let s = format_log_spec(now_secs, pid, content);
    assert(s.skip(s.len() - content.len()) =~= content);
}

} // verus!
