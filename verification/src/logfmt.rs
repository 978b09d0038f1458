use vstd::prelude::*;
use crate::strutil::{push_decimal, spec_udec};

verus! {

/// The stream tag of one log record: supervisor information, supervisor
/// errors, or one of the worker's two output channels.
#[derive(Clone, Copy, PartialEq, Eq, Structural, Debug)]
pub enum LogTag {
    Info,
    Error,
    Stdout,
    Stderr,
}

/// The tag's rendering between brackets in a log line.
pub open spec fn spec_tag_label(t: LogTag) -> Seq<char> {
    match t {
        LogTag::Info => seq!['I', 'N', 'F', 'O'],
        LogTag::Error => seq!['E', 'R', 'R', 'O', 'R'],
        LogTag::Stdout => seq!['S', 'T', 'D', 'O', 'U', 'T'],
        LogTag::Stderr => seq!['S', 'T', 'D', 'E', 'R', 'R'],
    }
}

impl LogTag {
    /// The label written for this tag.
    pub fn label(&self) -> (r: &'static str)
        ensures
            r@ == spec_tag_label(*self),
    {
        match self {
            LogTag::Info => {
                proof {
                    reveal_strlit("INFO");
                    assert("INFO"@ =~= seq!['I', 'N', 'F', 'O']);
                }
                "INFO"
            },
            LogTag::Error => {
                proof {
                    reveal_strlit("ERROR");
                    assert("ERROR"@ =~= seq!['E', 'R', 'R', 'O', 'R']);
                }
                "ERROR"
            },
            LogTag::Stdout => {
                proof {
                    reveal_strlit("STDOUT");
                    assert("STDOUT"@ =~= seq!['S', 'T', 'D', 'O', 'U', 'T']);
                }
                "STDOUT"
            },
            LogTag::Stderr => {
                proof {
                    reveal_strlit("STDERR");
                    assert("STDERR"@ =~= seq!['S', 'T', 'D', 'E', 'R', 'R']);
                }
                "STDERR"
            },
        }
    }
}

/// One line of the durable log: `[<unix-ms-timestamp>][<tag>] <message>`.
pub open spec fn spec_log_line(ts: u128, tag: LogTag, msg: Seq<char>) -> Seq<char> {
    seq!['['] + spec_udec(ts as nat) + seq![']', '['] + spec_tag_label(tag) + seq![']', ' '] + msg
}

/// Formats one log line exactly as the durable log stores it.
pub fn format_log_line(ts: u128, tag: LogTag, msg: &str) -> (r: String)
    ensures
        r@ == spec_log_line(ts, tag, msg@),
{
    let mut s = String::from_str("[");
    push_decimal(&mut s, ts);
    s.append("][");
    s.append(tag.label());
    s.append("] ");
    s.append(msg);
    proof {
        reveal_strlit("[");
        reveal_strlit("][");
        reveal_strlit("] ");
        assert("["@ =~= seq!['[']);
        assert("]["@ =~= seq![']', '[']);
        assert("] "@ =~= seq![']', ' ']);
        assert(s@ =~= spec_log_line(ts, tag, msg@));
    }
    s
}

/// The banner line a fresh log file opens with.
pub fn session_header(ts: u128) -> (r: String)
    ensures
        r@ == "=== New Session Started at "@ + spec_udec(ts as nat) + " ==="@,
{
    let mut s = String::from_str("=== New Session Started at ");
    push_decimal(&mut s, ts);
    s.append(" ===");
    s
}

} // verus!
