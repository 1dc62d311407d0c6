//! Scanning probe output for the host field.
//!
//! The probe output of `rustc -vV` is a sequence of lines separated by
//! line feeds. The target triple is carried by the first line that begins
//! with the literal prefix `host: `; the value is everything after the
//! prefix up to (not including) the next line feed, returned exactly as
//! it stands, with no trimming.
//!
//! [`extract_host`] is the specification of that scan, and
//! [`find_host_value`] the verified executable that implements it.

use vstd::prelude::*;
use vstd::string::StrSliceExecFns;

verus! {

/// The field prefix that labels the default target triple.
pub open spec fn host_prefix() -> Seq<char> {
    seq!['h', 'o', 's', 't', ':', ' ']
}

/// Number of characters before the first line feed, or the whole length
/// when the text holds no line feed: the length of the first line.
pub open spec fn first_line_len(text: Seq<char>) -> int
    decreases text.len(),
{
    if text.len() == 0 || text[0] == '\n' {
        0
    } else {
        1 + first_line_len(text.subrange(1, text.len() as int))
    }
}

/// The first line's length is in bounds, no line feed stands before it,
/// and a line feed stands right after it unless the text ends there.
pub proof fn lemma_first_line_len(text: Seq<char>)
    ensures
        0 <= first_line_len(text) <= text.len(),
        forall|k: int| 0 <= k < first_line_len(text) ==> text[k] != '\n',
        first_line_len(text) < text.len() ==> text[first_line_len(text)] == '\n',
    decreases text.len(),
{
    if text.len() == 0 || text[0] == '\n' {
    } else {
        let rest = text.subrange(1, text.len() as int);
        lemma_first_line_len(rest);
        assert forall|k: int| 0 <= k < first_line_len(text) implies text[k] != '\n' by {
            if k > 0 {
                assert(text[k] == rest[k - 1]);
            }
        }
    }
}

/// Whichever characters satisfy the first-line conditions give the first
/// line's length: no line feed before `n`, and one at `n` unless the text
/// ends there.
pub proof fn lemma_first_line_len_is(text: Seq<char>, n: int)
    requires
        0 <= n <= text.len(),
        forall|k: int| 0 <= k < n ==> text[k] != '\n',
        n == text.len() || text[n] == '\n',
    ensures
        first_line_len(text) == n,
    decreases text.len(),
{
    if text.len() == 0 || text[0] == '\n' {
    } else {
        let rest = text.subrange(1, text.len() as int);
        assert forall|k: int| 0 <= k < n - 1 implies rest[k] != '\n' by {
            assert(rest[k] == text[k + 1]);
        }
        lemma_first_line_len_is(rest, n - 1);
    }
}

/// The scan itself: the value of the first line that begins with
/// `host: `, or `None` when no line does.
///
/// Lines are the maximal line-feed-free stretches of the text; the final
/// line needs no terminating line feed. The value is the rest of the
/// matching line, exactly as it stands.
pub open spec fn extract_host(text: Seq<char>) -> Option<Seq<char>>
    decreases text.len(),
    via extract_host_decreases
{
    let n = first_line_len(text);
    if n >= host_prefix().len() && text.subrange(0, host_prefix().len() as int)
        == host_prefix() {
        Some(text.subrange(host_prefix().len() as int, n))
    } else if n >= text.len() {
        None
    } else {
        extract_host(text.subrange(n + 1, text.len() as int))
    }
}

#[via_fn]
proof fn extract_host_decreases(text: Seq<char>) {
    lemma_first_line_len(text);
}

/// True when the six characters at `start` spell out `host: `.
fn is_host_prefix_at(text: &str, start: usize) -> (r: bool)
    requires
        start + 6 <= text@.len(),
        text@.len() <= usize::MAX,
    ensures
        r == (text@.subrange(start as int, start as int + 6) == host_prefix()),
{
    let r = text.get_char(start) == 'h' && text.get_char(start + 1) == 'o'
        && text.get_char(start + 2) == 's' && text.get_char(start + 3) == 't'
        && text.get_char(start + 4) == ':' && text.get_char(start + 5) == ' ';
    proof {
        let window = text@.subrange(start as int, start as int + 6);
        if r {
            assert(window =~= host_prefix());
        } else if window == host_prefix() {
            assert(text@[start as int] == window[0]);
            assert(text@[start as int + 1] == window[1]);
            assert(text@[start as int + 2] == window[2]);
            assert(text@[start as int + 3] == window[3]);
            assert(text@[start as int + 4] == window[4]);
            assert(text@[start as int + 5] == window[5]);
        }
    }
    r
}

/// Scans the text line by line and returns the value of the first
/// `host: ` line, exactly as [`extract_host`] describes.
pub fn find_host_value(text: &str) -> (r: Option<String>)
    ensures
        match r {
            Some(v) => extract_host(text@) == Some(v@),
            None => extract_host(text@) is None,
        },
{
    let len = text.unicode_len();
    let mut start: usize = 0;
    proof {
        assert(text@.subrange(0, len as int) =~= text@);
    }
    loop
        invariant
            start <= len,
            len == text@.len(),
            extract_host(text@) == extract_host(text@.subrange(start as int, len as int)),
        decreases len - start,
    {
        let ghost rem = text@.subrange(start as int, len as int);
        let mut end: usize = start;
        while end < len && text.get_char(end) != '\n'
            invariant
                start <= end <= len,
                len == text@.len(),
                forall|k: int| start <= k < end ==> text@[k] != '\n',
            decreases len - end,
        {
            end = end + 1;
        }
        proof {
            assert forall|k: int| 0 <= k < end - start implies rem[k] != '\n' by {
                assert(rem[k] == text@[start + k]);
            }
            if end < len {
                assert(rem[end - start as int] == text@[end as int]);
            }
            lemma_first_line_len_is(rem, end - start as int);
        }
        let is_host = end - start >= 6 && is_host_prefix_at(text, start);
        proof {
            if end - start >= 6 {
                assert(rem.subrange(0, 6) =~= text@.subrange(start as int, start as int + 6));
            }
        }
        if is_host {
            proof {
                assert(rem.subrange(6, end - start as int)
                    =~= text@.subrange(start as int + 6, end as int));
            }
            let value = text.substring_char(start + 6, end);
            return Some(value.to_owned());
        }
        if end == len {
            return None;
        }
        proof {
            assert(rem.subrange(end - start as int + 1, rem.len() as int)
                =~= text@.subrange(end as int + 1, len as int));
        }
        start = end + 1;
    }
}

} // verus!
