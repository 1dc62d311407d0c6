//! General laws of the host-field scan.
//!
//! [`extract_host`] is a recursive definition; the lemmas here restate
//! its behaviour in direct terms: the value of a leading host line is
//! returned exactly as it stands, lines without the prefix are skipped
//! without affecting the result, and the scan succeeds precisely when
//! some line of the text begins with the prefix.

use vstd::prelude::*;

use crate::parse::{extract_host, first_line_len, host_prefix, lemma_first_line_len,
    lemma_first_line_len_is};

verus! {

/// True when `i` is the first character of a line: the start of the
/// text, or the position right after a line feed.
pub open spec fn line_start_at(text: Seq<char>, i: int) -> bool {
    0 <= i <= text.len() && (i == 0 || text[i - 1] == '\n')
}

/// True when a line begins at `i` with the prefix `host: `.
pub open spec fn host_line_at(text: Seq<char>, i: int) -> bool {
    line_start_at(text, i) && i + host_prefix().len() <= text.len()
        && text.subrange(i, i + host_prefix().len() as int) == host_prefix()
}

/// True when some line of the text begins with the prefix `host: `.
pub open spec fn has_host_line(text: Seq<char>) -> bool {
    exists|i: int| host_line_at(text, i)
}

/// No character of the prefix `host: ` is a line feed.
proof fn lemma_host_prefix_no_newline()
    ensures
        forall|k: int| 0 <= k < host_prefix().len() ==> host_prefix()[k] != '\n',
{
    assert(host_prefix()[0] == 'h');
    assert(host_prefix()[1] == 'o');
    assert(host_prefix()[2] == 's');
    assert(host_prefix()[3] == 't');
    assert(host_prefix()[4] == ':');
    assert(host_prefix()[5] == ' ');
}

/// When the text opens with `host: ` followed by a value free of line
/// feeds, the scan returns exactly that value — no trimming, and an
/// empty value comes back empty — whether the line is closed by a line
/// feed and followed by arbitrary text, or ends the text itself.
pub proof fn lemma_extract_host_at_front(value: Seq<char>, rest: Seq<char>)
    requires
        forall|k: int| 0 <= k < value.len() ==> value[k] != '\n',
    ensures
        extract_host(host_prefix() + value + seq!['\n'] + rest) == Some(value),
        extract_host(host_prefix() + value) == Some(value),
{
    lemma_host_prefix_no_newline();
    let closed = host_prefix() + value + seq!['\n'] + rest;
    let open_ended = host_prefix() + value;
    let n = (host_prefix().len() + value.len()) as int;
    assert(closed[n] == '\n');
    assert forall|k: int| 0 <= k < n implies closed[k] != '\n' by {
        if k < host_prefix().len() {
            assert(closed[k] == host_prefix()[k]);
        } else {
            assert(closed[k] == value[k - host_prefix().len()]);
        }
    }
    lemma_first_line_len_is(closed, n);
    assert(closed.subrange(0, host_prefix().len() as int) =~= host_prefix());
    assert(closed.subrange(host_prefix().len() as int, n) =~= value);
    assert forall|k: int| 0 <= k < n implies open_ended[k] != '\n' by {
        if k < host_prefix().len() {
            assert(open_ended[k] == host_prefix()[k]);
        } else {
            assert(open_ended[k] == value[k - host_prefix().len()]);
        }
    }
    lemma_first_line_len_is(open_ended, n);
    assert(open_ended.subrange(0, host_prefix().len() as int) =~= host_prefix());
    assert(open_ended.subrange(host_prefix().len() as int, n) =~= value);
}

/// Leading lines that carry no `host: ` prefix do not affect the scan:
/// the first matching line wins, wherever it stands after them.
pub proof fn lemma_extract_host_skips_prefix(pre: Seq<char>, tail: Seq<char>)
    requires
        extract_host(pre) is None,
        pre.len() == 0 || pre[pre.len() - 1] == '\n',
    ensures
        extract_host(pre + tail) == extract_host(tail),
    decreases pre.len(),
{
    if pre.len() == 0 {
        assert(pre + tail =~= tail);
    } else {
        let whole = pre + tail;
        let n = first_line_len(pre);
        lemma_first_line_len(pre);
        if n == pre.len() {
            assert(pre[pre.len() - 1] != '\n');
        }
        assert(n < pre.len());
        assert forall|k: int| 0 <= k < n implies whole[k] != '\n' by {
            assert(whole[k] == pre[k]);
        }
        assert(whole[n] == pre[n]);
        lemma_first_line_len_is(whole, n);
        if n >= host_prefix().len() {
            assert(whole.subrange(0, host_prefix().len() as int)
                =~= pre.subrange(0, host_prefix().len() as int));
        }
        let pre2 = pre.subrange(n + 1, pre.len() as int);
        assert(pre2.len() == 0 || pre2[pre2.len() - 1] == '\n');
        assert(whole.subrange(n + 1, whole.len() as int) =~= pre2 + tail);
        lemma_extract_host_skips_prefix(pre2, tail);
    }
}

/// The scan succeeds exactly when some line of the text begins with
/// `host: `; on a text without such a line — the empty text among them —
/// it returns nothing.
pub proof fn lemma_extract_host_iff_host_line(text: Seq<char>)
    ensures
        extract_host(text) is Some <==> has_host_line(text),
    decreases text.len(),
{
    lemma_host_prefix_no_newline();
    let n = first_line_len(text);
    lemma_first_line_len(text);
    if n >= host_prefix().len() && text.subrange(0, host_prefix().len() as int)
        == host_prefix() {
        assert(host_line_at(text, 0));
    } else if n >= text.len() {
        if has_host_line(text) {
            let i = choose|i: int| host_line_at(text, i);
            if i == 0 {
                assert(text.subrange(0, host_prefix().len() as int) == host_prefix());
            } else {
                assert(text[i - 1] == '\n');
            }
        }
    } else {
        let tail = text.subrange(n + 1, text.len() as int);
        lemma_extract_host_iff_host_line(tail);
        if has_host_line(tail) {
            let j = choose|j: int| host_line_at(tail, j);
            assert(text.subrange(n + 1 + j, n + 1 + j + host_prefix().len() as int)
                =~= tail.subrange(j, j + host_prefix().len() as int));
            if j > 0 {
                assert(text[n + j] == tail[j - 1]);
            }
            assert(host_line_at(text, n + 1 + j));
        }
        if has_host_line(text) {
            let i = choose|i: int| host_line_at(text, i);
            if i == 0 {
                assert(n < host_prefix().len());
                assert(text[n] == text.subrange(0, host_prefix().len() as int)[n]);
                assert(text[n] == host_prefix()[n]);
                assert(false);
            } else {
                assert(text[i - 1] == '\n');
                assert(i - 1 >= n);
                let j = i - n - 1;
                assert(tail.subrange(j, j + host_prefix().len() as int)
                    =~= text.subrange(i, i + host_prefix().len() as int));
                if j > 0 {
                    assert(tail[j - 1] == text[i - 1]);
                }
                assert(host_line_at(tail, j));
            }
        }
    }
}

} // verus!
