//! The commit-message grammar: the tickets that an `Issue:` line names, and the
//! tickets that a branch's commits claim to resolve.
//!
//! The grammar is the lenient one: the first line of a message that starts
//! with `Issue:` holds a comma-separated list, and each piece, trimmed of white
//! space, is a ticket unless it is empty. Tickets are not checked against any
//! shape; they are compared as they stand.

use vstd::prelude::*;

use crate::text::{chars_of, skip_white_space, trim, trim_range, trim_start};

verus! {

/// An `Issue:` line starts at index `p`: at the start of the message or after
/// a newline.
pub open spec fn issue_at(m: Seq<char>, p: int) -> bool {
    &&& 0 <= p
    &&& p + 6 <= m.len()
    &&& (p == 0 || m[p - 1] == '\n')
    &&& m[p] == 'I'
    &&& m[p + 1] == 's'
    &&& m[p + 2] == 's'
    &&& m[p + 3] == 'u'
    &&& m[p + 4] == 'e'
    &&& m[p + 5] == ':'
}

/// The first index at or after `p` where an `Issue:` line starts.
pub open spec fn first_issue(m: Seq<char>, p: int) -> Option<int>
    decreases m.len() - p,
{
    if 0 <= p < m.len() {
        if issue_at(m, p) {
            Some(p)
        } else {
            first_issue(m, p + 1)
        }
    } else {
        None
    }
}

/// The first index at or after `i` that holds a newline (or the length).
pub open spec fn find_newline(s: Seq<char>, i: int) -> int
    decreases s.len() - i,
{
    if 0 <= i < s.len() && s[i] != '\n' {
        find_newline(s, i + 1)
    } else {
        i
    }
}

/// Splitting a text at commas, read from its start: the pieces closed by a
/// comma so far, and the piece still open.
pub open spec fn comma_state(t: Seq<char>) -> (Seq<Seq<char>>, Seq<char>)
    decreases t.len(),
{
    if t.len() == 0 {
        (Seq::empty(), Seq::empty())
    } else {
        let (done, open) = comma_state(t.drop_last());
        if t.last() == ',' {
            (done.push(open), Seq::empty())
        } else {
            (done, open.push(t.last()))
        }
    }
}

/// The pieces between the commas of `t` (one more than it has commas).
pub open spec fn split_commas(t: Seq<char>) -> Seq<Seq<char>> {
    comma_state(t).0.push(comma_state(t).1)
}

/// The pieces, trimmed, that are not empty once trimmed.
pub open spec fn kept_ids(pieces: Seq<Seq<char>>) -> Seq<Seq<char>>
    decreases pieces.len(),
{
    if pieces.len() == 0 {
        Seq::empty()
    } else {
        let before = kept_ids(pieces.drop_last());
        if trim(pieces.last()).len() > 0 {
            before.push(trim(pieces.last()))
        } else {
            before
        }
    }
}

/// The tickets of a comma-separated list.
pub open spec fn ids_of_list(t: Seq<char>) -> Seq<Seq<char>> {
    kept_ids(split_commas(t))
}

/// The tickets that a commit message names: the list on its first `Issue:`
/// line. White space, newlines included, may stand between `Issue:` and the
/// list, which runs to the end of its line.
pub open spec fn issue_ids(m: Seq<char>) -> Seq<Seq<char>> {
    match first_issue(m, 0) {
        None => Seq::empty(),
        Some(p) => {
            let rest = trim_start(m.subrange(p + 6, m.len() as int));
            if rest.len() == 0 {
                Seq::empty()
            } else {
                ids_of_list(rest.subrange(0, find_newline(rest, 0)))
            }
        },
    }
}

/// The contents of a sequence of strings.
pub open spec fn views(v: Seq<String>) -> Seq<Seq<char>> {
    v.map_values(|s: String| s@)
}

fn is_issue_at(s: &Vec<char>, p: usize) -> (r: bool)
    requires
        p < s.len(),
    ensures
        r == issue_at(s@, p as int),
{
    if s.len() - p < 6 || (p > 0 && s[p - 1] != '\n') {
        return false;
    }
    s[p] == 'I' && s[p + 1] == 's' && s[p + 2] == 's' && s[p + 3] == 'u' && s[p + 4] == 'e'
        && s[p + 5] == ':'
}

fn find_newline_from(s: &Vec<char>, i: usize) -> (r: usize)
    requires
        i <= s.len(),
    ensures
        r as int == find_newline(s@, i as int),
        i <= r <= s.len(),
{
    let mut j = i;
    while j < s.len() && s[j] != '\n'
        invariant
            i <= j <= s.len(),
            find_newline(s@, i as int) == find_newline(s@, j as int),
        decreases s.len() - j,
    {
        j = j + 1;
    }
    j
}

/// Appends the trimmed `s[lo..hi]`, copied out of `src`, unless it is empty.
fn push_piece(out: &mut Vec<String>, src: &str, s: &Vec<char>, lo: usize, hi: usize)
    requires
        s@ == src@,
        lo <= hi <= s.len(),
    ensures
        views(final(out)@) == if trim(s@.subrange(lo as int, hi as int)).len() > 0 {
            views(old(out)@).push(trim(s@.subrange(lo as int, hi as int)))
        } else {
            views(old(out)@)
        },
{
    let (a, b) = trim_range(s, lo, hi);
    if a < b {
        let id = String::from_str(src.substring_char(a, b));
        out.push(id);
        assert(views(final(out)@) =~= views(old(out)@).push(id@));
    }
}

/// The tickets of the comma-separated list `s[lo..hi]`.
fn ids_in_range(src: &str, s: &Vec<char>, lo: usize, hi: usize) -> (r: Vec<String>)
    requires
        s@ == src@,
        lo <= hi <= s.len(),
    ensures
        views(r@) == ids_of_list(s@.subrange(lo as int, hi as int)),
{
    let mut out: Vec<String> = Vec::new();
    let mut start = lo;
    let mut i = lo;
    while i < hi
        invariant
            s@ == src@,
            lo <= start <= i <= hi <= s.len(),
            comma_state(s@.subrange(lo as int, i as int)).1 == s@.subrange(
                start as int,
                i as int,
            ),
            views(out@) == kept_ids(comma_state(s@.subrange(lo as int, i as int)).0),
        decreases hi - i,
    {
        let ghost before = comma_state(s@.subrange(lo as int, i as int));
        assert(s@.subrange(lo as int, i + 1).drop_last() =~= s@.subrange(lo as int, i as int));
        if s[i] == ',' {
            assert(before.0.push(before.1).drop_last() =~= before.0);
            push_piece(&mut out, src, s, start, i);
            start = i + 1;
            assert(s@.subrange(start as int, i + 1) =~= Seq::<char>::empty());
        } else {
            assert(s@.subrange(start as int, i + 1) =~= s@.subrange(start as int, i as int).push(
                s@[i as int],
            ));
        }
        i = i + 1;
    }
    proof {
        let st = comma_state(s@.subrange(lo as int, hi as int));
        assert(st.0.push(st.1).drop_last() =~= st.0);
    }
    push_piece(&mut out, src, s, start, hi);
    out
}

/// The tickets that a commit message names on its first `Issue:` line.
pub fn extract_issue_ids(commit_msg: &str) -> (r: Vec<String>)
    ensures
        views(r@) == issue_ids(commit_msg@),
{
    let s = chars_of(commit_msg);
    let mut p: usize = 0;
    while p < s.len()
        invariant
            s@ == commit_msg@,
            p <= s.len(),
            first_issue(s@, 0) == first_issue(s@, p as int),
        decreases s.len() - p,
    {
        if is_issue_at(&s, p) {
            let r = skip_white_space(&s, p + 6, s.len());
            if r == s.len() {
                return Vec::new();
            }
            let e = find_newline_from(&s, r);
            proof {
                let rest = s@.subrange(r as int, s.len() as int);
                assert(find_newline(rest, 0) == find_newline(s@, r as int) - r) by {
                    lemma_find_newline_shift(s@, r as int, 0);
                }
                assert(rest.subrange(0, e - r) =~= s@.subrange(r as int, e as int));
            }
            return ids_in_range(commit_msg, &s, r, e);
        }
        p = p + 1;
    }
    Vec::new()
}

proof fn lemma_find_newline_shift(s: Seq<char>, r: int, i: int)
    requires
        0 <= r <= s.len(),
        0 <= i <= s.len() - r,
    ensures
        find_newline(s.subrange(r, s.len() as int), i) == find_newline(s, r + i) - r,
    decreases s.len() - r - i,
{
    if i < s.len() - r && s[r + i] != '\n' {
        lemma_find_newline_shift(s, r, i + 1);
    }
}

/// The tickets named by each message, message after message.
pub open spec fn resolving_ids(messages: Seq<Seq<char>>) -> Seq<Seq<char>>
    decreases messages.len(),
{
    if messages.len() == 0 {
        Seq::empty()
    } else {
        resolving_ids(messages.drop_last()) + issue_ids(messages.last())
    }
}

/// The tickets that the commits with messages `messages` claim to resolve,
/// duplicates kept.
pub fn resolving_issues(messages: &Vec<String>) -> (r: Vec<String>)
    ensures
        views(r@) == resolving_ids(views(messages@)),
{
    let mut out: Vec<String> = Vec::new();
    let mut k: usize = 0;
    while k < messages.len()
        invariant
            k <= messages.len(),
            views(out@) == resolving_ids(views(messages@).take(k as int)),
        decreases messages.len() - k,
    {
        let mut ids = extract_issue_ids(messages[k].as_str());
        let ghost prev = out@;
        let ghost got = ids@;
        out.append(&mut ids);
        proof {
            assert(views(messages@).take(k + 1).drop_last() =~= views(messages@).take(k as int));
            assert(views(out@) =~= views(prev) + views(got));
        }
        k = k + 1;
    }
    assert(views(messages@).take(k as int) =~= views(messages@));
    out
}

} // verus!
