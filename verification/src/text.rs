//! Plain-text helpers for the chat core: character search, whitespace
//! trimming, splitting a message body into lines, and sender-prefix
//! formatting.

use vstd::prelude::*;

verus! {

use vstd::string::StrSliceExecFns;
use vstd::string::StringExecFns;

/// Whitespace for the purpose of trimming: space, tab, line feed and
/// carriage return.
pub open spec fn is_space_char(c: char) -> bool {
    c == ' ' || c == '\t' || c == '\n' || c == '\r'
}

/// A character that separates lines of a message body.
pub open spec fn is_line_sep(c: char) -> bool {
    c == '\n' || c == '\r'
}

pub fn is_space(c: char) -> (r: bool)
    ensures
        r == is_space_char(c),
{
    c == ' ' || c == '\t' || c == '\n' || c == '\r'
}

pub fn is_sep(c: char) -> (r: bool)
    ensures
        r == is_line_sep(c),
{
    c == '\n' || c == '\r'
}

/// Character-by-character string equality, stated over the views.
pub fn str_eq(a: &str, b: &str) -> (r: bool)
    ensures
        r == (a@ == b@),
{
    let n = a.unicode_len();
    if n != b.unicode_len() {
        return false;
    }
    let mut i: usize = 0;
    while i < n
        invariant
            n == a@.len(),
            n == b@.len(),
            i <= n,
            forall|j: int| 0 <= j < i ==> a@[j] == b@[j],
        decreases n - i,
    {
        if a.get_char(i) != b.get_char(i) {
            return false;
        }
        i += 1;
    }
    proof {
        assert(a@ =~= b@);
    }
    true
}

/// What remains of `s` once leading and trailing whitespace is removed.
pub open spec fn spec_trim(s: Seq<char>) -> Seq<char>
    decreases s.len(),
{
    if s.len() == 0 {
        s
    } else if is_space_char(s[0]) {
        spec_trim(s.drop_first())
    } else if is_space_char(s[s.len() - 1]) {
        spec_trim(s.drop_last())
    } else {
        s
    }
}

proof fn lemma_trim_all_space(s: Seq<char>)
    requires
        forall|j: int| 0 <= j < s.len() ==> is_space_char(s[j]),
    ensures
        spec_trim(s) =~= Seq::<char>::empty(),
    decreases s.len(),
{
    if s.len() > 0 {
        lemma_trim_all_space(s.drop_first());
    }
}

proof fn lemma_trim_subrange(s: Seq<char>, lo: int, hi: int)
    requires
        0 <= lo <= hi < s.len(),
        !is_space_char(s[lo]),
        !is_space_char(s[hi]),
        forall|j: int| 0 <= j < lo ==> is_space_char(s[j]),
        forall|j: int| hi < j < s.len() ==> is_space_char(s[j]),
    ensures
        spec_trim(s) =~= s.subrange(lo, hi + 1),
    decreases s.len(),
{
    if lo > 0 {
        let t = s.drop_first();
        lemma_trim_subrange(t, lo - 1, hi - 1);
        assert(t.subrange(lo - 1, hi) =~= s.subrange(lo, hi + 1));
    } else if hi < s.len() - 1 {
        let t = s.drop_last();
        lemma_trim_subrange(t, lo, hi);
        assert(t.subrange(lo, hi + 1) =~= s.subrange(lo, hi + 1));
    } else {
        assert(s.subrange(0, s.len() as int) =~= s);
    }
}

/// Remove leading and trailing whitespace.
pub fn trim_str(s: &str) -> (r: String)
    ensures
        r@ == spec_trim(s@),
{
    let n = s.unicode_len();
    let mut lo: usize = 0;
    while lo < n && is_space(s.get_char(lo))
        invariant
            n == s@.len(),
            lo <= n,
            forall|j: int| 0 <= j < lo ==> is_space_char(s@[j]),
        decreases n - lo,
    {
        lo += 1;
    }
    if lo == n {
        proof {
            lemma_trim_all_space(s@);
        }
        return String::new();
    }
    let mut hi: usize = n - 1;
    while hi > lo && is_space(s.get_char(hi))
        invariant
            n == s@.len(),
            lo <= hi < n,
            !is_space_char(s@[lo as int]),
            forall|j: int| hi < j < n ==> is_space_char(s@[j]),
        decreases hi,
    {
        hi -= 1;
    }
    let t = s.substring_char(lo, hi + 1);
    proof {
        lemma_trim_subrange(s@, lo as int, hi as int);
    }
    String::from_str(t)
}

/// The lines of a message body: the segments of `s` between line-separator
/// characters, in order; a body with no separator is a single segment.
pub open spec fn spec_split_lines(s: Seq<char>) -> Seq<Seq<char>>
    decreases s.len(),
{
    if s.len() == 0 {
        seq![s]
    } else if is_line_sep(s[0]) {
        seq![Seq::<char>::empty()] + spec_split_lines(s.drop_first())
    } else {
        let rest = spec_split_lines(s.drop_first());
        seq![seq![s[0]] + rest[0]] + rest.drop_first()
    }
}

proof fn lemma_split_nonempty(s: Seq<char>)
    ensures
        spec_split_lines(s).len() >= 1,
    decreases s.len(),
{
    if s.len() > 0 {
        lemma_split_nonempty(s.drop_first());
    }
}

/// A separator-free string splits into itself alone.
proof fn lemma_split_sep_free(s: Seq<char>)
    requires
        forall|j: int| 0 <= j < s.len() ==> !is_line_sep(s[j]),
    ensures
        spec_split_lines(s) =~= seq![s],
    decreases s.len(),
{
    if s.len() > 0 {
        lemma_split_sep_free(s.drop_first());
        assert(seq![s[0]] + s.drop_first() =~= s);
    }
}

/// Splitting at the first separator: everything before it is one segment,
/// and the rest of the segments are those of what follows it.
proof fn lemma_split_at_first_sep(s: Seq<char>, i: int)
    requires
        0 <= i < s.len(),
        is_line_sep(s[i]),
        forall|j: int| 0 <= j < i ==> !is_line_sep(s[j]),
    ensures
        spec_split_lines(s) =~= seq![s.subrange(0, i)] + spec_split_lines(
            s.subrange(i + 1, s.len() as int),
        ),
    decreases s.len(),
{
    if i == 0 {
        assert(s.drop_first() =~= s.subrange(1, s.len() as int));
        assert(s.subrange(0, 0) =~= Seq::<char>::empty());
    } else {
        let t = s.drop_first();
        lemma_split_at_first_sep(t, i - 1);
        lemma_split_nonempty(t.subrange(i, t.len() as int));
        assert(t.subrange(0, i - 1) =~= s.subrange(1, i));
        assert(t.subrange(i, t.len() as int) =~= s.subrange(i + 1, s.len() as int));
        assert(seq![s[0]] + s.subrange(1, i) =~= s.subrange(0, i));
    }
}

/// The lines of a message body, each trimmed: what one inbound body is
/// displayed as, segment by segment.
pub open spec fn spec_body_lines(s: Seq<char>) -> Seq<Seq<char>> {
    spec_split_lines(s).map_values(|l: Seq<char>| spec_trim(l))
}

/// Split `s` on line-separator characters and trim each segment.
pub fn split_body_lines(s: &str) -> (v: Vec<String>)
    ensures
        v.deep_view() == spec_body_lines(s@),
{
    let n = s.unicode_len();
    let mut v: Vec<String> = Vec::new();
    let mut start: usize = 0;
    let mut i: usize = 0;
    proof {
        assert(s@.subrange(0, n as int) =~= s@);
        assert(spec_body_lines(s@) =~= v.deep_view() + spec_body_lines(
            s@.subrange(0, n as int),
        ));
    }
    while i < n
        invariant
            n == s@.len(),
            start <= i <= n,
            forall|j: int| start <= j < i ==> !is_line_sep(s@[j]),
            spec_body_lines(s@) =~= v.deep_view() + spec_body_lines(
                s@.subrange(start as int, n as int),
            ),
        decreases n - i,
    {
        if is_sep(s.get_char(i)) {
            let seg = s.substring_char(start, i);
            let trimmed = trim_str(seg);
            proof {
                let tail = s@.subrange(start as int, n as int);
                lemma_split_at_first_sep(tail, i - start);
                assert(tail.subrange(0, i - start) =~= s@.subrange(start as int, i as int));
                assert(tail.subrange(i - start + 1, tail.len() as int) =~= s@.subrange(
                    i + 1,
                    n as int,
                ));
                assert(spec_body_lines(tail) =~= seq![spec_trim(seg@)] + spec_body_lines(
                    s@.subrange(i + 1, n as int),
                ));
            }
            v.push(trimmed);
            proof {
                assert(spec_body_lines(s@) =~= v.deep_view() + spec_body_lines(
                    s@.subrange(i + 1, n as int),
                ));
            }
            start = i + 1;
        }
        i += 1;
    }
    let seg = s.substring_char(start, n);
    let trimmed = trim_str(seg);
    proof {
        let tail = s@.subrange(start as int, n as int);
        lemma_split_sep_free(tail);
        assert(spec_body_lines(tail) =~= seq![spec_trim(seg@)]);
    }
    v.push(trimmed);
    proof {
        assert(v.deep_view() =~= spec_body_lines(s@));
    }
    v
}

/// The prefix put in front of every displayed line of one message: the
/// private-message marker when flagged, then the sender tag.
pub open spec fn spec_line_prefix(is_private: bool, sender: Seq<char>) -> Seq<char> {
    (if is_private {
        "(PM)"@
    } else {
        Seq::<char>::empty()
    }) + "<"@ + sender + "> "@
}

/// Render one displayed line: the sender prefix followed by the line text.
pub fn format_line(is_private: bool, sender: &str, line: &str) -> (r: String)
    ensures
        r@ == spec_line_prefix(is_private, sender@) + line@,
{
    let mut r = String::new();
    if is_private {
        r.append("(PM)");
    }
    r.append("<");
    r.append(sender);
    r.append("> ");
    r.append(line);
    proof {
        assert(r@ =~= spec_line_prefix(is_private, sender@) + line@);
    }
    r
}

/// The first position of `c` in `s`; `s.len()` when `c` does not occur.
pub open spec fn first_idx(s: Seq<char>, c: char) -> int
    decreases s.len(),
{
    if s.len() == 0 {
        0
    } else if s[0] == c {
        0
    } else {
        1 + first_idx(s.drop_first(), c)
    }
}

pub proof fn lemma_first_idx(s: Seq<char>, c: char)
    ensures
        0 <= first_idx(s, c) <= s.len(),
        first_idx(s, c) < s.len() ==> s[first_idx(s, c)] == c,
        forall|j: int| 0 <= j < first_idx(s, c) ==> s[j] != c,
        (forall|j: int| 0 <= j < s.len() ==> s[j] != c) ==> first_idx(s, c) == s.len(),
    decreases s.len(),
{
    if s.len() > 0 && s[0] != c {
        lemma_first_idx(s.drop_first(), c);
        assert(forall|j: int|
            1 <= j < first_idx(s, c) ==> s[j] == s.drop_first()[j - 1]);
    }
}

/// Find the first occurrence of `c`, or `None` if it does not occur.
pub fn find_char(s: &str, c: char) -> (r: Option<usize>)
    ensures
        match r {
            Some(i) => i == first_idx(s@, c) && i < s@.len(),
            None => first_idx(s@, c) == s@.len(),
        },
{
    proof {
        lemma_first_idx(s@, c);
    }
    let n = s.unicode_len();
    let mut i: usize = 0;
    while i < n
        invariant
            n == s@.len(),
            i <= n,
            forall|j: int| 0 <= j < i ==> s@[j] != c,
        decreases n - i,
    {
        if s.get_char(i) == c {
            proof {
                lemma_first_idx_unique(s@, c, i as int);
            }
            return Some(i);
        }
        i += 1;
    }
    None
}

proof fn lemma_first_idx_unique(s: Seq<char>, c: char, i: int)
    requires
        0 <= i < s.len(),
        s[i] == c,
        forall|j: int| 0 <= j < i ==> s[j] != c,
    ensures
        first_idx(s, c) == i,
{
    lemma_first_idx(s, c);
    if first_idx(s, c) < i {
        assert(s[first_idx(s, c)] == c);
    }
}

} // verus!
