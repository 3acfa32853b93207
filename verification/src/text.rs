use vstd::prelude::*;

verus! {

// --- Character classes -----------------------------------------------------

/// Whitespace as the ssh grammar understands it: the four ASCII characters
/// that end a host or project run.
pub open spec fn is_space(c: char) -> bool {
    c == ' ' || c == '\t' || c == '\r' || c == '\n'
}

/// A character of Unicode's White_Space class: what trimming removes.
pub open spec fn is_trim_space(c: char) -> bool {
    c == '\u{9}' || c == '\u{A}' || c == '\u{B}' || c == '\u{C}' || c == '\u{D}' || c == ' '
        || c == '\u{85}' || c == '\u{A0}' || c == '\u{1680}' || c == '\u{2000}' || c == '\u{2001}'
        || c == '\u{2002}' || c == '\u{2003}' || c == '\u{2004}' || c == '\u{2005}'
        || c == '\u{2006}' || c == '\u{2007}' || c == '\u{2008}' || c == '\u{2009}'
        || c == '\u{200A}' || c == '\u{2028}' || c == '\u{2029}' || c == '\u{202F}'
        || c == '\u{205F}' || c == '\u{3000}'
}

/// A character that may stand inside a host name: anything but the two
/// possible host/path separators and whitespace.
pub open spec fn is_host_char(c: char) -> bool {
    c != ':' && c != '/' && !is_space(c)
}

pub open spec fn space_p() -> spec_fn(char) -> bool {
    |c: char| is_space(c)
}

pub open spec fn non_space_p() -> spec_fn(char) -> bool {
    |c: char| !is_space(c)
}

pub open spec fn host_p() -> spec_fn(char) -> bool {
    |c: char| is_host_char(c)
}

pub open spec fn non_at_p() -> spec_fn(char) -> bool {
    |c: char| c != '@'
}

pub open spec fn trim_space_p() -> spec_fn(char) -> bool {
    |c: char| is_trim_space(c)
}

pub fn space_char(c: char) -> (r: bool)
    ensures
        r == is_space(c),
{
    c == ' ' || c == '\t' || c == '\r' || c == '\n'
}

pub fn trim_space_char(c: char) -> (r: bool)
    ensures
        r == is_trim_space(c),
{
    c == '\u{9}' || c == '\u{A}' || c == '\u{B}' || c == '\u{C}' || c == '\u{D}' || c == ' '
        || c == '\u{85}' || c == '\u{A0}' || c == '\u{1680}' || c == '\u{2000}' || c == '\u{2001}'
        || c == '\u{2002}' || c == '\u{2003}' || c == '\u{2004}' || c == '\u{2005}'
        || c == '\u{2006}' || c == '\u{2007}' || c == '\u{2008}' || c == '\u{2009}'
        || c == '\u{200A}' || c == '\u{2028}' || c == '\u{2029}' || c == '\u{202F}'
        || c == '\u{205F}' || c == '\u{3000}'
}

pub fn host_char(c: char) -> (r: bool)
    ensures
        r == is_host_char(c),
{
    c != ':' && c != '/' && !space_char(c)
}

// --- Maximal runs ----------------------------------------------------------

/// Length of the longest prefix of `s` whose characters all satisfy `p`.
pub open spec fn run_len(s: Seq<char>, p: spec_fn(char) -> bool) -> int
    decreases s.len(),
{
    if s.len() > 0 && p(s[0]) {
        1 + run_len(s.drop_first(), p)
    } else {
        0
    }
}

/// Length of the longest suffix of `s` whose characters all satisfy `p`.
pub open spec fn end_run_len(s: Seq<char>, p: spec_fn(char) -> bool) -> int
    decreases s.len(),
{
    if s.len() > 0 && p(s.last()) {
        1 + end_run_len(s.drop_last(), p)
    } else {
        0
    }
}

pub proof fn lemma_run_len_is(s: Seq<char>, p: spec_fn(char) -> bool, k: int)
    requires
        0 <= k <= s.len(),
        forall|j: int| 0 <= j < k ==> p(s[j]),
        k < s.len() ==> !p(s[k]),
    ensures
        run_len(s, p) == k,
    decreases s.len(),
{
    if k == 0 {
    } else {
        assert(p(s[0]));
        lemma_run_len_is(s.drop_first(), p, k - 1);
    }
}

pub proof fn lemma_end_run_len_is(s: Seq<char>, p: spec_fn(char) -> bool, k: int)
    requires
        0 <= k <= s.len(),
        forall|j: int| s.len() - k <= j < s.len() ==> p(s[j]),
        k < s.len() ==> !p(s[s.len() - k - 1]),
    ensures
        end_run_len(s, p) == k,
    decreases s.len(),
{
    if k == 0 {
    } else {
        assert(p(s.last()));
        lemma_end_run_len_is(s.drop_last(), p, k - 1);
    }
}

pub proof fn lemma_run_len_chars(s: Seq<char>, p: spec_fn(char) -> bool)
    ensures
        forall|j: int| 0 <= j < run_len(s, p) ==> p(s[j]),
        run_len(s, p) < s.len() ==> !p(s[run_len(s, p)]),
    decreases s.len(),
{
    lemma_run_len_bounds(s, p);
    if s.len() > 0 && p(s[0]) {
        lemma_run_len_chars(s.drop_first(), p);
        lemma_run_len_bounds(s.drop_first(), p);
        assert forall|j: int| 0 <= j < run_len(s, p) implies p(s[j]) by {
            if j > 0 {
                assert(p(s.drop_first()[j - 1]));
            }
        }
    }
}

pub proof fn lemma_end_run_len_chars(s: Seq<char>, p: spec_fn(char) -> bool)
    ensures
        forall|j: int| s.len() - end_run_len(s, p) <= j < s.len() ==> p(s[j]),
        end_run_len(s, p) < s.len() ==> !p(s[s.len() - end_run_len(s, p) - 1]),
    decreases s.len(),
{
    lemma_end_run_len_bounds(s, p);
    if s.len() > 0 && p(s.last()) {
        lemma_end_run_len_chars(s.drop_last(), p);
        lemma_end_run_len_bounds(s.drop_last(), p);
        assert forall|j: int| s.len() - end_run_len(s, p) <= j < s.len() implies p(s[j]) by {
            if j < s.len() - 1 {
                assert(p(s.drop_last()[j]));
            }
        }
    }
}

pub proof fn lemma_run_len_bounds(s: Seq<char>, p: spec_fn(char) -> bool)
    ensures
        0 <= run_len(s, p) <= s.len(),
    decreases s.len(),
{
    if s.len() > 0 && p(s[0]) {
        lemma_run_len_bounds(s.drop_first(), p);
    }
}

pub proof fn lemma_end_run_len_bounds(s: Seq<char>, p: spec_fn(char) -> bool)
    ensures
        0 <= end_run_len(s, p) <= s.len(),
    decreases s.len(),
{
    if s.len() > 0 && p(s.last()) {
        lemma_end_run_len_bounds(s.drop_last(), p);
    }
}

// --- Prefixes and suffixes -------------------------------------------------

pub open spec fn starts_with(s: Seq<char>, prefix: Seq<char>) -> bool {
    s.len() >= prefix.len() && s.take(prefix.len() as int) == prefix
}

pub open spec fn ends_with(s: Seq<char>, suffix: Seq<char>) -> bool {
    s.len() >= suffix.len() && s.skip(s.len() - suffix.len()) == suffix
}

// --- Splitting on '/' and joining back ------------------------------------

/// The segments of `s` between `/` separators, in order; empty segments are
/// kept, and the empty string yields one empty segment.
pub open spec fn split_slash(s: Seq<char>) -> Seq<Seq<char>>
    decreases s.len(),
{
    if s.len() == 0 {
        seq![Seq::<char>::empty()]
    } else if s.last() == '/' {
        split_slash(s.drop_last()).push(Seq::<char>::empty())
    } else {
        let r = split_slash(s.drop_last());
        r.update(r.len() - 1, r.last().push(s.last()))
    }
}

/// The segments rejoined with a single `/` between neighbours.
pub open spec fn join_slash(segs: Seq<Seq<char>>) -> Seq<char>
    decreases segs.len(),
{
    if segs.len() == 0 {
        Seq::<char>::empty()
    } else if segs.len() == 1 {
        segs[0]
    } else {
        join_slash(segs.drop_last()) + seq!['/'] + segs.last()
    }
}

pub proof fn lemma_split_slash_len(s: Seq<char>)
    ensures
        split_slash(s).len() >= 1,
    decreases s.len(),
{
    if s.len() > 0 {
        lemma_split_slash_len(s.drop_last());
    }
}

/// Joining the split of a string gives the string back.
pub proof fn lemma_join_split(s: Seq<char>)
    ensures
        join_slash(split_slash(s)) == s,
    decreases s.len(),
{
    if s.len() == 0 {
        assert(join_slash(split_slash(s)) =~= s);
    } else {
        let s0 = s.drop_last();
        lemma_join_split(s0);
        lemma_split_slash_len(s0);
        let r = split_slash(s0);
        if s.last() == '/' {
            let w = r.push(Seq::<char>::empty());
            assert(w.drop_last() =~= r);
            assert(join_slash(w) == join_slash(r) + seq!['/'] + Seq::<char>::empty());
            assert(join_slash(w) =~= s);
        } else {
            let w = r.update(r.len() - 1, r.last().push(s.last()));
            if r.len() == 1 {
                assert(join_slash(w) == w[0]);
                assert(join_slash(w) =~= s);
            } else {
                assert(w.drop_last() =~= r.drop_last());
                assert(join_slash(w) == join_slash(r.drop_last()) + seq!['/'] + r.last().push(
                    s.last(),
                ));
                assert(join_slash(w) =~= join_slash(r) + seq![s.last()]);
                assert(join_slash(w) =~= s);
            }
        }
    }
}

// --- Executable helpers ----------------------------------------------------

/// Character-for-character string equality.
pub fn str_eq(a: &str, b: &str) -> (r: bool)
    ensures
        r == (a@ == b@),
{
    let n = a.unicode_len();
    let m = b.unicode_len();
    if n != m {
        return false;
    }
    let mut k: usize = 0;
    while k < n
        invariant
            k <= n,
            n == a@.len(),
            n == b@.len(),
            forall|j: int| 0 <= j < k ==> a@[j] == b@[j],
        decreases n - k,
    {
        if a.get_char(k) != b.get_char(k) {
            return false;
        }
        k = k + 1;
    }
    proof {
        assert(a@ =~= b@);
    }
    true
}

} // verus!
