//! A git clone wrapper: the destination directory mirrors the topology of
//! the site a repository is cloned from, so `https://github.com/org/repo`
//! lands under `<base>/github.com/org/repo`.

use vstd::prelude::*;

pub mod cli;
pub mod https;
pub mod remote;
pub mod ssh;
pub mod text;

verus! {

use crate::https::{effective_path, uri_accepted, uri_host, uri_path};
use crate::remote::UrlParseError;
use crate::ssh::{ssh_parse_spec, ssh_resolved_spec};
use crate::text::{
    end_run_len, ends_with, is_space, is_trim_space, lemma_end_run_len_bounds,
    lemma_end_run_len_chars, lemma_end_run_len_is, lemma_run_len_bounds, lemma_run_len_chars,
    lemma_run_len_is, run_len, starts_with, trim_space_char, trim_space_p,
};

// --- The normalizer ---------------------------------------------------------

/// Surrounding whitespace, removed: every leading and trailing character
/// of Unicode's White_Space class.
pub open spec fn trim_spec(s: Seq<char>) -> Seq<char> {
    let t = s.skip(run_len(s, trim_space_p()));
    t.take(t.len() - end_run_len(t, trim_space_p()))
}

pub open spec fn git_suffix() -> Seq<char> {
    seq!['.', 'g', 'i', 't']
}

/// One trailing `.git`, removed. Case-sensitive, and a single occurrence
/// only, even where the string ends with `.git.git`.
pub open spec fn strip_git_spec(s: Seq<char>) -> Seq<char> {
    if ends_with(s, git_suffix()) {
        s.take(s.len() - 4)
    } else {
        s
    }
}

/// The normalized url: trimmed, then stripped of one trailing `.git`.
pub open spec fn normalize_spec(s: Seq<char>) -> Seq<char> {
    strip_git_spec(trim_spec(s))
}

/// Trim surrounding whitespace and remove one trailing `.git` marker.
/// Casing is left alone; see `CasePolicy` for the folding variant.
pub fn normalize(url: &str) -> (r: String)
    ensures
        r@ == normalize_spec(url@),
{
    let n = url.unicode_len();
    let mut i: usize = 0;
    while i < n && trim_space_char(url.get_char(i))
        invariant
            i <= n,
            n == url@.len(),
            forall|j: int| 0 <= j < i ==> is_trim_space(url@[j]),
        decreases n - i,
    {
        i = i + 1;
    }
    proof {
        assert forall|j: int| 0 <= j < i implies trim_space_p()(url@[j]) by {}
        lemma_run_len_is(url@, trim_space_p(), i as int);
    }
    let mut j: usize = n;
    while j > i && trim_space_char(url.get_char(j - 1))
        invariant
            i <= j <= n,
            n == url@.len(),
            forall|k: int| j <= k < n ==> is_trim_space(url@[k]),
        decreases j,
    {
        j = j - 1;
    }
    proof {
        let t = url@.skip(i as int);
        assert forall|m: int| t.len() - (n - j) <= m < t.len() implies trim_space_p()(t[m]) by {
            assert(t[m] == url@[i + m]);
        }
        if n - j < t.len() {
            assert(t[t.len() - (n - j) - 1] == url@[j - 1]);
        }
        lemma_end_run_len_is(t, trim_space_p(), n - j);
        assert(t.take(j - i) =~= url@.subrange(i as int, j as int));
        assert(trim_spec(url@) == url@.subrange(i as int, j as int));
    }
    let trimmed = url.substring_char(i, j);
    let tl = j - i;
    let has_git = tl >= 4 && trimmed.get_char(tl - 4) == '.' && trimmed.get_char(tl - 3) == 'g'
        && trimmed.get_char(tl - 2) == 'i' && trimmed.get_char(tl - 1) == 't';
    proof {
        if has_git {
            assert(trimmed@.skip(tl - 4) =~= git_suffix());
        } else if ends_with(trimmed@, git_suffix()) {
            let g = trimmed@.skip(tl - 4);
            assert(trimmed@[tl - 4] == g[0] && trimmed@[tl - 3] == g[1] && trimmed@[tl - 2] == g[2]
                && trimmed@[tl - 1] == g[3]);
        }
        assert(has_git == ends_with(trimmed@, git_suffix()));
    }
    let stripped: &str = if has_git {
        trimmed.substring_char(0, tl - 4)
    } else {
        trimmed
    };
    proof {
        assert(stripped@ =~= normalize_spec(url@));
    }
    stripped.to_owned()
}

// --- The resolver -----------------------------------------------------------

/// What a normalized url resolves to under `base`, or `None` where neither
/// dialect yields a host. The standard-uri reading is attempted first and
/// is authoritative: where it accepts the string, the ssh grammar is never
/// consulted, and a standard uri without a usable host fails outright.
pub open spec fn resolve_spec(base: Seq<char>, u: Seq<char>) -> Option<Seq<char>> {
    if uri_accepted(u) {
        match uri_host(u) {
            Some(h) => if h.len() > 0 {
                Some(base + seq!['/'] + h + effective_path(uri_path(u)))
            } else {
                None
            },
            None => None,
        }
    } else {
        ssh_resolved_spec(base, u)
    }
}

/// Resolve a normalized url to a filesystem path under `base`.
pub fn resolve(base: &str, url: &str) -> (r: Result<String, UrlParseError>)
    ensures
        (r matches Ok(p) ==> resolve_spec(base@, url@) == Some(p@)),
        r is Err ==> resolve_spec(base@, url@) is None,
{
    match crate::https::split_standard_uri(url) {
        crate::https::UriSplit::HostPath(h, p) => crate::https::parse_url(
            h.as_str(),
            p.as_str(),
            base,
        ),
        crate::https::UriSplit::NoHost => Err(UrlParseError),
        crate::https::UriSplit::NotUri => crate::ssh::parse_url(url, base),
    }
}

/// Transform the url into the folder structure: normalize it, then resolve
/// it under `base`. This is the target folder of the git clone command.
pub fn to_filesystem_path(base: &str, url: &str) -> (r: Result<String, UrlParseError>)
    ensures
        (r matches Ok(p) ==> resolve_spec(base@, normalize_spec(url@)) == Some(p@)),
        r is Err ==> resolve_spec(base@, normalize_spec(url@)) is None,
{
    let n = normalize(url);
    resolve(base, n.as_str())
}

// --- Casing policy ----------------------------------------------------------

/// Whether the url's casing is kept. Folding to lower case gives uniform
/// directory names but silently changes them for mixed-case urls, so it is
/// never applied tacitly: `to_filesystem_path` preserves casing, and the
/// folding variant must be asked for by name.
#[derive(Debug, Clone, Copy, PartialEq, Eq, Structural)]
pub enum CasePolicy {
    Preserve,
    Lowercase,
}

/// What `str::to_lowercase` makes of a string.
pub uninterp spec fn lower_of(s: Seq<char>) -> Seq<char>;

/// Relies on str::to_lowercase: the result depends on the characters alone.
#[verifier::external_body]
fn lowercase(s: &str) -> (r: String)
    ensures
        r@ == lower_of(s@),
{
    s.to_lowercase()
}

/// The url as the policy hands it to the normalizer.
pub open spec fn policy_url(policy: CasePolicy, u: Seq<char>) -> Seq<char> {
    match policy {
        CasePolicy::Preserve => u,
        CasePolicy::Lowercase => lower_of(u),
    }
}

/// `to_filesystem_path` under an explicit casing policy.
pub fn to_filesystem_path_with(policy: CasePolicy, base: &str, url: &str) -> (r: Result<
    String,
    UrlParseError,
>)
    ensures
        (r matches Ok(p) ==> resolve_spec(base@, normalize_spec(policy_url(policy, url@)))
            == Some(p@)),
        r is Err ==> resolve_spec(base@, normalize_spec(policy_url(policy, url@))) is None,
{
    match policy {
        CasePolicy::Preserve => to_filesystem_path(base, url),
        CasePolicy::Lowercase => {
            let folded = lowercase(url);
            to_filesystem_path(base, folded.as_str())
        },
    }
}

// --- Laws -------------------------------------------------------------------

/// A url whose normal form neither ends in whitespace nor in a further
/// `.git` marker normalizes to a fixed point: normalizing again changes
/// nothing. (Stripping `.git` can uncover either — `x .git`, `x.git.git` —
/// and those inputs are the exception.)
pub proof fn lemma_normalize_idempotent(u: Seq<char>)
    requires
        !ends_with(normalize_spec(u), git_suffix()),
        normalize_spec(u).len() > 0 ==> !is_trim_space(normalize_spec(u).last()),
    ensures
        normalize_spec(normalize_spec(u)) == normalize_spec(u),
{
    let nrm = normalize_spec(u);
    let rl = run_len(u, trim_space_p());
    let t = u.skip(rl);
    let trimmed = trim_spec(u);
    lemma_run_len_bounds(u, trim_space_p());
    lemma_run_len_chars(u, trim_space_p());
    lemma_end_run_len_bounds(t, trim_space_p());
    lemma_end_run_len_chars(t, trim_space_p());
    if nrm.len() > 0 {
        assert(trimmed.len() > 0);
        assert(nrm[0] == trimmed[0]);
        assert(trimmed[0] == t[0]);
        assert(t.len() > 0);
        assert(t[0] == u[rl]);
        assert(!is_trim_space(nrm[0]));
    }
    lemma_run_len_is(nrm, trim_space_p(), 0);
    lemma_end_run_len_is(nrm, trim_space_p(), 0);
    assert(trim_spec(nrm) =~= nrm);
    assert(normalize_spec(nrm) == nrm);
}

/// A string the standard-uri parser accepts never falls through to the
/// ssh grammar, whatever else it resembles: the result is a function of
/// the uri's host and path alone.
pub proof fn lemma_dialect_precedence(base: Seq<char>, u: Seq<char>)
    ensures
        uri_accepted(u) ==> resolve_spec(base, u) == (match uri_host(u) {
            Some(h) => if h.len() > 0 {
                Some(base + seq!['/'] + h + effective_path(uri_path(u)))
            } else {
                None
            },
            None => None,
        }),
{
}

/// A remote of either dialect: a standard uri with a non-empty host, or a
/// string the ssh grammar parses.
pub open spec fn valid_remote(u: Seq<char>) -> bool {
    if uri_accepted(u) {
        match uri_host(u) {
            Some(h) => h.len() > 0,
            None => false,
        }
    } else {
        ssh_parse_spec(u) is Some
    }
}

pub open spec fn no_whitespace(u: Seq<char>) -> bool {
    forall|j: int| 0 <= j < u.len() ==> !is_space(u[j])
}

/// A whitespace-free url that is a syntactically valid remote of either
/// dialect always resolves, to a non-empty path that extends `base` with a
/// single `/`.
pub proof fn lemma_resolve_total(base: Seq<char>, u: Seq<char>)
    ensures
        no_whitespace(u) && valid_remote(u) ==> {
            &&& resolve_spec(base, u) is Some
            &&& resolve_spec(base, u)->Some_0.len() > 0
            &&& resolve_spec(base, u)->Some_0.len() > base.len()
            &&& starts_with(resolve_spec(base, u)->Some_0, base + seq!['/'])
        },
{
    if no_whitespace(u) && valid_remote(u) {
        let r = resolve_spec(base, u)->Some_0;
        if uri_accepted(u) {
            let h = uri_host(u)->Some_0;
            assert(r == base + seq!['/'] + h + effective_path(uri_path(u)));
            assert(r.take(base.len() as int + 1) =~= base + seq!['/']);
        } else {
            let hp = ssh_parse_spec(u)->Some_0;
            assert(r == base + seq!['/'] + hp.0 + seq!['/'] + hp.1);
            assert(r.take(base.len() as int + 1) =~= base + seq!['/']);
        }
    }
}

} // verus!
