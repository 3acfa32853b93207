use vstd::prelude::*;
use crate::remote::{ParsedRemote, UrlParseError};
use crate::text::{lemma_join_split, split_slash};

verus! {

/// Whether `url::Url::parse` accepts the string as an absolute uri.
pub uninterp spec fn uri_accepted(s: Seq<char>) -> bool;

/// The host part that `url::Url::host_str` reports for an accepted uri,
/// `None` where the uri has no host.
pub uninterp spec fn uri_host(s: Seq<char>) -> Option<Seq<char>>;

/// The path part that `url::Url::path` reports for an accepted uri.
pub uninterp spec fn uri_path(s: Seq<char>) -> Seq<char>;

/// What the standard-uri parser made of a string.
pub enum UriSplit {
    /// Not an absolute uri.
    NotUri,
    /// An absolute uri without a host.
    NoHost,
    /// An absolute uri with its host and path parts.
    HostPath(String, String),
}

/// Relies on url::Url::parse, url::Url::host_str and url::Url::path: which
/// strings parse as absolute uris, and the host and path parts of one that
/// does, depend on the input characters alone.
#[verifier::external_body]
pub(crate) fn split_standard_uri(s: &str) -> (r: UriSplit)
    ensures
        (r is NotUri) == !uri_accepted(s@),
        (r is NoHost) == (uri_accepted(s@) && uri_host(s@) is None),
        (r matches UriSplit::HostPath(h, p) ==> uri_accepted(s@) && uri_host(s@) == Some(h@)
            && uri_path(s@) == p@),
{
    match url::Url::parse(s) {
        Err(_) => UriSplit::NotUri,
        Ok(u) => match u.host_str() {
            None => UriSplit::NoHost,
            Some(h) => UriSplit::HostPath(h.to_string(), u.path().to_string()),
        },
    }
}

/// The path part as it joins into the filesystem path. The url crate
/// reports the empty path of a host-only uri as a bare `/`; rendered, that
/// would leave a trailing slash after the host, so it counts as empty.
pub open spec fn effective_path(p: Seq<char>) -> Seq<char> {
    if p == seq!['/'] {
        Seq::<char>::empty()
    } else {
        p
    }
}

/// The segments of `s` between `/` separators, in order, empty ones kept.
fn split_path(s: &str) -> (r: Vec<String>)
    ensures
        r.deep_view() == split_slash(s@),
{
    let n = s.unicode_len();
    let mut segs: Vec<String> = Vec::new();
    let mut start: usize = 0;
    let mut k: usize = 0;
    proof {
        assert(segs.deep_view().push(s@.subrange(0, 0)) =~~= split_slash(s@.take(0)));
    }
    while k < n
        invariant
            start <= k <= n,
            n == s@.len(),
            segs.deep_view().push(s@.subrange(start as int, k as int)) == split_slash(
                s@.take(k as int),
            ),
        decreases n - k,
    {
        let ghost old_segs = segs.deep_view();
        let ghost cur = s@.subrange(start as int, k as int);
        if s.get_char(k) == '/' {
            segs.push(s.substring_char(start, k).to_owned());
            start = k + 1;
            proof {
                assert(s@.take(k + 1 as int).drop_last() =~= s@.take(k as int));
                assert(split_slash(s@.take(k + 1 as int)) == split_slash(s@.take(k as int)).push(
                    Seq::<char>::empty(),
                ));
                assert(segs.deep_view() =~~= old_segs.push(cur));
                assert(segs.deep_view().push(s@.subrange(k + 1 as int, k + 1 as int)) =~~=
                    split_slash(s@.take(k + 1 as int)));
            }
        } else {
            proof {
                let r = split_slash(s@.take(k as int));
                assert(s@.take(k + 1 as int).drop_last() =~= s@.take(k as int));
                assert(s@.take(k + 1 as int).last() == s@[k as int]);
                assert(split_slash(s@.take(k + 1 as int)) == r.update(
                    r.len() - 1,
                    r.last().push(s@[k as int]),
                ));
                assert(r.last() == cur);
                assert(cur.push(s@[k as int]) =~= s@.subrange(start as int, k + 1 as int));
                assert(r.update(r.len() - 1, cur.push(s@[k as int])) =~~= old_segs.push(
                    s@.subrange(start as int, k + 1 as int),
                ));
            }
        }
        k = k + 1;
    }
    segs.push(s.substring_char(start, n).to_owned());
    proof {
        assert(s@.take(n as int) =~= s@);
        assert(segs.deep_view() =~~= split_slash(s@));
    }
    segs
}

/// Resolve an accepted standard uri from its host and path parts: the host
/// must be present and non-empty, and the path's segments join on after it.
pub fn parse_url(host: &str, path: &str, base: &str) -> (r: Result<String, UrlParseError>)
    ensures
        host@.len() > 0 ==> (r matches Ok(p) && p@ == base@ + seq!['/'] + host@ + effective_path(
            path@,
        )),
        host@.len() == 0 ==> r is Err,
{
    if host.unicode_len() == 0 {
        return Err(UrlParseError);
    }
    let pn = path.unicode_len();
    let eff: &str = if pn == 1 && path.get_char(0) == '/' {
        ""
    } else {
        path
    };
    proof {
        reveal_strlit("");
        if pn == 1 && path@[0] == '/' {
            assert(path@ =~= seq!['/']);
        } else if path@ == seq!['/'] {
            assert(path@[0] == '/' && path@.len() == 1);
        }
        assert(eff@ == effective_path(path@));
    }
    let segments = split_path(eff);
    let pr = ParsedRemote { host: host.to_owned(), path_segments: segments };
    let out = pr.resolved(base);
    proof {
        lemma_join_split(eff@);
        assert(out@ =~= base@ + seq!['/'] + host@ + effective_path(path@));
    }
    Ok(out)
}

} // verus!
