use vstd::prelude::*;
use crate::remote::{ParsedRemote, UrlParseError};
use crate::text::{
    join_slash,
    host_char, host_p, is_host_char, is_space, lemma_run_len_is, non_at_p, non_space_p,
    run_len, space_char, starts_with,
};

verus! {

/// The explicit scheme prefix of the uri-like ssh form.
pub open spec fn ssh_scheme() -> Seq<char> {
    seq!['s', 's', 'h', ':', '/', '/']
}

/// Discard an optional user segment: everything up to and including the
/// first `@`, provided at least one character precedes it. Without such a
/// segment the host starts at the first character.
pub open spec fn strip_user(s: Seq<char>) -> Seq<char> {
    let k = run_len(s, non_at_p());
    if 1 <= k < s.len() {
        s.skip(k + 1)
    } else {
        s
    }
}

/// The grammar shared by the two ssh forms, after the optional scheme: an
/// optional `user@`, a non-empty host of characters other than `:`, `/` and
/// whitespace, exactly one separator, and a non-empty project running to
/// the first whitespace. Characters after the project are left alone.
pub open spec fn ssh_parts_spec(s: Seq<char>, sep: char) -> Option<(Seq<char>, Seq<char>)> {
    let t = strip_user(s);
    let hl = run_len(t, host_p());
    if hl < 1 {
        None
    } else if hl < t.len() && t[hl] == sep {
        let rest = t.skip(hl + 1);
        let pl = run_len(rest, non_space_p());
        if pl < 1 {
            None
        } else {
            Some((t.take(hl), rest.take(pl)))
        }
    } else {
        None
    }
}

/// An ssh-style url: with the `ssh://` scheme the host/path separator is
/// `/`; without it the scp form applies and the separator is `:`.
pub open spec fn ssh_parse_spec(u: Seq<char>) -> Option<(Seq<char>, Seq<char>)> {
    if starts_with(u, ssh_scheme()) {
        ssh_parts_spec(u.skip(6), '/')
    } else {
        ssh_parts_spec(u, ':')
    }
}

/// The path an ssh-style url resolves to: `base/host/project`.
pub open spec fn ssh_resolved_spec(base: Seq<char>, u: Seq<char>) -> Option<Seq<char>> {
    match ssh_parse_spec(u) {
        Some(hp) => Some(base + seq!['/'] + hp.0 + seq!['/'] + hp.1),
        None => None,
    }
}

/// Split `user@host(sep)project` into host and project.
pub fn parts(url: &str, separator: char) -> (r: Result<(String, String), UrlParseError>)
    ensures
        (r matches Ok(hp) ==> ssh_parts_spec(url@, separator) == Some((hp.0@, hp.1@))),
        r is Err ==> ssh_parts_spec(url@, separator) is None,
{
    let n = url.unicode_len();
    let mut k: usize = 0;
    while k < n && url.get_char(k) != '@'
        invariant
            k <= n,
            n == url@.len(),
            forall|j: int| 0 <= j < k ==> url@[j] != '@',
        decreases n - k,
    {
        k = k + 1;
    }
    proof {
        assert forall|j: int| 0 <= j < k implies non_at_p()(url@[j]) by {}
        lemma_run_len_is(url@, non_at_p(), k as int);
    }
    let user_end: usize = if 1 <= k && k < n {
        k + 1
    } else {
        0
    };
    let t = url.substring_char(user_end, n);
    proof {
        assert(t@ =~= strip_user(url@));
    }
    let tn = n - user_end;
    let mut h: usize = 0;
    while h < tn && host_char(t.get_char(h))
        invariant
            h <= tn,
            tn == t@.len(),
            forall|j: int| 0 <= j < h ==> is_host_char(t@[j]),
        decreases tn - h,
    {
        h = h + 1;
    }
    proof {
        assert forall|j: int| 0 <= j < h implies host_p()(t@[j]) by {}
        lemma_run_len_is(t@, host_p(), h as int);
    }
    if h == 0 {
        return Err(UrlParseError);
    }
    if h == tn {
        return Err(UrlParseError);
    }
    if t.get_char(h) != separator {
        return Err(UrlParseError);
    }
    let rest = t.substring_char(h + 1, tn);
    proof {
        assert(rest@ =~= t@.skip(h + 1));
    }
    let rn = tn - h - 1;
    let mut pl: usize = 0;
    while pl < rn && !space_char(rest.get_char(pl))
        invariant
            pl <= rn,
            rn == rest@.len(),
            forall|j: int| 0 <= j < pl ==> !is_space(rest@[j]),
        decreases rn - pl,
    {
        pl = pl + 1;
    }
    proof {
        assert forall|j: int| 0 <= j < pl implies non_space_p()(rest@[j]) by {}
        lemma_run_len_is(rest@, non_space_p(), pl as int);
    }
    if pl == 0 {
        return Err(UrlParseError);
    }
    let host = t.substring_char(0, h).to_owned();
    let project = rest.substring_char(0, pl).to_owned();
    proof {
        assert(host@ =~= t@.take(h as int));
        assert(project@ =~= rest@.take(pl as int));
    }
    Ok((host, project))
}

/// Parse an ssh-style url, either form, and resolve it against `base`.
pub fn parse_url(url: &str, base: &str) -> (r: Result<String, UrlParseError>)
    ensures
        (r matches Ok(p) ==> ssh_resolved_spec(base@, url@) == Some(p@)),
        r is Err ==> ssh_resolved_spec(base@, url@) is None,
{
    let n = url.unicode_len();
    let has_scheme = n >= 6 && url.get_char(0) == 's' && url.get_char(1) == 's' && url.get_char(2)
        == 'h' && url.get_char(3) == ':' && url.get_char(4) == '/' && url.get_char(5) == '/';
    proof {
        if has_scheme {
            assert(url@.take(6) =~= ssh_scheme());
        } else if starts_with(url@, ssh_scheme()) {
            assert(url@[0] == url@.take(6)[0] && url@[1] == url@.take(6)[1] && url@[2]
                == url@.take(6)[2] && url@[3] == url@.take(6)[3] && url@[4] == url@.take(6)[4]
                && url@[5] == url@.take(6)[5]);
        }
        assert(has_scheme == starts_with(url@, ssh_scheme()));
    }
    let hp = if has_scheme {
        let tail = url.substring_char(6, n);
        proof {
            assert(tail@ =~= url@.skip(6));
        }
        match parts(tail, '/') {
            Ok(hp) => hp,
            Err(e) => {
                return Err(e);
            },
        }
    } else {
        match parts(url, ':') {
            Ok(hp) => hp,
            Err(e) => {
                return Err(e);
            },
        }
    };
    let (host, project) = hp;
    let ghost host_view = host@;
    let ghost project_view = project@;
    // The leading empty segment renders the slash after the host, as the
    // leading empty segment of a standard uri path does.
    let mut segments: Vec<String> = Vec::new();
    segments.push(String::new());
    segments.push(project);
    let pr = ParsedRemote { host, path_segments: segments };
    let out = pr.resolved(base);
    proof {
        let dv = pr.path_segments.deep_view();
        assert(dv =~= seq![Seq::<char>::empty(), project_view]);
        assert(dv.drop_last() =~= seq![Seq::<char>::empty()]);
        assert(join_slash(dv) == join_slash(dv.drop_last()) + seq!['/'] + dv.last());
        assert(join_slash(dv.drop_last()) == Seq::<char>::empty());
        assert(out@ =~= base@ + seq!['/'] + host_view + seq!['/'] + project_view);
    }
    Ok(out)
}

} // verus!
