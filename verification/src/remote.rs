use vstd::prelude::*;
use crate::text::join_slash;

verus! {

/// The input matched neither URL dialect well enough to extract a host.
#[derive(Debug, Clone, Copy, PartialEq, Eq, Structural)]
pub struct UrlParseError;

/// A remote repository location: the host and the path segments that
/// followed it, in the order they appeared. Degenerate input may produce
/// empty segments; they are kept as they came.
pub struct ParsedRemote {
    pub host: String,
    pub path_segments: Vec<String>,
}

impl ParsedRemote {
    /// A remote always names its host.
    pub open spec fn well_formed(self) -> bool {
        self.host@.len() > 0
    }

    /// The filesystem path this remote resolves to under `base`.
    pub open spec fn resolved_spec(self, base: Seq<char>) -> Seq<char> {
        base + seq!['/'] + self.host@ + join_slash(self.path_segments.deep_view())
    }

    /// Join the caller's base directory, the host and the path segments,
    /// with `/` between base and host and between neighbouring segments.
    pub fn resolved(&self, base: &str) -> (r: String)
        requires
            self.well_formed(),
        ensures
            r@ == self.resolved_spec(base@),
    {
        let ghost dv = self.path_segments.deep_view();
        let mut out = base.to_owned();
        out.append("/");
        proof {
            reveal_strlit("/");
            assert(out@ =~= base@ + seq!['/']);
        }
        out.append(self.host.as_str());
        let n = self.path_segments.len();
        if n == 0 {
            proof {
                assert(out@ =~= self.resolved_spec(base@));
            }
            return out;
        }
        out.append(self.path_segments[0].as_str());
        proof {
            assert(dv.take(1) =~= seq![dv[0]]);
            assert(dv[0] == self.path_segments@[0]@);
            assert(out@ =~= base@ + seq!['/'] + self.host@ + join_slash(dv.take(1)));
        }
        let mut k: usize = 1;
        while k < n
            invariant
                1 <= k <= n,
                n == self.path_segments.len(),
                dv == self.path_segments.deep_view(),
                out@ == base@ + seq!['/'] + self.host@ + join_slash(dv.take(k as int)),
            decreases n - k,
        {
            out.append("/");
            out.append(self.path_segments[k].as_str());
            proof {
                reveal_strlit("/");
                let t = dv.take(k + 1 as int);
                assert(t.drop_last() =~= dv.take(k as int));
                assert(t.last() == self.path_segments@[k as int]@);
                assert(out@ =~= base@ + seq!['/'] + self.host@ + join_slash(t));
            }
            k = k + 1;
        }
        proof {
            assert(dv.take(n as int) =~= dv);
        }
        out
    }
}

} // verus!
