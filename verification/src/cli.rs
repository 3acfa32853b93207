use vstd::prelude::*;
use crate::text::str_eq;

verus! {

// --- Recognized clone options -----------------------------------------------

/// A flag of the underlying clone command that is forwarded verbatim.
pub open spec fn is_clone_flag(a: Seq<char>) -> bool {
    ||| a == "-l"@
    ||| a == "--local"@
    ||| a == "--no-hardlinks"@
    ||| a == "-s"@
    ||| a == "--shared"@
    ||| a == "--dissociate"@
    ||| a == "-q"@
    ||| a == "--quiet"@
    ||| a == "-v"@
    ||| a == "--verbose"@
    ||| a == "--progress"@
    ||| a == "-n"@
    ||| a == "--no-checkout"@
    ||| a == "--bare"@
    ||| a == "--sparse"@
    ||| a == "--mirror"@
    ||| a == "--single-branch"@
    ||| a == "--no-single-branch"@
    ||| a == "--no-tags"@
    ||| a == "--shallow-submodules"@
    ||| a == "--no-shallow-submodules"@
    ||| a == "--remote-submodules"@
    ||| a == "--no-remote-submodules"@
}

/// A clone option that is forwarded verbatim together with the value that
/// follows it.
pub open spec fn is_clone_value_flag(a: Seq<char>) -> bool {
    ||| a == "--template"@
    ||| a == "-o"@
    ||| a == "--origin"@
    ||| a == "-b"@
    ||| a == "--branch"@
    ||| a == "-u"@
    ||| a == "--upload-pack"@
    ||| a == "--reference"@
    ||| a == "--reference-if-able"@
    ||| a == "--separate-git-dir"@
    ||| a == "--depth"@
    ||| a == "--recurse-submodules"@
    ||| a == "--filter"@
    ||| a == "--server-option"@
    ||| a == "-c"@
    ||| a == "--config"@
    ||| a == "--shallow-since"@
    ||| a == "--shallow-exclude"@
    ||| a == "-j"@
    ||| a == "--jobs"@
}

fn clone_flag(a: &str) -> (r: bool)
    ensures
        r == is_clone_flag(a@),
{
    str_eq(a, "-l") || str_eq(a, "--local") || str_eq(a, "--no-hardlinks") || str_eq(a, "-s")
        || str_eq(a, "--shared") || str_eq(a, "--dissociate") || str_eq(a, "-q") || str_eq(
        a,
        "--quiet",
    ) || str_eq(a, "-v") || str_eq(a, "--verbose") || str_eq(a, "--progress") || str_eq(a, "-n")
        || str_eq(a, "--no-checkout") || str_eq(a, "--bare") || str_eq(a, "--sparse") || str_eq(
        a,
        "--mirror",
    ) || str_eq(a, "--single-branch") || str_eq(a, "--no-single-branch") || str_eq(a, "--no-tags")
        || str_eq(a, "--shallow-submodules") || str_eq(a, "--no-shallow-submodules") || str_eq(
        a,
        "--remote-submodules",
    ) || str_eq(a, "--no-remote-submodules")
}

fn clone_value_flag(a: &str) -> (r: bool)
    ensures
        r == is_clone_value_flag(a@),
{
    str_eq(a, "--template") || str_eq(a, "-o") || str_eq(a, "--origin") || str_eq(a, "-b")
        || str_eq(a, "--branch") || str_eq(a, "-u") || str_eq(a, "--upload-pack") || str_eq(
        a,
        "--reference",
    ) || str_eq(a, "--reference-if-able") || str_eq(a, "--separate-git-dir") || str_eq(
        a,
        "--depth",
    ) || str_eq(a, "--recurse-submodules") || str_eq(a, "--filter") || str_eq(a, "--server-option")
        || str_eq(a, "-c") || str_eq(a, "--config") || str_eq(a, "--shallow-since") || str_eq(
        a,
        "--shallow-exclude",
    ) || str_eq(a, "-j") || str_eq(a, "--jobs")
}

// --- The classification state machine ---------------------------------------

/// Why classification rejected the command line.
pub ghost enum ArgFault {
    /// A flag the clone command does not take.
    Unsupported(Seq<char>),
    /// A positional argument beyond the url.
    Excess(Seq<char>),
}

/// The classifier's state after some prefix of the command line.
pub ghost struct ArgState {
    /// The next argument is the value of a forwarded option.
    pub pending_git: bool,
    /// The next argument is the base-directory override.
    pub pending_base: bool,
    /// Arguments forwarded to the clone command, in order.
    pub git_args: Seq<Seq<char>>,
    /// The positional repository url, once seen.
    pub url: Option<Seq<char>>,
    /// The value of `--prefix`, once seen.
    pub base: Option<Seq<char>>,
    /// The first rejection, if any; later arguments change nothing.
    pub fault: Option<ArgFault>,
}

pub open spec fn init_state() -> ArgState {
    ArgState {
        pending_git: false,
        pending_base: false,
        git_args: Seq::<Seq<char>>::empty(),
        url: None,
        base: None,
        fault: None,
    }
}

/// One argument, classified: values owed to a preceding option come first,
/// then the base override, the recognized clone options, the rejection of
/// other flags, the single positional url, and the rejection of any excess.
pub open spec fn step(st: ArgState, a: Seq<char>) -> ArgState {
    if st.fault is Some {
        st
    } else if st.pending_git {
        ArgState { pending_git: false, git_args: st.git_args.push(a), ..st }
    } else if st.pending_base {
        ArgState { pending_base: false, base: Some(a), ..st }
    } else if a == "--prefix"@ {
        ArgState { pending_base: true, ..st }
    } else if is_clone_flag(a) {
        ArgState { git_args: st.git_args.push(a), ..st }
    } else if is_clone_value_flag(a) {
        ArgState { pending_git: true, git_args: st.git_args.push(a), ..st }
    } else if a.len() > 0 && a[0] == '-' {
        ArgState { fault: Some(ArgFault::Unsupported(a)), ..st }
    } else if st.url is None {
        ArgState { url: Some(a), ..st }
    } else {
        ArgState { fault: Some(ArgFault::Excess(a)), ..st }
    }
}

/// The whole command line, classified left to right.
pub open spec fn classified(args: Seq<Seq<char>>) -> ArgState
    decreases args.len(),
{
    if args.len() == 0 {
        init_state()
    } else {
        step(classified(args.drop_last()), args.last())
    }
}

/// Once an argument is rejected, the rest of the line changes nothing.
proof fn lemma_fault_sticky(args: Seq<Seq<char>>, k: int)
    requires
        0 <= k <= args.len(),
        classified(args.take(k)).fault is Some,
    ensures
        classified(args).fault == classified(args.take(k)).fault,
    decreases args.len() - k,
{
    if k < args.len() {
        assert(args.take(k + 1).drop_last() =~= args.take(k));
        assert(args.take(k + 1).last() == args[k]);
        lemma_fault_sticky(args, k + 1);
    } else {
        assert(args.take(k) =~= args);
    }
}

// --- The classifier ----------------------------------------------------------

/// A clone invocation, classified: the options forwarded to the clone
/// command, the repository url if one was given, and the base-directory
/// override if one was given.
pub struct CloneRequest {
    pub git_args: Vec<String>,
    pub url: Option<String>,
    pub base: Option<String>,
}

impl CloneRequest {
    /// The full argument list handed to the clone command: the forwarded
    /// options in order, then the url, then the destination directory.
    pub fn clone_args(self, url: String, directory: String) -> (r: Vec<String>)
        ensures
            r.deep_view() == self.git_args.deep_view().push(url@).push(directory@),
    {
        let ghost dv = self.git_args.deep_view();
        let ghost u = url@;
        let ghost d = directory@;
        let mut out = self.git_args;
        out.push(url);
        out.push(directory);
        proof {
            assert(out.deep_view() =~~= dv.push(u).push(d));
        }
        out
    }
}

/// A rejected command line.
#[derive(Debug)]
pub enum ArgError {
    /// A flag the clone command does not take.
    Unsupported(String),
    /// A positional argument beyond the url.
    ExcessArgument(String),
}

/// Configuration of a clone invocation, read off the command line.
pub struct GitConfig;

impl GitConfig {
    /// Classify the command-line arguments (program name excluded).
    pub fn classify_args(args: &Vec<String>) -> (r: Result<CloneRequest, ArgError>)
        ensures
            ({
                let st = classified(args.deep_view());
                match r {
                    Ok(req) => {
                        &&& st.fault is None
                        &&& req.git_args.deep_view() == st.git_args
                        &&& req.url.deep_view() == st.url
                        &&& req.base.deep_view() == st.base
                    },
                    Err(e) => {
                        &&& st.fault is Some
                        &&& (match e {
                            ArgError::Unsupported(a) => st.fault == Some(
                                ArgFault::Unsupported(a@),
                            ),
                            ArgError::ExcessArgument(a) => st.fault == Some(ArgFault::Excess(a@)),
                        })
                    },
                }
            }),
    {
        let ghost dv = args.deep_view();
        let n = args.len();
        let mut git_args: Vec<String> = Vec::new();
        let mut url: Option<String> = None;
        let mut base: Option<String> = None;
        let mut pending_git = false;
        let mut pending_base = false;
        let mut k: usize = 0;
        proof {
            assert(dv.take(0) =~= Seq::<Seq<char>>::empty());
        }
        while k < n
            invariant
                k <= n,
                n == args.len(),
                dv == args.deep_view(),
                ({
                    let st = classified(dv.take(k as int));
                    &&& st.fault is None
                    &&& st.pending_git == pending_git
                    &&& st.pending_base == pending_base
                    &&& st.git_args == git_args.deep_view()
                    &&& st.url == url.deep_view()
                    &&& st.base == base.deep_view()
                }),
            decreases n - k,
        {
            proof {
                assert(dv.take(k + 1 as int).drop_last() =~= dv.take(k as int));
                assert(dv.take(k + 1 as int).last() == dv[k as int]);
                assert(dv[k as int] == args@[k as int]@);
            }
            let ghost st = classified(dv.take(k as int));
            let a = &args[k];
            if pending_git {
                git_args.push(a.clone());
                pending_git = false;
                proof {
                    assert(git_args.deep_view() =~= st.git_args.push(a@));
                }
            } else if pending_base {
                base = Some(a.clone());
                pending_base = false;
            } else if str_eq(a.as_str(), "--prefix") {
                pending_base = true;
            } else if clone_flag(a.as_str()) {
                git_args.push(a.clone());
                proof {
                    assert(git_args.deep_view() =~= st.git_args.push(a@));
                }
            } else if clone_value_flag(a.as_str()) {
                git_args.push(a.clone());
                pending_git = true;
                proof {
                    assert(git_args.deep_view() =~= st.git_args.push(a@));
                }
            } else if a.unicode_len() > 0 && a.as_str().get_char(0) == '-' {
                proof {
                    lemma_fault_sticky(dv, k + 1);
                }
                return Err(ArgError::Unsupported(a.clone()));
            } else if url.is_none() {
                url = Some(a.clone());
            } else {
                proof {
                    lemma_fault_sticky(dv, k + 1);
                }
                return Err(ArgError::ExcessArgument(a.clone()));
            }
            k = k + 1;
        }
        proof {
            assert(dv.take(n as int) =~= dv);
        }
        Ok(CloneRequest { git_args, url, base })
    }
}

} // verus!
