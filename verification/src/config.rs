use vstd::prelude::*;
use vstd::string::StrSliceExecFns;
use crate::error::ConfigError;
use crate::parse::string_views;
use crate::resolve::names_contain;

verus! {

/// The comma-separated segments of `s` from `start`, scanning at `cur`:
/// every `','` ends a segment, empty segments included.
pub open spec fn split_from(s: Seq<char>, start: int, cur: int) -> Seq<Seq<char>>
    decreases s.len() - cur,
{
    if !(0 <= start <= cur <= s.len()) {
        Seq::empty()
    } else if cur == s.len() {
        seq![s.subrange(start, s.len() as int)]
    } else if s[cur] == ',' {
        seq![s.subrange(start, cur)] + split_from(s, cur + 1, cur + 1)
    } else {
        split_from(s, start, cur + 1)
    }
}

/// The comma-separated segments of a whole string; an empty string is one
/// empty segment, as splitting has it.
pub open spec fn split_commas(s: Seq<char>) -> Seq<Seq<char>> {
    split_from(s, 0, 0)
}

/// The segments with later repetitions of an already-seen segment dropped:
/// the set semantics of the configured name list, with one order fixed.
pub open spec fn dedup_first(segs: Seq<Seq<char>>) -> Seq<Seq<char>>
    decreases segs.len(),
{
    if segs.len() == 0 {
        Seq::empty()
    } else {
        let prev = dedup_first(segs.drop_last());
        if prev.contains(segs.last()) {
            prev
        } else {
            prev.push(segs.last())
        }
    }
}

pub open spec fn distinct_seqs(ss: Seq<Seq<char>>) -> bool {
    forall|i: int, j: int| 0 <= i < j < ss.len() ==> ss[i] != ss[j]
}

/// Law: dropping later repetitions leaves no segment twice.
pub proof fn lemma_dedup_distinct(segs: Seq<Seq<char>>)
    ensures
        distinct_seqs(dedup_first(segs)),
    decreases segs.len(),
{
    if segs.len() > 0 {
        lemma_dedup_distinct(segs.drop_last());
        let prev = dedup_first(segs.drop_last());
        if !prev.contains(segs.last()) {
            assert forall|i: int, j: int|
                0 <= i < j < prev.push(segs.last()).len() implies prev.push(segs.last())[i]
                != prev.push(segs.last())[j] by {
                if j == prev.len() {
                    assert(prev[i] == prev.push(segs.last())[i]);
                    assert(prev.contains(prev[i]));
                }
            }
        }
    }
}

/// Law: dropping later repetitions changes no membership; the configured
/// names are a set, and splitting then collapsing keeps exactly the
/// segments that were written.
pub proof fn lemma_dedup_same_elements(segs: Seq<Seq<char>>)
    ensures
        forall|x: Seq<char>| #[trigger] dedup_first(segs).contains(x) <==> segs.contains(x),
    decreases segs.len(),
{
    if segs.len() > 0 {
        lemma_dedup_same_elements(segs.drop_last());
        let prev = dedup_first(segs.drop_last());
        assert forall|x: Seq<char>| #[trigger] dedup_first(segs).contains(x) <==> segs.contains(
            x,
        ) by {
            if dedup_first(segs).contains(x) {
                if prev.contains(x) {
                    let i = choose|i: int|
                        0 <= i < segs.drop_last().len() && segs.drop_last()[i] == x;
                    assert(segs[i] == x);
                } else {
                    assert(x == segs.last());
                    assert(segs[segs.len() - 1] == x);
                }
            }
            if segs.contains(x) {
                let i = choose|i: int| 0 <= i < segs.len() && segs[i] == x;
                if i < segs.len() - 1 {
                    assert(segs.drop_last()[i] == x);
                    assert(prev.contains(x));
                    let j = choose|j: int| 0 <= j < prev.len() && prev[j] == x;
                    assert(dedup_first(segs)[j] == x);
                } else {
                    if prev.contains(x) {
                        let j = choose|j: int| 0 <= j < prev.len() && prev[j] == x;
                        assert(dedup_first(segs)[j] == x);
                    } else {
                        assert(dedup_first(segs).last() == x);
                    }
                }
            }
        }
    }
}

/// What a run is configured with: the credentials and host for the remote
/// system, and the project names to export, each name held once.
#[derive(Debug)]
pub struct Config {
    pub api_token: String,
    pub host_name: String,
    pub project_names: Vec<String>,
}

impl Config {
    pub open spec fn wf(&self) -> bool {
        distinct_seqs(string_views(self.project_names@))
    }

    /// Splits the configured name list on commas and collapses duplicate
    /// names, keeping each name's first occurrence.
    pub fn parse_project_names(project_names_string: String) -> (r: Vec<String>)
        ensures
            string_views(r@) == dedup_first(split_commas(project_names_string@)),
            distinct_seqs(string_views(r@)),
    {
        let s = project_names_string;
        let slen = s.as_str().unicode_len();
        let mut segs: Vec<String> = Vec::new();
        let mut start: usize = 0;
        let mut i: usize = 0;
        #[verifier::loop_isolation(false)]
        while i < slen
            invariant
                slen == s@.len(),
                0 <= start <= i <= slen,
                split_commas(s@) == string_views(segs@) + split_from(s@, start as int, i as int),
            decreases slen - i,
        {
            let c = s.as_str().get_char(i);
            if c == ',' {
                let seg = s.as_str().substring_char(start, i).to_owned();
                let ghost segs_before = segs@;
                segs.push(seg);
                proof {
                    assert(string_views(segs@) =~= string_views(segs_before).push(
                        s@.subrange(start as int, i as int),
                    ));
                    assert(string_views(segs_before) + (seq![s@.subrange(start as int, i as int)]
                        + split_from(s@, i + 1, i + 1)) =~= string_views(segs@) + split_from(
                        s@,
                        i + 1,
                        i + 1,
                    ));
                }
                start = i + 1;
            }
            i += 1;
        }
        let seg = s.as_str().substring_char(start, slen).to_owned();
        let ghost segs_before = segs@;
        segs.push(seg);
        proof {
            assert(string_views(segs@) =~= string_views(segs_before).push(
                s@.subrange(start as int, slen as int),
            ));
            assert(string_views(segs_before) + seq![s@.subrange(start as int, slen as int)]
                =~= string_views(segs@));
            assert(split_commas(s@) =~= string_views(segs@));
        }
        let ghost all_segs = string_views(segs@);
        let mut rest = segs;
        let mut out: Vec<String> = Vec::new();
        let ghost mut done = Seq::<Seq<char>>::empty();
        #[verifier::loop_isolation(false)]
        while rest.len() > 0
            invariant
                all_segs == done + string_views(rest@),
                string_views(out@) == dedup_first(done),
            decreases rest.len(),
        {
            let ghost rest_before = rest@;
            let x = rest.remove(0);
            proof {
                assert(string_views(rest_before).drop_first() =~= string_views(rest@));
                assert(string_views(rest_before)[0] == x@);
            }
            let is_dup = names_contain(&out, x.as_str());
            let ghost out_before = out@;
            let ghost done_next = done.push(x@);
            proof {
                assert(done_next.drop_last() =~= done);
                assert(done_next.last() == x@);
            }
            if !is_dup {
                out.push(x);
                proof {
                    assert(string_views(out@) =~= string_views(out_before).push(x@));
                }
            }
            proof {
                done = done_next;
                assert(all_segs =~= done + string_views(rest@));
            }
        }
        proof {
            assert(string_views(rest@) =~= Seq::<Seq<char>>::empty());
            assert(done =~= all_segs);
            lemma_dedup_distinct(all_segs);
        }
        out
    }

    /// One configuration input: the environment's value wins; otherwise
    /// the last remaining positional argument is taken.
    fn get_arg(args: &mut Vec<String>, env_val: Option<String>) -> (r: Option<String>)
        ensures
            r == taken(env_val, old(args)@),
            final(args)@ == rest_args(env_val, old(args)@),
    {
        match env_val {
            Some(s) => Some(s),
            None => args.pop(),
        }
    }

    /// Builds the configuration from the positional arguments and the
    /// three environment inputs, the environment taking precedence. The
    /// name list is taken first, then the host, then the token, each
    /// consuming one positional argument when its environment input is
    /// absent; the first missing input aborts with its own error, before
    /// any network activity.
    pub fn build(
        args: &mut Vec<String>,
        env_project_names: Option<String>,
        env_host_name: Option<String>,
        env_api_token: Option<String>,
    ) -> (r: Result<Config, ConfigError>)
        ensures
            ({
                let pn = taken(env_project_names, old(args)@);
                let a1 = rest_args(env_project_names, old(args)@);
                let hn = taken(env_host_name, a1);
                let a2 = rest_args(env_host_name, a1);
                let tk = taken(env_api_token, a2);
                let a3 = rest_args(env_api_token, a2);
                &&& (pn is None ==> r == Result::<Config, ConfigError>::Err(
                    ConfigError::MissingProjectNames,
                ) && final(args)@ == a1)
                &&& (pn is Some && hn is None ==> r == Result::<Config, ConfigError>::Err(
                    ConfigError::MissingHostName,
                ) && final(args)@ == a2)
                &&& (pn is Some && hn is Some && tk is None ==> r == Result::<
                    Config,
                    ConfigError,
                >::Err(ConfigError::MissingApiToken) && final(args)@ == a3)
                &&& (pn is Some && hn is Some && tk is Some ==> final(args)@ == a3 && (
                r matches Ok(c) ==> c.api_token == tk->0 && c.host_name == hn->0
                    && string_views(c.project_names@) == dedup_first(split_commas(pn->0@))
                    && c.wf()) && r is Ok)
            }),
    {
        let pn = match Self::get_arg(args, env_project_names) {
            Some(s) => s,
            None => {
                return Err(ConfigError::MissingProjectNames);
            },
        };
        let hn = match Self::get_arg(args, env_host_name) {
            Some(s) => s,
            None => {
                return Err(ConfigError::MissingHostName);
            },
        };
        let tk = match Self::get_arg(args, env_api_token) {
            Some(s) => s,
            None => {
                return Err(ConfigError::MissingApiToken);
            },
        };
        let project_names = Self::parse_project_names(pn);
        Ok(Config { api_token: tk, host_name: hn, project_names })
    }
}

/// The value one configuration input takes: the environment's, or else the
/// last positional argument.
pub open spec fn taken(env_val: Option<String>, args: Seq<String>) -> Option<String> {
    match env_val {
        Some(s) => Some(s),
        None => if args.len() > 0 {
            Some(args.last())
        } else {
            None
        },
    }
}

/// The positional arguments left after one input was taken.
pub open spec fn rest_args(env_val: Option<String>, args: Seq<String>) -> Seq<String> {
    match env_val {
        Some(_) => args,
        None => if args.len() > 0 {
            args.drop_last()
        } else {
            args
        },
    }
}

} // verus!
