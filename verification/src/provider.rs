//! Rule-provider handling: which entries of the `rule-providers` mapping are
//! fetched, where each downloaded body is saved, and how a failed fetch is
//! reported. Fetching itself is network work done by the caller; every
//! decision about it is made here.

use vstd::prelude::*;
use crate::error::{ClashError, ClashErrorKind};
use crate::yaml::{Entry, Node, NodeV, DictV, has_key, lookup, uniq_keys, view_entries, lemma_view_entries, dict_get};

verus! {

/// Directory under which every downloaded rule file is materialized.
pub open spec fn providers_root() -> Seq<char> {
    "/root/.config/clash/"@
}

/// One leading "./" is stripped from a provider path before it is resolved.
pub open spec fn strip_dot_slash(p: Seq<char>) -> Seq<char> {
    if p.len() >= 2 && p[0] == '.' && p[1] == '/' {
        p.skip(2)
    } else {
        p
    }
}

/// Where a provider path is saved: under the fixed providers root, with one
/// leading "./" stripped first.
pub open spec fn resolved_path(p: Seq<char>) -> Seq<char> {
    providers_root() + strip_dot_slash(p)
}

/// Resolve a provider path to the absolute location its body is saved at.
pub fn resolve_provider_path(path: &str) -> (r: String)
    ensures
        r@ == resolved_path(path@),
{
    let n = path.unicode_len();
    let mut out = String::from_str("/root/.config/clash/");
    if n >= 2 && path.get_char(0) == '.' && path.get_char(1) == '/' {
        let rest = path.substring_char(2, n);
        proof {
            assert(rest@ =~= path@.skip(2));
        }
        out.append(rest);
    } else {
        out.append(path);
    }
    out
}

/// A provider entry is acceptable when it is not a mapping at all (it is then
/// skipped), or is a mapping with distinct keys whose `url` and `path` fields,
/// where both are present, are strings.
pub open spec fn provider_entry_ok(v: NodeV) -> bool {
    match v {
        NodeV::Dict(fs) => uniq_keys(fs) && ((has_key(fs, "url"@) && has_key(fs, "path"@)) ==> (
        lookup(fs, "url"@) is Str && lookup(fs, "path"@) is Str)),
        _ => true,
    }
}

/// Every entry of the `rule-providers` mapping is acceptable.
pub open spec fn providers_wf(ps: DictV) -> bool {
    forall|i: int| 0 <= i < ps.len() ==> provider_entry_ok((#[trigger] ps[i]).1)
}

/// The (url, path) pair an entry asks to download, if it asks at all: an
/// entry missing either field is skipped, not an error.
pub open spec fn entry_job(v: NodeV) -> Option<(Seq<char>, Seq<char>)> {
    match v {
        NodeV::Dict(fs) => if has_key(fs, "url"@) && has_key(fs, "path"@) {
            match (lookup(fs, "url"@), lookup(fs, "path"@)) {
                (NodeV::Str(u), NodeV::Str(p)) => Some((u, p)),
                _ => None,
            }
        } else {
            None
        },
        _ => None,
    }
}

/// The (url, path) pairs the mapping asks to download, in entry order.
pub open spec fn jobs_of(ps: DictV) -> Seq<(Seq<char>, Seq<char>)>
    decreases ps.len(),
{
    if ps.len() == 0 {
        Seq::empty()
    } else {
        jobs_of(ps.drop_last()) + match entry_job(ps.last().1) {
            Some(j) => seq![j],
            None => Seq::<(Seq<char>, Seq<char>)>::empty(),
        }
    }
}

/// The same pairs with each path resolved under the providers root.
pub open spec fn resolved_jobs(js: Seq<(Seq<char>, Seq<char>)>) -> Seq<(Seq<char>, Seq<char>)> {
    js.map_values(|j: (Seq<char>, Seq<char>)| (j.0, resolved_path(j.1)))
}

/// A fetch the caller is to perform: the url to get and the absolute path to
/// save the body at.
#[derive(Debug, PartialEq, Eq)]
pub struct ProviderJob {
    pub url: String,
    pub save_path: String,
}

/// The (url, save path) pairs a job list stands for.
pub open spec fn jobs_view(js: Seq<ProviderJob>) -> Seq<(Seq<char>, Seq<char>)> {
    js.map_values(|j: ProviderJob| (j.url@, j.save_path@))
}

/// Collect the download jobs of a `rule-providers` mapping: one per entry
/// that names both a url and a path, in entry order, paths resolved.
pub fn collect_jobs(ps: &Vec<Entry>) -> (r: Vec<ProviderJob>)
    requires
        providers_wf(view_entries(ps@)),
    ensures
        jobs_view(r@) == resolved_jobs(jobs_of(view_entries(ps@))),
{
    let ghost pv = view_entries(ps@);
    proof {
        lemma_view_entries(ps@);
        assert(pv.take(0) =~= Seq::empty());
        assert(jobs_view(Seq::<ProviderJob>::empty()) =~= resolved_jobs(jobs_of(pv.take(0))));
    }
    let mut jobs: Vec<ProviderJob> = Vec::new();
    let mut i: usize = 0;
    while i < ps.len()
        invariant
            i <= ps@.len(),
            pv == view_entries(ps@),
            pv.len() == ps@.len(),
            forall|j: int| 0 <= j < ps@.len() ==> #[trigger] pv[j] == (ps@[j].key@, ps@[j].val.v()),
            providers_wf(pv),
            jobs_view(jobs@) == resolved_jobs(jobs_of(pv.take(i as int))),
        decreases ps@.len() - i,
    {
        let ghost pre = jobs@;
        assert(pv[i as int].1 == ps@[i as int].val.v());
        assert(provider_entry_ok(pv[i as int].1));
        match &ps[i].val {
            Node::Dict(fs) => {
                match dict_get(fs, "url") {
                    Some(unode) => {
                        match dict_get(fs, "path") {
                            Some(pnode) => {
                                match (unode, pnode) {
                                    (Node::Str(u), Node::Str(p)) => {
                                        let job = ProviderJob {
                                            url: u.clone(),
                                            save_path: resolve_provider_path(p.as_str()),
                                        };
                                        proof {
                                            assert(entry_job(pv[i as int].1) == Some(
                                                (u@, p@),
                                            ));
                                        }
                                        jobs.push(job);
                                    },
                                    _ => {
                                        proof {
                                            assert(false);
                                        }
                                    },
                                }
                            },
                            None => {
                                assert(entry_job(pv[i as int].1) is None);
                            },
                        }
                    },
                    None => {
                        assert(entry_job(pv[i as int].1) is None);
                    },
                }
            },
            _ => {
                assert(entry_job(pv[i as int].1) is None);
            },
        }
        proof {
            assert(pv.take(i + 1).drop_last() =~= pv.take(i as int));
            assert(pv.take(i + 1).last() == pv[i as int]);
            assert(jobs_of(pv.take(i + 1)) == jobs_of(pv.take(i as int)) + (match entry_job(
                pv[i as int].1,
            ) {
                Some(j) => seq![j],
                None => Seq::<(Seq<char>, Seq<char>)>::empty(),
            }));
            match entry_job(pv[i as int].1) {
                Some(j) => {
                    assert(jobs@ == pre.push(jobs@.last()));
                    assert(jobs_view(jobs@) =~= jobs_view(pre).push(
                        (jobs@.last().url@, jobs@.last().save_path@),
                    ));
                    assert(resolved_jobs(jobs_of(pv.take(i + 1))) =~= resolved_jobs(
                        jobs_of(pv.take(i as int)),
                    ).push((j.0, resolved_path(j.1))));
                },
                None => {
                    assert(jobs_of(pv.take(i + 1)) =~= jobs_of(pv.take(i as int)));
                },
            }
        }
        i = i + 1;
    }
    proof {
        assert(pv.take(pv.len() as int) =~= pv);
    }
    jobs
}

/// What came back for one job: the fetched body, a transport failure with the
/// transport's message, or a body that was not valid text.
pub enum FetchOutcome {
    Body(String),
    TransportFailure(String),
    DecodeFailure,
}

/// A file write the caller is to perform after a successful fetch.
#[derive(Debug, PartialEq, Eq)]
pub struct SaveCommand {
    pub path: String,
    pub content: String,
}

/// Message reported when the transport failed, wrapping its own message.
pub open spec fn transport_failure_chars(m: Seq<char>) -> Seq<char> {
    "failed to download rule provider: "@ + m
}

/// Message reported when the fetched body was not valid text.
pub open spec fn decode_failure_chars() -> Seq<char> {
    "rule provider response could not be decoded as text"@
}

/// Decide one step of the download batch: a fetched body is saved at the
/// job's resolved path, and any failure aborts the batch with a
/// rule-provider download error. This is fail-fast: the caller performs no
/// further job once a step returns an error.
pub fn provider_step(job: &ProviderJob, outcome: FetchOutcome) -> (r: Result<
    SaveCommand,
    ClashError,
>)
    ensures
        match outcome {
            FetchOutcome::Body(b) => r matches Ok(c) && c.path@ == job.save_path@ && c.content@
                == b@,
            FetchOutcome::TransportFailure(m) => r matches Err(e) && e.kind
                == ClashErrorKind::RuleProviderDownloadError && e.message@
                == transport_failure_chars(m@),
            FetchOutcome::DecodeFailure => r matches Err(e) && e.kind
                == ClashErrorKind::RuleProviderDownloadError && e.message@
                == decode_failure_chars(),
        },
{
    match outcome {
        FetchOutcome::Body(b) => Ok(
            SaveCommand { path: job.save_path.clone(), content: b },
        ),
        FetchOutcome::TransportFailure(m) => {
            let mut msg = String::from_str("failed to download rule provider: ");
            msg.append(m.as_str());
            Err(ClashError::of(ClashErrorKind::RuleProviderDownloadError, msg))
        },
        FetchOutcome::DecodeFailure => Err(
            ClashError::of(
                ClashErrorKind::RuleProviderDownloadError,
                String::from_str("rule provider response could not be decoded as text"),
            ),
        ),
    }
}

/// Error reported when the directory for a provider file cannot be created.
pub fn provider_dir_error() -> (r: ClashError)
    ensures
        r.kind == ClashErrorKind::RuleProviderDownloadError,
        r.message@ == "failed to create rule provider directory"@,
{
    ClashError::of(
        ClashErrorKind::RuleProviderDownloadError,
        String::from_str("failed to create rule provider directory"),
    )
}

/// Error reported when a fetched provider file cannot be written.
pub fn provider_write_error() -> (r: ClashError)
    ensures
        r.kind == ClashErrorKind::RuleProviderDownloadError,
        r.message@ == "failed to save rule provider file"@,
{
    ClashError::of(
        ClashErrorKind::RuleProviderDownloadError,
        String::from_str("failed to save rule provider file"),
    )
}

} // verus!
