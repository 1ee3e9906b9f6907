//! The configuration transformer: rewrites a base proxy-core document into
//! the recommended running profile. The rewrite is a pure document-to-document
//! function; reading the base file, downloading the rule providers and writing
//! the running file are the caller's work, directed by the returned document
//! and job list.

use vstd::prelude::*;
use crate::error::{ClashError, ClashErrorKind};
use crate::provider::{ProviderJob, collect_jobs, jobs_of, jobs_view, providers_wf, resolved_jobs};
use crate::yaml::{DictV, Entry, Node, NodeV, dict_get, dict_replace_at_end, dict_set, dict_uniq_keys, has_key, lemma_idx_of, lemma_replace_at_end, lemma_set_key, lemma_view_entries, lemma_view_nodes, lookup, replace_at_end, set_key, uniq_keys, view_entries, view_nodes};

verus! {

/// The fixed remote-control listener address.
pub open spec fn controller_addr() -> Seq<char> {
    "127.0.0.1:9090"@
}

/// The direct-routing rule for the connectivity-check domain.
pub open spec fn bypass_rule() -> Seq<char> {
    "DOMAIN,test.steampowered.com,DIRECT"@
}

/// The literal recommended tunnel block.
pub open spec fn tun_block_v() -> NodeV {
    NodeV::Dict(
        seq![
            ("enable"@, NodeV::Bool(true)),
            ("stack"@, NodeV::Str("system"@)),
            ("auto-route"@, NodeV::Bool(true)),
            ("auto-detect-interface"@, NodeV::Bool(true)),
        ],
    )
}

/// The literal recommended DNS block.
pub open spec fn dns_block_v() -> NodeV {
    NodeV::Dict(
        seq![
            ("enable"@, NodeV::Bool(true)),
            ("listen"@, NodeV::Str("0.0.0.0:53"@)),
            ("enhanced-mode"@, NodeV::Str("fake-ip"@)),
            ("fake-ip-range"@, NodeV::Str("198.18.0.1/16"@)),
            ("nameserver"@, NodeV::List(seq![NodeV::Str("tcp://127.0.0.1:5353"@)])),
        ],
    )
}

/// The literal recommended profile-persistence block.
pub open spec fn profile_block_v() -> NodeV {
    NodeV::Dict(
        seq![("store-selected"@, NodeV::Bool(true)), ("store-fake-ip"@, NodeV::Bool(false))],
    )
}

/// The entries of a dictionary value; empty for any other value.
pub open spec fn dict_items(d: NodeV) -> DictV {
    match d {
        NodeV::Dict(es) => es,
        _ => Seq::empty(),
    }
}

/// The items of a list value; empty for any other value.
pub open spec fn list_of(v: NodeV) -> Seq<NodeV> {
    match v {
        NodeV::List(xs) => xs,
        _ => Seq::empty(),
    }
}

/// A base document the transformer is total over: a dictionary with distinct
/// keys whose `rules` value, if present, is a list, and whose
/// `rule-providers` value, if present, is a mapping with acceptable entries.
pub open spec fn config_wf(d: NodeV) -> bool {
    match d {
        NodeV::Dict(es) => {
            &&& uniq_keys(es)
            &&& (has_key(es, "rules"@) ==> lookup(es, "rules"@) is List)
            &&& (has_key(es, "rule-providers"@) ==> match lookup(es, "rule-providers"@) {
                NodeV::Dict(ps) => providers_wf(ps),
                _ => false,
            })
        },
        _ => false,
    }
}

/// The rewrite, on the entries of the document: set the remote-control
/// listener, put the bypass rule ahead of any user rules, set the external
/// UI directory, then replace the tunnel, DNS and profile blocks by their
/// literal recommended values.
pub open spec fn transform_entries(es: DictV, w: Seq<char>) -> DictV {
    let s1 = set_key(es, "external-controller"@, NodeV::Str(controller_addr()));
    let s2 = if has_key(s1, "rules"@) {
        set_key(
            s1,
            "rules"@,
            NodeV::List(seq![NodeV::Str(bypass_rule())] + list_of(lookup(s1, "rules"@))),
        )
    } else {
        s1
    };
    let s3 = set_key(s2, "external-ui"@, NodeV::Str(w));
    let s4 = replace_at_end(s3, "tun"@, tun_block_v());
    let s5 = replace_at_end(s4, "dns"@, dns_block_v());
    replace_at_end(s5, "profile"@, profile_block_v())
}

/// The rewrite, on the document.
pub open spec fn transform_doc(d: NodeV, w: Seq<char>) -> NodeV {
    NodeV::Dict(transform_entries(dict_items(d), w))
}

/// The download jobs the document's `rule-providers` mapping asks for, with
/// each path resolved under the providers root.
pub open spec fn doc_jobs(d: NodeV) -> Seq<(Seq<char>, Seq<char>)> {
    if has_key(dict_items(d), "rule-providers"@) {
        resolved_jobs(jobs_of(dict_items(lookup(dict_items(d), "rule-providers"@))))
    } else {
        Seq::empty()
    }
}

/// Message reported for a base document the transformer is not total over.
pub open spec fn malformed_doc_chars() -> Seq<char> {
    "configuration document is not well formed"@
}

/// The top-level keys the rewrite touches are pairwise distinct, and distinct
/// from the `rule-providers` key it leaves alone.
pub proof fn lemma_keys_distinct()
    ensures
        "external-controller"@ != "rules"@,
        "external-controller"@ != "external-ui"@,
        "external-controller"@ != "tun"@,
        "external-controller"@ != "dns"@,
        "external-controller"@ != "profile"@,
        "external-controller"@ != "rule-providers"@,
        "rules"@ != "external-ui"@,
        "rules"@ != "tun"@,
        "rules"@ != "dns"@,
        "rules"@ != "profile"@,
        "rules"@ != "rule-providers"@,
        "external-ui"@ != "tun"@,
        "external-ui"@ != "dns"@,
        "external-ui"@ != "profile"@,
        "external-ui"@ != "rule-providers"@,
        "tun"@ != "dns"@,
        "tun"@ != "profile"@,
        "tun"@ != "rule-providers"@,
        "dns"@ != "profile"@,
        "dns"@ != "rule-providers"@,
        "profile"@ != "rule-providers"@,
{
    reveal_strlit("external-controller");
    reveal_strlit("rules");
    reveal_strlit("external-ui");
    reveal_strlit("tun");
    reveal_strlit("dns");
    reveal_strlit("profile");
    reveal_strlit("rule-providers");
    assert("external-controller"@.len() == 19);
    assert("rules"@.len() == 5);
    assert("external-ui"@.len() == 11);
    assert("tun"@.len() == 3);
    assert("dns"@.len() == 3);
    assert("profile"@.len() == 7);
    assert("rule-providers"@.len() == 14);
    assert("tun"@[0] == 't');
    assert("dns"@[0] == 'd');
}

/// The literal recommended tunnel block, as a document node.
pub fn tun_block() -> (r: Node)
    ensures
        r.v() == tun_block_v(),
{
    let mut es: Vec<Entry> = Vec::new();
    es.push(Entry { key: String::from_str("enable"), val: Node::Bool(true) });
    es.push(Entry { key: String::from_str("stack"), val: Node::Str(String::from_str("system")) });
    es.push(Entry { key: String::from_str("auto-route"), val: Node::Bool(true) });
    es.push(Entry { key: String::from_str("auto-detect-interface"), val: Node::Bool(true) });
    proof {
        lemma_view_entries(es@);
        assert(view_entries(es@) =~= dict_items(tun_block_v()));
    }
    Node::Dict(es)
}

/// The literal recommended DNS block, as a document node.
pub fn dns_block() -> (r: Node)
    ensures
        r.v() == dns_block_v(),
{
    let ns: Vec<Node> = vec![Node::Str(String::from_str("tcp://127.0.0.1:5353"))];
    proof {
        lemma_view_nodes(ns@);
        assert(view_nodes(ns@) =~= seq![NodeV::Str("tcp://127.0.0.1:5353"@)]);
    }
    let mut es: Vec<Entry> = Vec::new();
    es.push(Entry { key: String::from_str("enable"), val: Node::Bool(true) });
    es.push(Entry { key: String::from_str("listen"), val: Node::Str(String::from_str("0.0.0.0:53")) });
    es.push(
        Entry { key: String::from_str("enhanced-mode"), val: Node::Str(String::from_str("fake-ip")) },
    );
    es.push(
        Entry {
            key: String::from_str("fake-ip-range"),
            val: Node::Str(String::from_str("198.18.0.1/16")),
        },
    );
    es.push(Entry { key: String::from_str("nameserver"), val: Node::List(ns) });
    proof {
        lemma_view_entries(es@);
        assert(view_entries(es@) =~= dict_items(dns_block_v()));
    }
    Node::Dict(es)
}

/// The literal recommended profile-persistence block, as a document node.
pub fn profile_block() -> (r: Node)
    ensures
        r.v() == profile_block_v(),
{
    let mut es: Vec<Entry> = Vec::new();
    es.push(Entry { key: String::from_str("store-selected"), val: Node::Bool(true) });
    es.push(Entry { key: String::from_str("store-fake-ip"), val: Node::Bool(false) });
    proof {
        lemma_view_entries(es@);
        assert(view_entries(es@) =~= dict_items(profile_block_v()));
    }
    Node::Dict(es)
}

/// Check that the document is one the rewrite is total over, and collect its
/// download jobs.
fn check_and_collect(es: &Vec<Entry>) -> (r: Result<Vec<ProviderJob>, ClashError>)
    ensures
        (r is Ok) <==> config_wf(NodeV::Dict(view_entries(es@))),
        r matches Ok(jobs) ==> jobs_view(jobs@) == doc_jobs(NodeV::Dict(view_entries(es@))),
        r matches Err(e) ==> e.kind == ClashErrorKind::ConfigFormatError && e.message@
            == malformed_doc_chars(),
{
    let ghost ev = view_entries(es@);
    if !dict_uniq_keys(es) {
        return Err(malformed_doc_error());
    }
    match dict_get(es, "rules") {
        Some(n) => {
            if !(matches!(n, Node::List(_))) {
                return Err(malformed_doc_error());
            }
        },
        None => {},
    }
    match dict_get(es, "rule-providers") {
        Some(n) => {
            match n {
                Node::Dict(ps) => {
                    if !providers_check(ps) {
                        return Err(malformed_doc_error());
                    }
                    let jobs = collect_jobs(ps);
                    proof {
                        assert(dict_items(lookup(ev, "rule-providers"@)) == view_entries(ps@));
                    }
                    Ok(jobs)
                },
                _ => Err(malformed_doc_error()),
            }
        },
        None => {
            proof {
                assert(doc_jobs(NodeV::Dict(ev)) =~= Seq::empty());
                assert(jobs_view(Seq::<ProviderJob>::empty()) =~= Seq::empty());
            }
            Ok(Vec::new())
        },
    }
}

/// Whether every entry of a `rule-providers` mapping is acceptable.
fn providers_check(ps: &Vec<Entry>) -> (r: bool)
    ensures
        r == providers_wf(view_entries(ps@)),
{
    let ghost pv = view_entries(ps@);
    proof {
        lemma_view_entries(ps@);
    }
    let mut i: usize = 0;
    while i < ps.len()
        invariant
            i <= ps@.len(),
            pv == view_entries(ps@),
            pv.len() == ps@.len(),
            forall|j: int| 0 <= j < ps@.len() ==> #[trigger] pv[j] == (ps@[j].key@, ps@[j].val.v()),
            forall|j: int| 0 <= j < i ==> crate::provider::provider_entry_ok((#[trigger] pv[j]).1),
        decreases ps@.len() - i,
    {
        assert(pv[i as int].1 == ps@[i as int].val.v());
        match &ps[i].val {
            Node::Dict(fs) => {
                if !dict_uniq_keys(fs) {
                    return false;
                }
                match dict_get(fs, "url") {
                    Some(unode) => {
                        match dict_get(fs, "path") {
                            Some(pnode) => {
                                if !(matches!(unode, Node::Str(_))) {
                                    return false;
                                }
                                if !(matches!(pnode, Node::Str(_))) {
                                    return false;
                                }
                            },
                            None => {},
                        }
                    },
                    None => {},
                }
            },
            _ => {},
        }
        assert(crate::provider::provider_entry_ok(pv[i as int].1));
        i = i + 1;
    }
    true
}

/// Error reported for a base document the transformer is not total over.
fn malformed_doc_error() -> (r: ClashError)
    ensures
        r.kind == ClashErrorKind::ConfigFormatError,
        r.message@ == malformed_doc_chars(),
{
    ClashError::of(
        ClashErrorKind::ConfigFormatError,
        String::from_str("configuration document is not well formed"),
    )
}

/// Rewrite a base document into the recommended running profile.
///
/// On a well-formed document the result is the rewritten document together
/// with the download jobs its `rule-providers` mapping asks for; the caller
/// performs the jobs and, only when all of them succeed, serializes and
/// writes the rewritten document. A document the rewrite is not total over is
/// rejected with a format error and nothing else is done.
pub fn transform_document(doc: Node, webui_dir: &str) -> (r: Result<
    (Node, Vec<ProviderJob>),
    ClashError,
>)
    ensures
        (r is Ok) <==> config_wf(doc.v()),
        r matches Ok(p) ==> p.0.v() == transform_doc(doc.v(), webui_dir@) && jobs_view(p.1@)
            == doc_jobs(doc.v()),
        r matches Err(e) ==> e.kind == ClashErrorKind::ConfigFormatError && e.message@
            == malformed_doc_chars(),
{
    let mut es: Vec<Entry> = match doc {
        Node::Dict(es) => es,
        _ => {
            return Err(malformed_doc_error());
        },
    };
    let ghost es0 = view_entries(es@);
    let jobs = match check_and_collect(&es) {
        Ok(jobs) => jobs,
        Err(e) => {
            return Err(e);
        },
    };
    // Set the remote-control listener address.
    dict_set(&mut es, "external-controller", Node::Str(String::from_str("127.0.0.1:9090")));
    let ghost s1 = view_entries(es@);
    proof {
        lemma_keys_distinct();
        lemma_set_key(es0, "external-controller"@, NodeV::Str(controller_addr()));
        assert(has_key(s1, "rules"@) == has_key(es0, "rules"@));
        if has_key(es0, "rules"@) {
            assert(lookup(s1, "rules"@) == lookup(es0, "rules"@));
        }
    }
    // Put the bypass rule ahead of any user-authored rule.
    let ghost s2 = transform_rules_step(s1);
    insert_bypass(&mut es);
    // Set the external UI asset directory.
    dict_set(&mut es, "external-ui", Node::Str(String::from_str(webui_dir)));
    let ghost s3 = view_entries(es@);
    proof {
        lemma_rules_step_uniq(s1);
        lemma_set_key(s2, "external-ui"@, NodeV::Str(webui_dir@));
    }
    // Replace the tunnel, DNS and profile blocks by the recommended ones.
    dict_replace_at_end(&mut es, "tun", tun_block());
    let ghost s4 = view_entries(es@);
    proof {
        lemma_replace_at_end(s3, "tun"@, tun_block_v());
    }
    dict_replace_at_end(&mut es, "dns", dns_block());
    let ghost s5 = view_entries(es@);
    proof {
        lemma_replace_at_end(s4, "dns"@, dns_block_v());
    }
    dict_replace_at_end(&mut es, "profile", profile_block());
    proof {
        lemma_replace_at_end(s5, "profile"@, profile_block_v());
    }
    Ok((Node::Dict(es), jobs))
}

/// Everything the rewrite guarantees of its output, stated over the entries:
/// the listener, UI directory and the three recommended blocks are present
/// with their literal values; a rules list is kept exactly when the input had
/// one, with the bypass rule prepended; every other key is carried through
/// untouched; and key uniqueness is preserved.
pub proof fn lemma_transform_properties(es: DictV, w: Seq<char>)
    requires
        uniq_keys(es),
        has_key(es, "rules"@) ==> lookup(es, "rules"@) is List,
    ensures
        uniq_keys(transform_entries(es, w)),
        has_key(transform_entries(es, w), "external-controller"@),
        lookup(transform_entries(es, w), "external-controller"@) == NodeV::Str(controller_addr()),
        has_key(transform_entries(es, w), "external-ui"@),
        lookup(transform_entries(es, w), "external-ui"@) == NodeV::Str(w),
        has_key(transform_entries(es, w), "tun"@),
        lookup(transform_entries(es, w), "tun"@) == tun_block_v(),
        has_key(transform_entries(es, w), "dns"@),
        lookup(transform_entries(es, w), "dns"@) == dns_block_v(),
        has_key(transform_entries(es, w), "profile"@),
        lookup(transform_entries(es, w), "profile"@) == profile_block_v(),
        has_key(transform_entries(es, w), "rules"@) == has_key(es, "rules"@),
        has_key(es, "rules"@) ==> lookup(transform_entries(es, w), "rules"@) == NodeV::List(
            seq![NodeV::Str(bypass_rule())] + list_of(lookup(es, "rules"@)),
        ),
        forall|k: Seq<char>|
            k != "external-controller"@ && k != "rules"@ && k != "external-ui"@ && k != "tun"@ && k
                != "dns"@ && k != "profile"@ ==> #[trigger] has_key(transform_entries(es, w), k)
                == has_key(es, k) && (has_key(es, k) ==> lookup(transform_entries(es, w), k)
                == lookup(es, k)),
{
    lemma_keys_distinct();
    let v1 = NodeV::Str(controller_addr());
    let s1 = set_key(es, "external-controller"@, v1);
    lemma_set_key(es, "external-controller"@, v1);
    let s2 = transform_rules_step(s1);
    let vr = NodeV::List(seq![NodeV::Str(bypass_rule())] + list_of(lookup(s1, "rules"@)));
    if has_key(s1, "rules"@) {
        lemma_set_key(s1, "rules"@, vr);
    }
    let s3 = set_key(s2, "external-ui"@, NodeV::Str(w));
    lemma_set_key(s2, "external-ui"@, NodeV::Str(w));
    let s4 = replace_at_end(s3, "tun"@, tun_block_v());
    lemma_replace_at_end(s3, "tun"@, tun_block_v());
    let s5 = replace_at_end(s4, "dns"@, dns_block_v());
    lemma_replace_at_end(s4, "dns"@, dns_block_v());
    let s6 = replace_at_end(s5, "profile"@, profile_block_v());
    lemma_replace_at_end(s5, "profile"@, profile_block_v());
    assert(transform_entries(es, w) == s6);
    assert(lookup(s6, "external-controller"@) == v1);
    assert(has_key(s6, "rules"@) == has_key(es, "rules"@));
    if has_key(es, "rules"@) {
        assert(lookup(s1, "rules"@) == lookup(es, "rules"@));
        assert(lookup(s6, "rules"@) == vr);
    }
    assert forall|k: Seq<char>|
        k != "external-controller"@ && k != "rules"@ && k != "external-ui"@ && k != "tun"@ && k
            != "dns"@ && k != "profile"@ implies #[trigger] has_key(transform_entries(es, w), k)
        == has_key(es, k) && (has_key(es, k) ==> lookup(transform_entries(es, w), k) == lookup(
        es,
        k,
    )) by {
        assert(has_key(s1, k) == has_key(es, k));
        assert(has_key(s2, k) == has_key(s1, k));
        assert(has_key(s3, k) == has_key(s2, k));
        assert(has_key(s4, k) == has_key(s3, k));
        assert(has_key(s5, k) == has_key(s4, k));
        assert(has_key(s6, k) == has_key(s5, k));
        if has_key(es, k) {
            assert(lookup(s1, k) == lookup(es, k));
            assert(lookup(s2, k) == lookup(s1, k));
            assert(lookup(s3, k) == lookup(s2, k));
            assert(lookup(s4, k) == lookup(s3, k));
            assert(lookup(s5, k) == lookup(s4, k));
            assert(lookup(s6, k) == lookup(s5, k));
        }
    }
}

/// For every well-formed base document the rewritten output carries exactly
/// one remote-control listener key, bound to the fixed literal address.
pub proof fn lemma_controller_unique(d: NodeV, w: Seq<char>)
    requires
        config_wf(d),
    ensures
        has_key(dict_items(transform_doc(d, w)), "external-controller"@),
        lookup(dict_items(transform_doc(d, w)), "external-controller"@) == NodeV::Str(
            controller_addr(),
        ),
        forall|i: int, j: int|
            0 <= i < dict_items(transform_doc(d, w)).len() && 0 <= j < dict_items(
                transform_doc(d, w),
            ).len() && (#[trigger] dict_items(transform_doc(d, w))[i]).0 == "external-controller"@
                && (#[trigger] dict_items(transform_doc(d, w))[j]).0 == "external-controller"@
                ==> i == j,
{
    lemma_transform_properties(dict_items(d), w);
    let os = dict_items(transform_doc(d, w));
    assert forall|i: int, j: int|
        0 <= i < os.len() && 0 <= j < os.len() && (#[trigger] os[i]).0 == "external-controller"@
            && (#[trigger] os[j]).0 == "external-controller"@ implies i == j by {
        if i < j || j < i {
            assert(os[i].0 != os[j].0);
        }
    }
}

/// The items of a document's top-level rules list.
pub open spec fn doc_rules(d: NodeV) -> Seq<NodeV> {
    list_of(lookup(dict_items(d), "rules"@))
}

/// The connectivity-bypass rule is always the first element of the output
/// rules list; the rest of the list is the input list, in order, wherever
/// the bypass rule may already have stood in it. (A document with no rules
/// list gets none: see `lemma_transform_properties`.)
pub proof fn lemma_bypass_rule_first(d: NodeV, w: Seq<char>)
    requires
        config_wf(d),
        has_key(dict_items(d), "rules"@),
    ensures
        has_key(dict_items(transform_doc(d, w)), "rules"@),
        doc_rules(transform_doc(d, w)).len() == doc_rules(d).len() + 1,
        doc_rules(transform_doc(d, w))[0] == NodeV::Str(bypass_rule()),
        doc_rules(transform_doc(d, w)).skip(1) == doc_rules(d),
{
    lemma_transform_properties(dict_items(d), w);
    assert(lookup(dict_items(transform_doc(d, w)), "rules"@) == NodeV::List(
        seq![NodeV::Str(bypass_rule())] + doc_rules(d),
    ));
    assert(doc_rules(transform_doc(d, w)) == seq![NodeV::Str(bypass_rule())] + doc_rules(d));
    assert(doc_rules(transform_doc(d, w)).skip(1) =~= doc_rules(d));
}

/// Replace-not-merge makes the rewrite idempotent: its output is again
/// well formed, and rewriting the output changes none of the tunnel, DNS or
/// profile blocks — both outputs carry the identical literal blocks.
pub proof fn lemma_transform_idempotent(d: NodeV, w: Seq<char>)
    requires
        config_wf(d),
    ensures
        config_wf(transform_doc(d, w)),
        lookup(dict_items(transform_doc(transform_doc(d, w), w)), "tun"@) == lookup(
            dict_items(transform_doc(d, w)),
            "tun"@,
        ),
        lookup(dict_items(transform_doc(transform_doc(d, w), w)), "dns"@) == lookup(
            dict_items(transform_doc(d, w)),
            "dns"@,
        ),
        lookup(dict_items(transform_doc(transform_doc(d, w), w)), "profile"@) == lookup(
            dict_items(transform_doc(d, w)),
            "profile"@,
        ),
        lookup(dict_items(transform_doc(d, w)), "tun"@) == tun_block_v(),
        lookup(dict_items(transform_doc(d, w)), "dns"@) == dns_block_v(),
        lookup(dict_items(transform_doc(d, w)), "profile"@) == profile_block_v(),
{
    lemma_keys_distinct();
    lemma_transform_properties(dict_items(d), w);
    let o1 = dict_items(transform_doc(d, w));
    assert(config_wf(transform_doc(d, w))) by {
        assert(uniq_keys(o1));
        if has_key(o1, "rules"@) {
            assert(lookup(o1, "rules"@) is List);
        }
        if has_key(o1, "rule-providers"@) {
            assert(has_key(dict_items(d), "rule-providers"@));
            assert(lookup(o1, "rule-providers"@) == lookup(dict_items(d), "rule-providers"@));
        }
    }
    lemma_transform_properties(o1, w);
}

/// The rules step of the rewrite, on the entries after the listener was set.
pub open spec fn transform_rules_step(s1: DictV) -> DictV {
    if has_key(s1, "rules"@) {
        set_key(
            s1,
            "rules"@,
            NodeV::List(seq![NodeV::Str(bypass_rule())] + list_of(lookup(s1, "rules"@))),
        )
    } else {
        s1
    }
}

/// The rules step preserves key uniqueness.
proof fn lemma_rules_step_uniq(s1: DictV)
    requires
        uniq_keys(s1),
    ensures
        uniq_keys(transform_rules_step(s1)),
{
    if has_key(s1, "rules"@) {
        lemma_set_key(
            s1,
            "rules"@,
            NodeV::List(seq![NodeV::Str(bypass_rule())] + list_of(lookup(s1, "rules"@))),
        );
    }
}

/// Insert the bypass rule at the head of the rules list, if there is one.
fn insert_bypass(es: &mut Vec<Entry>)
    requires
        uniq_keys(view_entries(old(es)@)),
        has_key(view_entries(old(es)@), "rules"@) ==> lookup(view_entries(old(es)@), "rules"@)
            is List,
    ensures
        view_entries(final(es)@) == transform_rules_step(view_entries(old(es)@)),
{
    let ghost ev = view_entries(old(es)@);
    proof {
        lemma_view_entries(old(es)@);
    }
    match crate::yaml::dict_find(es, "rules") {
        Some(i) => {
            proof {
                assert(ev[i as int].0 == "rules"@);
                lemma_idx_of(ev, "rules"@);
            }
            let entry = es.remove(i);
            match entry.val {
                Node::List(mut items) => {
                    items.insert(
                        0,
                        Node::Str(String::from_str("DOMAIN,test.steampowered.com,DIRECT")),
                    );
                    proof {
                        lemma_view_nodes(items@);
                        lemma_view_nodes(items@.drop_first());
                        assert(items@.drop_first() =~= old(es)@[i as int].val->List_0@);
                        assert(view_nodes(items@) =~= seq![NodeV::Str(bypass_rule())] + view_nodes(
                            items@.drop_first(),
                        ));
                        assert(lookup(ev, "rules"@) == NodeV::List(
                            view_nodes(old(es)@[i as int].val->List_0@),
                        ));
                    }
                    let new_val = Node::List(items);
                    es.insert(i, Entry { key: entry.key, val: new_val });
                    proof {
                        lemma_view_entries(es@);
                        assert(view_entries(es@) =~= ev.update(
                            i as int,
                            ("rules"@, NodeV::List(
                                seq![NodeV::Str(bypass_rule())] + list_of(lookup(ev, "rules"@)),
                            )),
                        ));
                        assert(entry.key@ == "rules"@);
                    }
                },
                _ => {
                    proof {
                        assert(ev[i as int].1 == old(es)@[i as int].val.v());
                        assert(lookup(ev, "rules"@) is List);
                        assert(false);
                    }
                    vstd::pervasive::unreached()
                },
            }
        },
        None => {
            proof {
                if has_key(ev, "rules"@) {
                    let j = crate::yaml::idx_of(ev, "rules"@);
                    lemma_idx_of(ev, "rules"@);
                    assert(old(es)@[j].key@ == "rules"@);
                }
            }
        },
    }
}

} // verus!
