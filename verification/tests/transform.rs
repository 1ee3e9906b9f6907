use tomoon::config::transform_document;
use tomoon::error::ClashErrorKind;
use tomoon::provider::{provider_step, resolve_provider_path, FetchOutcome, ProviderJob};
use tomoon::yaml::{Entry, Node};

fn s(x: &str) -> String {
    x.to_string()
}

fn e(k: &str, v: Node) -> Entry {
    Entry { key: s(k), val: v }
}

fn get<'a>(n: &'a Node, k: &str) -> Option<&'a Node> {
    match n {
        Node::Dict(es) => es.iter().find(|en| en.key == k).map(|en| &en.val),
        _ => None,
    }
}

fn key_count(n: &Node, k: &str) -> usize {
    match n {
        Node::Dict(es) => es.iter().filter(|en| en.key == k).count(),
        _ => 0,
    }
}

fn tun_expected() -> Node {
    Node::Dict(vec![
        e("enable", Node::Bool(true)),
        e("stack", Node::Str(s("system"))),
        e("auto-route", Node::Bool(true)),
        e("auto-detect-interface", Node::Bool(true)),
    ])
}

fn dns_expected() -> Node {
    Node::Dict(vec![
        e("enable", Node::Bool(true)),
        e("listen", Node::Str(s("0.0.0.0:53"))),
        e("enhanced-mode", Node::Str(s("fake-ip"))),
        e("fake-ip-range", Node::Str(s("198.18.0.1/16"))),
        e("nameserver", Node::List(vec![Node::Str(s("tcp://127.0.0.1:5353"))])),
    ])
}

fn profile_expected() -> Node {
    Node::Dict(vec![
        e("store-selected", Node::Bool(true)),
        e("store-fake-ip", Node::Bool(false)),
    ])
}

#[test]
fn base_without_keys_gets_all_four() {
    let doc = Node::Dict(vec![e("port", Node::Int(7890))]);
    let (out, jobs) = transform_document(doc, "/app/web").unwrap();
    assert!(jobs.is_empty());
    assert_eq!(get(&out, "external-controller"), Some(&Node::Str(s("127.0.0.1:9090"))));
    assert_eq!(get(&out, "external-ui"), Some(&Node::Str(s("/app/web"))));
    assert_eq!(get(&out, "tun"), Some(&tun_expected()));
    assert_eq!(get(&out, "dns"), Some(&dns_expected()));
    assert_eq!(get(&out, "profile"), Some(&profile_expected()));
    assert_eq!(get(&out, "port"), Some(&Node::Int(7890)));
    assert_eq!(get(&out, "rules"), None);
}

#[test]
fn existing_tun_replaced_not_merged() {
    let old_tun = Node::Dict(vec![
        e("enable", Node::Bool(false)),
        e("device", Node::Str(s("utun9"))),
    ]);
    let doc = Node::Dict(vec![e("tun", old_tun), e("mode", Node::Str(s("rule")))]);
    let (out, _) = transform_document(doc, "/app/web").unwrap();
    assert_eq!(get(&out, "tun"), Some(&tun_expected()));
    assert_eq!(key_count(&out, "tun"), 1);
    assert_eq!(get(&out, "mode"), Some(&Node::Str(s("rule"))));
}

#[test]
fn controller_overwritten_exactly_once() {
    let doc = Node::Dict(vec![
        e("external-controller", Node::Str(s("0.0.0.0:9999"))),
        e("port", Node::Int(1)),
    ]);
    let (out, _) = transform_document(doc, "/app/web").unwrap();
    assert_eq!(key_count(&out, "external-controller"), 1);
    assert_eq!(get(&out, "external-controller"), Some(&Node::Str(s("127.0.0.1:9090"))));
}

#[test]
fn bypass_rule_prepended() {
    let doc = Node::Dict(vec![e(
        "rules",
        Node::List(vec![
            Node::Str(s("DOMAIN,a.example,PROXY")),
            Node::Str(s("MATCH,DIRECT")),
        ]),
    )]);
    let (out, _) = transform_document(doc, "/app/web").unwrap();
    let rules = match get(&out, "rules").unwrap() {
        Node::List(items) => items,
        other => panic!("rules is not a list: {:?}", other),
    };
    assert_eq!(rules.len(), 3);
    assert_eq!(rules[0], Node::Str(s("DOMAIN,test.steampowered.com,DIRECT")));
    assert_eq!(rules[1], Node::Str(s("DOMAIN,a.example,PROXY")));
    assert_eq!(rules[2], Node::Str(s("MATCH,DIRECT")));
}

#[test]
fn bypass_rule_prepended_even_if_already_present() {
    let doc = Node::Dict(vec![e(
        "rules",
        Node::List(vec![Node::Str(s("DOMAIN,test.steampowered.com,DIRECT"))]),
    )]);
    let (out, _) = transform_document(doc, "/app/web").unwrap();
    let rules = match get(&out, "rules").unwrap() {
        Node::List(items) => items,
        other => panic!("rules is not a list: {:?}", other),
    };
    assert_eq!(rules.len(), 2);
    assert_eq!(rules[0], Node::Str(s("DOMAIN,test.steampowered.com,DIRECT")));
}

#[test]
fn transform_is_idempotent_on_blocks() {
    let doc = Node::Dict(vec![
        e("tun", Node::Str(s("junk"))),
        e("dns", Node::Bool(false)),
        e("rules", Node::List(vec![Node::Str(s("MATCH,DIRECT"))])),
    ]);
    let (out1, _) = transform_document(doc, "/app/web").unwrap();
    assert_eq!(get(&out1, "tun"), Some(&tun_expected()));
    assert_eq!(get(&out1, "dns"), Some(&dns_expected()));
    assert_eq!(get(&out1, "profile"), Some(&profile_expected()));
    let (out2, _) = transform_document(out1, "/app/web").unwrap();
    assert_eq!(get(&out2, "tun"), Some(&tun_expected()));
    assert_eq!(get(&out2, "dns"), Some(&dns_expected()));
    assert_eq!(get(&out2, "profile"), Some(&profile_expected()));
    assert_eq!(key_count(&out2, "tun"), 1);
    assert_eq!(key_count(&out2, "dns"), 1);
    assert_eq!(key_count(&out2, "profile"), 1);
    assert_eq!(key_count(&out2, "external-controller"), 1);
}

#[test]
fn non_dict_document_rejected() {
    let r = transform_document(Node::Str(s("just a string")), "/app/web");
    let err = r.err().unwrap();
    assert!(matches!(err.kind, ClashErrorKind::ConfigFormatError));
    assert_eq!(err.message, s("configuration document is not well formed"));
}

#[test]
fn non_list_rules_rejected() {
    let doc = Node::Dict(vec![e("rules", Node::Str(s("oops")))]);
    let err = transform_document(doc, "/app/web").err().unwrap();
    assert!(matches!(err.kind, ClashErrorKind::ConfigFormatError));
}

#[test]
fn duplicate_keys_rejected() {
    let doc = Node::Dict(vec![e("port", Node::Int(1)), e("port", Node::Int(2))]);
    let err = transform_document(doc, "/app/web").err().unwrap();
    assert!(matches!(err.kind, ClashErrorKind::ConfigFormatError));
}

#[test]
fn non_dict_rule_providers_rejected() {
    let doc = Node::Dict(vec![e("rule-providers", Node::List(vec![]))]);
    let err = transform_document(doc, "/app/web").err().unwrap();
    assert!(matches!(err.kind, ClashErrorKind::ConfigFormatError));
}

#[test]
fn non_string_provider_url_rejected() {
    let entry = Node::Dict(vec![e("url", Node::Int(5)), e("path", Node::Str(s("x.yaml")))]);
    let doc = Node::Dict(vec![e("rule-providers", Node::Dict(vec![e("a", entry)]))]);
    let err = transform_document(doc, "/app/web").err().unwrap();
    assert!(matches!(err.kind, ClashErrorKind::ConfigFormatError));
}

#[test]
fn provider_jobs_collected_in_order_and_skipped_when_incomplete() {
    let a = Node::Dict(vec![
        e("url", Node::Str(s("http://example/a.yaml"))),
        e("path", Node::Str(s("./x/a.yaml"))),
    ]);
    let b = Node::Dict(vec![e("url", Node::Str(s("http://example/b.yaml")))]);
    let c = Node::Str(s("not a mapping"));
    let d = Node::Dict(vec![
        e("url", Node::Str(s("http://example/d.yaml"))),
        e("path", Node::Str(s("d.yaml"))),
    ]);
    let doc = Node::Dict(vec![e(
        "rule-providers",
        Node::Dict(vec![e("a", a), e("b", b), e("c", c), e("d", d)]),
    )]);
    let (out, jobs) = transform_document(doc, "/app/web").unwrap();
    assert_eq!(
        jobs,
        vec![
            ProviderJob {
                url: s("http://example/a.yaml"),
                save_path: s("/root/.config/clash/x/a.yaml"),
            },
            ProviderJob {
                url: s("http://example/d.yaml"),
                save_path: s("/root/.config/clash/d.yaml"),
            },
        ]
    );
    // The rule-providers mapping itself is carried through untouched.
    let ps = match get(&out, "rule-providers").unwrap() {
        Node::Dict(ps) => ps,
        other => panic!("rule-providers is not a mapping: {:?}", other),
    };
    assert_eq!(ps.len(), 4);
    assert_eq!(ps[0].key, s("a"));
    assert_eq!(ps[2].val, Node::Str(s("not a mapping")));
}

#[test]
fn provider_path_resolution() {
    assert_eq!(resolve_provider_path("./sub/rule.yaml"), s("/root/.config/clash/sub/rule.yaml"));
    assert_eq!(resolve_provider_path("sub/rule.yaml"), s("/root/.config/clash/sub/rule.yaml"));
    assert_eq!(resolve_provider_path("././x"), s("/root/.config/clash/./x"));
    assert_eq!(resolve_provider_path(""), s("/root/.config/clash/"));
    assert_eq!(resolve_provider_path("../up.yaml"), s("/root/.config/clash/../up.yaml"));
}

#[test]
fn provider_step_saves_fetched_body() {
    let job = ProviderJob {
        url: s("http://example/a.yaml"),
        save_path: s("/root/.config/clash/x/a.yaml"),
    };
    let cmd = provider_step(&job, FetchOutcome::Body(s("payload: 1\n"))).unwrap();
    assert_eq!(cmd.path, s("/root/.config/clash/x/a.yaml"));
    assert_eq!(cmd.content, s("payload: 1\n"));
}

#[test]
fn provider_step_transport_failure_aborts_with_download_error() {
    let job = ProviderJob {
        url: s("http://example/a.yaml"),
        save_path: s("/root/.config/clash/x/a.yaml"),
    };
    let err = provider_step(&job, FetchOutcome::TransportFailure(s("connection refused")))
        .err()
        .unwrap();
    assert!(matches!(err.kind, ClashErrorKind::RuleProviderDownloadError));
    assert_eq!(err.message, s("failed to download rule provider: connection refused"));
}

#[test]
fn provider_step_decode_failure_aborts_with_download_error() {
    let job = ProviderJob { url: s("u"), save_path: s("p") };
    let err = provider_step(&job, FetchOutcome::DecodeFailure).err().unwrap();
    assert!(matches!(err.kind, ClashErrorKind::RuleProviderDownloadError));
    assert_eq!(err.message, s("rule provider response could not be decoded as text"));
}
