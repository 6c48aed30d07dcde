use sha2::Digest;
use dev_skills::bun::config::{baseline_source, BaselineSource};
use dev_skills::bun::context::rule_ids_from_names;
use dev_skills::json::Json;

fn s(x: &str) -> Json {
    Json::Str(x.to_string())
}

#[test]
fn baseline_array_keeps_only_strings_in_order() {
    let v = Json::Array(vec![s("b"), Json::Number("3".to_string()), s("a")]);
    match baseline_source(&v, true) {
        BaselineSource::Keys(keys) => assert_eq!(keys, vec!["b".to_string(), "a".to_string()]),
        other => panic!("unexpected {other:?}"),
    }
}

#[test]
fn baseline_object_reads_suppression_keys() {
    let v = Json::Object(vec![("suppressionKeys".to_string(), Json::Array(vec![s("k1")]))]);
    match baseline_source(&v, false) {
        BaselineSource::Keys(keys) => assert_eq!(keys, vec!["k1".to_string()]),
        other => panic!("unexpected {other:?}"),
    }
    let bad = Json::Object(vec![("other".to_string(), Json::Array(vec![]))]);
    assert!(matches!(baseline_source(&bad, true), BaselineSource::Invalid));
}

#[test]
fn baseline_path_only_inside_the_config() {
    match baseline_source(&s("baseline.json"), true) {
        BaselineSource::File(p) => assert_eq!(p, "baseline.json"),
        other => panic!("unexpected {other:?}"),
    }
    assert!(matches!(baseline_source(&s("baseline.json"), false), BaselineSource::Invalid));
    assert!(matches!(baseline_source(&Json::Null, true), BaselineSource::Invalid));
}

#[test]
fn rule_ids_skip_the_index_and_sort() {
    let names = vec![
        "pm-b.md".to_string(),
        "_index.md".to_string(),
        "notes.txt".to_string(),
        "pm-a.md".to_string(),
        "x.md.md".to_string(),
    ];
    assert_eq!(rule_ids_from_names(&names), vec!["pm-a".to_string(), "pm-b".to_string(), "x".to_string()]);
}

fn hex(bytes: &[u8]) -> String {
    bytes.iter().map(|b| format!("{b:02x}")).collect()
}

#[test]
fn repo_fingerprint_hashes_inputs_in_path_order() {
    let roots = vec![
        ("package.json".to_string(), true, Some(b"{}".to_vec())),
        ("bun.lock".to_string(), false, None),
    ];
    let walked = vec![
        (vec!["src".to_string(), "b.ts".to_string()], 7u64, 100u64),
        (vec!["a-b".to_string(), "x.ts".to_string()], 3u64, 5u64),
        (vec!["a".to_string(), "y.ts".to_string()], 12u64, 0u64),
    ];
    let got = dev_skills::bun::fingerprint::repo_fingerprint("engine-v1", "{\"k\":1}", &roots, &walked);
    let mut bytes = Vec::new();
    bytes.extend_from_slice(b"engine-v1{\"k\":1}");
    bytes.extend_from_slice(b"package.json\x01{}");
    bytes.extend_from_slice(b"bun.lock\x00");
    bytes.extend_from_slice(b"a/y.ts120a-b/x.ts35src/b.ts7100");
    assert_eq!(got, hex(&sha2::Sha256::digest(&bytes)));
    let mut reordered = walked.clone();
    reordered.reverse();
    assert_eq!(got, dev_skills::bun::fingerprint::repo_fingerprint("engine-v1", "{\"k\":1}", &roots, &reordered));
    let changed = vec![("package.json".to_string(), true, Some(b"{ }".to_vec()))];
    assert_ne!(got, dev_skills::bun::fingerprint::repo_fingerprint("engine-v1", "{\"k\":1}", &changed, &walked));
}

#[test]
fn cache_file_is_keyed_by_root_hash_and_fingerprint() {
    let paths = dev_skills::bun::state::PlatformPaths::under("/c", "/s", "/k");
    let file = paths.cache_file_for("/repo", "abc");
    let root_hash = hex(&sha2::Sha256::digest(b"/repo"));
    assert_eq!(file, format!("/k/dev-skills/bun-platform/scan-cache/{root_hash}/abc.json"));
}
