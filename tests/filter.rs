use log_filter::config::{
    get_config_file_path, ConfigFileConfiguration, Configuration, FilterConfig, InMemoryConfiguration,
};
use log_filter::filter::{filter_log, filter_record, get_filter, keep_log, skip_log, FilterError, LogRecord};
use log_filter::pod_name::extract_pod_name;

fn s(text: &str) -> String {
    text.to_string()
}

fn wildcard_and_exact_config() -> InMemoryConfiguration {
    let mut config = FilterConfig::new();
    config.insert(s("*"), s("*"), s("*"), s("abc"));
    config.insert(s("*"), s("*"), s("argocd-application-controller"), s("xyz"));
    config.insert(s("*"), s("*"), s("document-generation"), s("xyz"));
    config.insert(s("a"), s("b"), s("c"), s("def"));
    InMemoryConfiguration::new(config)
}

fn record(container: &str, namespace: &str, pod: &str, log: &str) -> LogRecord {
    LogRecord {
        container_name: Some(s(container)),
        namespace_name: Some(s(namespace)),
        pod_name: Some(s(pod)),
        log: Some(s(log)),
    }
}

fn keeps(container: &str, namespace: &str, pod: &str, log: &str) -> bool {
    match filter_log(&record(container, namespace, pod, log), &wildcard_and_exact_config()) {
        Ok(keep) => keep,
        Err(_) => panic!("the record should be decided"),
    }
}

#[test]
fn filter_when_wildcard_is_used_and_log_does_not_match() {
    assert_eq!(keeps("container1", "namespace1", "pod1", "test"), false);
}

#[test]
fn filter_when_wildcard_is_used_and_log_matches() {
    assert_eq!(keeps("container1", "namespace1", "pod1", "abc"), true);
}

#[test]
fn filter_when_no_match_is_found() {
    assert_eq!(keeps("a", "b", "c", "test"), false);
}

#[test]
fn filter_when_exact_match_is_found() {
    assert_eq!(keeps("a", "b", "c", "def"), true);
}

#[test]
fn filter_when_exact_match_is_found_as_a_substring() {
    assert_eq!(keeps("a", "b", "c", "adefg"), true);
}

#[test]
fn filter_when_pod_name_is_from_a_deployment() {
    assert_eq!(keeps("a", "b", "document-generation-6499cbb75b-65lmt", "xyz"), true);
}

#[test]
fn filter_when_pod_name_is_from_a_statefulset() {
    assert_eq!(keeps("a", "b", "argocd-application-controller-0", "xyz"), true);
}

#[test]
fn filter_when_pod_name_is_invalid() {
    assert_eq!(keeps("a", "b", "argocd-application-controller-d", "xyz"), false);
}

#[test]
fn extract_pod_name_when_pod_name_is_from_a_statefulset() {
    assert_eq!(extract_pod_name("argocd-application-controller-0"), "argocd-application-controller");
}

#[test]
fn extract_pod_name_when_pod_name_is_invalid() {
    assert_eq!(extract_pod_name("argocd-application-controller-d"), "argocd-application-controller-d");
}

#[test]
fn extract_pod_name_when_pod_name_is_from_a_deployment() {
    assert_eq!(extract_pod_name("document-generation-6499cbb75b-65lmt"), "document-generation");
}

#[test]
fn extract_pod_name_when_pod_name_is_from_a_job_or_daemonset() {
    assert_eq!(extract_pod_name("worker-12438-m76v7"), "worker-12438");
}

#[test]
fn extract_pod_name_keeps_bare_names() {
    assert_eq!(extract_pod_name("worker"), "worker");
    assert_eq!(extract_pod_name(""), "");
    assert_eq!(extract_pod_name("-0"), "-0");
    assert_eq!(extract_pod_name("api-12ab"), "api-12ab");
}

#[test]
fn extract_pod_name_ordinal_with_many_digits() {
    assert_eq!(extract_pod_name("db-1234567"), "db");
}

#[test]
fn extract_pod_name_replica_suffix_wins_over_short_suffix() {
    assert_eq!(extract_pod_name("web-abcdefghij-klmno"), "web");
}

#[test]
fn extract_pod_name_percent_is_not_a_token_char() {
    assert_eq!(extract_pod_name("web-abcd%"), "web-abcd%");
}

#[test]
fn extract_pod_name_idempotent_on_bare_name() {
    let once = extract_pod_name("argocd-application-controller-d");
    assert_eq!(extract_pod_name(&once), once);
}

#[test]
fn no_rule_keeps_the_record() {
    let config = InMemoryConfiguration::new(FilterConfig::new());
    let r = filter_log(&record("x", "y", "z", "anything"), &config);
    assert!(matches!(r, Ok(true)));
}

#[test]
fn absent_identity_fields_are_empty() {
    let mut config = FilterConfig::new();
    config.insert(s(""), s(""), s(""), s("^only$"));
    let source = InMemoryConfiguration::new(config);
    let rec = LogRecord { container_name: None, namespace_name: None, pod_name: None, log: Some(s("nope")) };
    assert!(matches!(filter_log(&rec, &source), Ok(false)));
    let rec = LogRecord { container_name: None, namespace_name: None, pod_name: None, log: Some(s("only")) };
    assert!(matches!(filter_log(&rec, &source), Ok(true)));
}

#[test]
fn missing_log_is_an_error() {
    let rec = LogRecord { container_name: Some(s("a")), namespace_name: None, pod_name: None, log: None };
    assert!(matches!(filter_log(&rec, &wildcard_and_exact_config()), Err(FilterError::MissingLog)));
}

#[test]
fn invalid_pattern_names_its_key() {
    let mut config = FilterConfig::new();
    config.insert(s("a"), s("*"), s("web"), s("(unclosed"));
    let source = InMemoryConfiguration::new(config);
    match filter_log(&record("a", "b", "web-0", "log"), &source) {
        Err(FilterError::InvalidPattern { container, namespace, pod, pattern }) => {
            assert_eq!(container, "a");
            assert_eq!(namespace, "*");
            assert_eq!(pod, "web");
            assert_eq!(pattern, "(unclosed");
        }
        _ => panic!("expected an invalid pattern error"),
    }
}

#[test]
fn end_to_end_deployment_pod_resolves_pod_wildcard() {
    let source = wildcard_and_exact_config();
    let pod = extract_pod_name("document-generation-6499cbb75b-65lmt");
    assert_eq!(pod, "document-generation");
    assert_eq!(get_filter("a", "b", &pod, &source), Some(s("xyz")));
    assert_eq!(keeps("a", "b", "document-generation-6499cbb75b-65lmt", "xyz"), true);
}

#[test]
fn exact_key_preferred_over_wildcards() {
    let mut config = FilterConfig::new();
    config.insert(s("*"), s("*"), s("*"), s("w"));
    config.insert(s("c"), s("n"), s("*"), s("cn"));
    config.insert(s("c"), s("n"), s("p"), s("exact"));
    let source = InMemoryConfiguration::new(config);
    assert_eq!(get_filter("c", "n", "p", &source), Some(s("exact")));
}

#[test]
fn precedence_containers_then_pods_then_namespaces() {
    let mut config = FilterConfig::new();
    config.insert(s("*"), s("n"), s("*"), s("ns"));
    let source = InMemoryConfiguration::new(config);
    assert_eq!(get_filter("c", "n", "p", &source), Some(s("ns")));

    let mut config = FilterConfig::new();
    config.insert(s("*"), s("n"), s("*"), s("ns"));
    config.insert(s("*"), s("*"), s("p"), s("pod"));
    let source = InMemoryConfiguration::new(config);
    assert_eq!(get_filter("c", "n", "p", &source), Some(s("pod")));

    let mut config = FilterConfig::new();
    config.insert(s("*"), s("n"), s("*"), s("ns"));
    config.insert(s("*"), s("*"), s("p"), s("pod"));
    config.insert(s("*"), s("n"), s("p"), s("nspod"));
    let source = InMemoryConfiguration::new(config);
    assert_eq!(get_filter("c", "n", "p", &source), Some(s("nspod")));

    let mut config = FilterConfig::new();
    config.insert(s("*"), s("n"), s("*"), s("ns"));
    config.insert(s("*"), s("*"), s("p"), s("pod"));
    config.insert(s("*"), s("n"), s("p"), s("nspod"));
    config.insert(s("c"), s("*"), s("p"), s("container"));
    let source = InMemoryConfiguration::new(config);
    assert_eq!(get_filter("c", "n", "p", &source), Some(s("container")));
}

#[test]
fn later_insert_replaces_earlier() {
    let mut config = FilterConfig::new();
    config.insert(s("a"), s("b"), s("c"), s("first"));
    config.insert(s("a"), s("b"), s("c"), s("second"));
    let source = InMemoryConfiguration::new(config);
    assert_eq!(get_filter("a", "b", "c", &source), Some(s("second")));
    assert!(source.get_config().lookup("a", "b", "x").is_none());
}

#[test]
fn no_filter_when_nothing_configured() {
    let source = ConfigFileConfiguration::new(FilterConfig::new());
    assert_eq!(get_filter("a", "b", "c", &source), None);
}

#[test]
fn record_bytes_forwarded_only_when_kept() {
    let source = wildcard_and_exact_config();
    let bytes = b"{\"log\":\"abc\"}".to_vec();
    let kept = filter_record(&bytes, &record("x", "y", "z", "abc"), &source);
    assert!(matches!(kept, Ok(Some(ref v)) if *v == bytes));
    let dropped = filter_record(&bytes, &record("x", "y", "z", "test"), &source);
    assert!(matches!(dropped, Ok(None)));
}

#[test]
fn replies_for_keep_and_skip() {
    assert_eq!(keep_log(&[1, 2, 3]), Some(vec![1, 2, 3]));
    assert_eq!(keep_log(&[]), Some(vec![]));
    assert_eq!(skip_log(), None);
}

#[test]
fn config_file_path_default_and_override() {
    assert_eq!(get_config_file_path(None), "./config.json");
    assert_eq!(get_config_file_path(Some(s(""))), "./config.json");
    assert_eq!(get_config_file_path(Some(s("/etc/filter.json"))), "/etc/filter.json");
}
