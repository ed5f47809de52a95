use portscan::document::ConfigValue;
use portscan::{Prober, ProbeRegistry};

const LOAD_ERROR: &str = "Cannot read probe registry file";

const PROBES: &str = r#"
[[probe]]
name = "http"
ports = [80, 8080]
payload = "GET / HTTP/1.0\r\n\r\n"
match_regex = "Server: .*"

[[probe]]
name = "ssh"
ports = [22]
match_regex = "SSH-[0-9.]+"

[[probe]]
name = "proxy"
ports = [8080, 3128, 8080]
payload = ""
match_regex = "Via: .*"
"#;

fn text(value: &str) -> ConfigValue {
    ConfigValue::Text(value.to_string())
}

fn table(entries: Vec<(&str, ConfigValue)>) -> ConfigValue {
    ConfigValue::Table(entries.into_iter().map(|(key, value)| (key.to_string(), value)).collect())
}

fn ports(numbers: &[i64]) -> ConfigValue {
    ConfigValue::Array(numbers.iter().map(|number| ConfigValue::Integer(*number)).collect())
}

fn entry(name: &str, numbers: &[i64], pattern: &str) -> ConfigValue {
    table(vec![("name", text(name)), ("ports", ports(numbers)), ("match_regex", text(pattern))])
}

fn document(entries: Vec<ConfigValue>) -> ConfigValue {
    table(vec![("probe", ConfigValue::Array(entries))])
}

fn load_fails(source: &str) {
    match ProbeRegistry::new(Some(source)) {
        Ok(_) => panic!("loaded {:?}", source),
        Err(message) => assert_eq!(message, LOAD_ERROR),
    }
}

fn document_fails(doc: ConfigValue) {
    match ProbeRegistry::from_document(&doc) {
        Ok(_) => panic!("loaded {:?}", doc),
        Err(message) => assert_eq!(message, LOAD_ERROR),
    }
}

#[test]
fn registry_loads_every_probe_in_order() {
    let registry = ProbeRegistry::new(Some(PROBES)).unwrap();
    assert_eq!(registry.len(), 3);
    let http = registry.get(0).unwrap();
    assert_eq!(http.service_name(), "http");
    assert_eq!(http.default_ports(), &[80, 8080]);
    assert_eq!(http.payload_to_send(), Some("GET / HTTP/1.0\r\n\r\n".to_string()));
    assert_eq!(http.match_regex(), "Server: .*");
    let ssh = registry.get(1).unwrap();
    assert_eq!(ssh.service_name(), "ssh");
    assert_eq!(ssh.default_ports(), &[22]);
    assert_eq!(ssh.payload_to_send(), None);
    let proxy = registry.get(2).unwrap();
    assert_eq!(proxy.service_name(), "proxy");
    assert_eq!(proxy.payload_to_send(), None);
    assert!(registry.get(3).is_none());
}

#[test]
fn registry_indexes_probes_by_port() {
    let registry = ProbeRegistry::new(Some(PROBES)).unwrap();
    assert_eq!(registry.candidates(80), vec![0]);
    assert_eq!(registry.candidates(22), vec![1]);
    assert_eq!(registry.candidates(3128), vec![2]);
    assert_eq!(registry.candidates(8080), vec![0, 2, 2]);
    assert_eq!(registry.candidates(443), Vec::<usize>::new());
    assert_eq!(registry.candidates(0), Vec::<usize>::new());
}

#[test]
fn loading_twice_gives_the_same_index() {
    let first = ProbeRegistry::new(Some(PROBES)).unwrap();
    let second = ProbeRegistry::new(Some(PROBES)).unwrap();
    for port in 0..=65535u16 {
        assert_eq!(first.candidates(port), second.candidates(port));
    }
    assert_eq!(first.len(), second.len());
}

#[test]
fn registry_without_probes_is_empty() {
    let registry = ProbeRegistry::new(Some("probe = []")).unwrap();
    assert_eq!(registry.len(), 0);
    assert_eq!(registry.candidates(80), Vec::<usize>::new());
}

#[test]
fn entry_without_match_regex_fails_the_whole_load() {
    load_fails(
        r#"
[[probe]]
name = "http"
ports = [80]
match_regex = "Server: .*"

[[probe]]
name = "ssh"
ports = [22]
"#,
    );
}

#[test]
fn unreadable_source_fails_the_load() {
    match ProbeRegistry::new(None) {
        Ok(_) => panic!("loaded nothing"),
        Err(message) => assert_eq!(message, LOAD_ERROR),
    }
}

#[test]
fn malformed_source_fails_the_load() {
    load_fails("[[probe]\nname = ");
    load_fails("this is no document");
}

#[test]
fn source_without_probe_array_fails_the_load() {
    load_fails("");
    load_fails("title = \"probes\"");
    load_fails("probe = 3");
    load_fails("[probe]\nname = \"http\"\nports = [80]\nmatch_regex = \"x\"");
    load_fails("probe = [1, 2]");
}

#[test]
fn entry_without_name_fails_the_load() {
    load_fails("[[probe]]\nports = [80]\nmatch_regex = \"x\"");
    load_fails("[[probe]]\nname = 7\nports = [80]\nmatch_regex = \"x\"");
}

#[test]
fn entry_without_ports_fails_the_load() {
    load_fails("[[probe]]\nname = \"http\"\nmatch_regex = \"x\"");
    load_fails("[[probe]]\nname = \"http\"\nports = []\nmatch_regex = \"x\"");
    load_fails("[[probe]]\nname = \"http\"\nports = 80\nmatch_regex = \"x\"");
    load_fails("[[probe]]\nname = \"http\"\nports = [\"80\"]\nmatch_regex = \"x\"");
    load_fails("[[probe]]\nname = \"http\"\nports = [80.0]\nmatch_regex = \"x\"");
}

#[test]
fn entry_with_a_payload_that_is_no_text_fails_the_load() {
    load_fails("[[probe]]\nname = \"http\"\nports = [80]\npayload = 1\nmatch_regex = \"x\"");
    load_fails("[[probe]]\nname = \"http\"\nports = [80]\npayload = true\nmatch_regex = \"x\"");
}

#[test]
fn pattern_that_does_not_compile_fails_the_load() {
    load_fails("[[probe]]\nname = \"http\"\nports = [80]\nmatch_regex = \"foo(bar\"");
    load_fails("[[probe]]\nname = \"http\"\nports = [80]\nmatch_regex = 5");
    load_fails("[[probe]]\nname = \"http\"\nports = [80]\nmatch_regex = '\\w{1000}'");
}

#[test]
fn port_numbers_keep_their_lowest_sixteen_bits() {
    let registry = ProbeRegistry::new(Some(
        "[[probe]]\nname = \"odd\"\nports = [70000, -1, 65536, 65535, -65536]\nmatch_regex = \"x\"",
    ))
    .unwrap();
    assert_eq!(registry.get(0).unwrap().default_ports(), &[4464, 65535, 0, 65535, 0]);
    assert_eq!(registry.candidates(4464), vec![0]);
    assert_eq!(registry.candidates(65535), vec![0, 0]);
    assert_eq!(registry.candidates(0), vec![0, 0]);
}

#[test]
fn the_greatest_and_least_integers_are_ports_too() {
    let doc = document(vec![entry("edge", &[i64::MAX, i64::MIN, i64::MIN + 1], "x")]);
    let registry = ProbeRegistry::from_document(&doc).unwrap();
    assert_eq!(registry.get(0).unwrap().default_ports(), &[65535, 0, 1]);
}

#[test]
fn registry_loads_from_a_document() {
    let doc = document(vec![
        entry("http", &[80, 8080], "Server: .*"),
        table(vec![
            ("match_regex", text("SSH-.*")),
            ("payload", text("hello")),
            ("ports", ports(&[22])),
            ("name", text("ssh")),
            ("comment", ConfigValue::Boolean(true)),
        ]),
    ]);
    let registry = ProbeRegistry::from_document(&doc).unwrap();
    assert_eq!(registry.len(), 2);
    assert_eq!(registry.get(1).unwrap().service_name(), "ssh");
    assert_eq!(registry.get(1).unwrap().payload_to_send(), Some("hello".to_string()));
    assert_eq!(registry.candidates(8080), vec![0]);
    assert_eq!(registry.candidates(22), vec![1]);
}

#[test]
fn the_first_entry_under_a_key_counts() {
    let doc = table(vec![
        ("probe", ConfigValue::Array(vec![entry("first", &[1], "x")])),
        ("probe", ConfigValue::Array(vec![entry("second", &[2], "x")])),
    ]);
    let registry = ProbeRegistry::from_document(&doc).unwrap();
    assert_eq!(registry.get(0).unwrap().service_name(), "first");
    assert_eq!(doc.get("probe"), Some(&ConfigValue::Array(vec![entry("first", &[1], "x")])));
    assert_eq!(doc.get("other"), None);
    assert_eq!(text("probe").get("probe"), None);
}

#[test]
fn document_that_is_no_probe_table_fails_the_load() {
    document_fails(text("probe"));
    document_fails(ConfigValue::Array(vec![]));
    document_fails(table(vec![]));
    document_fails(table(vec![("probe", ConfigValue::Float)]));
    document_fails(table(vec![("probe", ConfigValue::Datetime)]));
    document_fails(document(vec![ConfigValue::Integer(1)]));
    document_fails(document(vec![entry("ok", &[1], "x"), table(vec![])]));
}

#[test]
fn document_entry_with_a_missing_field_fails_the_load() {
    document_fails(document(vec![table(vec![("ports", ports(&[1])), ("match_regex", text("x"))])]));
    document_fails(document(vec![table(vec![("name", text("n")), ("match_regex", text("x"))])]));
    document_fails(document(vec![table(vec![("name", text("n")), ("ports", ports(&[1]))])]));
    document_fails(document(vec![entry("n", &[], "x")]));
    document_fails(document(vec![entry("n", &[1], "(")]));
    document_fails(document(vec![table(vec![
        ("name", text("n")),
        ("ports", ConfigValue::Array(vec![ConfigValue::Integer(1), ConfigValue::Float])),
        ("match_regex", text("x")),
    ])]));
    document_fails(document(vec![table(vec![
        ("name", text("n")),
        ("ports", ports(&[1])),
        ("payload", ConfigValue::Integer(1)),
        ("match_regex", text("x")),
    ])]));
}

#[test]
fn a_failed_load_leaves_no_registry() {
    let doc = document(vec![
        entry("http", &[80], "Server: .*"),
        entry("ssh", &[22], "SSH-.*"),
        table(vec![("name", text("broken")), ("ports", ports(&[23]))]),
    ]);
    assert!(ProbeRegistry::from_document(&doc).is_err());
}

#[test]
fn values_of_every_kind_are_read_from_a_source() {
    let registry = ProbeRegistry::new(Some(
        r#"
title = "probes"
ratio = 0.5
when = 1979-05-27T07:32:00Z
flag = true

[[probe]]
name = "http"
ports = [80]
match_regex = "x"
weight = 1.5
"#,
    ))
    .unwrap();
    assert_eq!(registry.len(), 1);
}
