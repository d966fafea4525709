use cnut::document::{merge_table, merge_value, update_toml, TomlTable, TomlValue};
use cnut::materialize::{accounts, chainspec_overrides, config_overrides, derive_chainspec, derive_config, known_addresses};
use cnut::builder::{Artifacts, Network, Node};
use cnut::planner::plan;

fn get<'a>(t: &'a TomlTable, key: &str) -> Option<&'a TomlValue> {
    t.entries.iter().rev().find(|(k, _)| k == key).map(|(_, v)| v)
}

fn table<'a>(v: Option<&'a TomlValue>) -> &'a TomlTable {
    match v {
        Some(TomlValue::Table(t)) => t,
        _ => panic!("expected a table"),
    }
}

fn text(v: Option<&TomlValue>) -> &str {
    match v {
        Some(TomlValue::String(s)) => s.as_str(),
        _ => panic!("expected a string"),
    }
}

fn integer(v: Option<&TomlValue>) -> i64 {
    match v {
        Some(TomlValue::Integer(i)) => *i,
        _ => panic!("expected an integer"),
    }
}

fn tbl(entries: Vec<(&str, TomlValue)>) -> TomlTable {
    let mut t = TomlTable::new();
    for (k, v) in entries {
        t.insert(k.to_string(), v);
    }
    t
}

fn s(x: &str) -> TomlValue {
    TomlValue::String(x.to_string())
}

fn sample_base() -> TomlTable {
    tbl(vec![
        ("network", TomlValue::Table(tbl(vec![("bind_address", s("0.0.0.0:1")), ("gossip", TomlValue::Integer(5))]))),
        ("storage", TomlValue::Table(tbl(vec![("path", s("/var/lib"))]))),
        ("debug", TomlValue::Boolean(true)),
    ])
}

fn render(v: &TomlValue) -> String {
    match v {
        TomlValue::String(s) => format!("{s:?}"),
        TomlValue::Integer(i) => i.to_string(),
        TomlValue::Boolean(b) => b.to_string(),
        TomlValue::Array(a) => format!("[{}]", a.iter().map(render).collect::<Vec<_>>().join(",")),
        TomlValue::Table(t) => render_table(t),
        TomlValue::Other(o) => o.to_string(),
    }
}

fn render_table(t: &TomlTable) -> String {
    let mut keys: Vec<&String> = t.entries.iter().map(|(k, _)| k).collect();
    keys.sort();
    keys.dedup();
    let parts: Vec<String> = keys.iter().map(|k| format!("{k}={}", render(get(t, k).unwrap()))).collect();
    format!("{{{}}}", parts.join(","))
}

#[test]
fn merge_with_empty_overrides_keeps_base() {
    let merged = merge_table(sample_base(), TomlTable::new());
    assert_eq!(render_table(&merged), render_table(&sample_base()));
}

#[test]
fn merge_twice_equals_merge_once() {
    let over = || tbl(vec![
        ("network", TomlValue::Table(tbl(vec![("bind_address", s("0.0.0.0:34000")), ("extra", TomlValue::Table(tbl(vec![("x", TomlValue::Integer(1))])))]))),
        ("debug", TomlValue::Table(tbl(vec![("level", s("high"))]))),
    ]);
    let once = merge_table(sample_base(), over());
    let twice = merge_table(merge_table(sample_base(), over()), over());
    assert_eq!(render_table(&once), render_table(&twice));
}

#[test]
fn merge_recurses_into_tables_and_replaces_other_values() {
    let over = tbl(vec![
        ("network", TomlValue::Table(tbl(vec![("bind_address", s("0.0.0.0:34000"))]))),
        ("storage", s("flat")),
        ("debug", TomlValue::Table(tbl(vec![("level", TomlValue::Integer(3))]))),
        ("new", TomlValue::Table(tbl(vec![("k", TomlValue::Boolean(false))]))),
    ]);
    let merged = merge_table(sample_base(), over);
    let network = table(get(&merged, "network"));
    assert_eq!(text(get(network, "bind_address")), "0.0.0.0:34000");
    assert_eq!(integer(get(network, "gossip")), 5);
    assert_eq!(text(get(&merged, "storage")), "flat");
    assert_eq!(integer(get(table(get(&merged, "debug")), "level")), 3);
    assert!(matches!(get(table(get(&merged, "new")), "k"), Some(TomlValue::Boolean(false))));
}

#[test]
fn update_toml_on_a_scalar_gives_the_updates() {
    let updates = tbl(vec![("a", TomlValue::Integer(1))]);
    let r = update_toml(TomlValue::Integer(9), updates);
    assert_eq!(render(&r), "{a=1}");
    let r = merge_value(TomlValue::Table(sample_base()), TomlValue::Integer(2));
    assert_eq!(render(&r), "2");
}

#[test]
fn table_insert_replaces_existing_key() {
    let mut t = TomlTable::new();
    t.insert("k".to_string(), TomlValue::Integer(1));
    t.insert("k".to_string(), TomlValue::Integer(2));
    assert_eq!(t.entries.len(), 1);
    assert_eq!(integer(get(&t, "k")), 2);
}

#[test]
fn chainspec_overrides_content() {
    let t = chainspec_overrides(3, "2024-01-01T00:00:01.000Z");
    assert_eq!(integer(get(table(get(&t, "core")), "validator_slots")), 3);
    let protocol = table(get(&t, "protocol"));
    assert_eq!(text(get(protocol, "activation_point")), "2024-01-01T00:00:01.000Z");
    assert_eq!(text(get(protocol, "version")), "1.0.0");
}

#[test]
fn known_addresses_mesh() {
    let k = known_addresses(3);
    assert_eq!(k, vec!["127.0.0.1:34000", "127.0.0.1:34001", "127.0.0.1:34002"]);
    assert!(known_addresses(0).is_empty());
}

#[test]
fn three_validator_configs_share_the_mesh() {
    let n = Network::new().with(Node::validator(Artifacts::from_path("/a".to_string())).times(3).name("g".to_string()));
    let p = plan(&n, "/tmp/x").ok().unwrap();
    let known = known_addresses(p.instances.len());
    let mut meshes = Vec::new();
    for d in &p.instances {
        let c = config_overrides(d, &known);
        let network = table(get(&c, "network"));
        assert_eq!(text(get(network, "bind_address")), format!("0.0.0.0:{}", d.bind_port));
        match get(network, "known_addresses") {
            Some(TomlValue::Array(a)) => {
                assert_eq!(a.len(), 3);
                meshes.push(a.iter().map(render).collect::<Vec<_>>());
            }
            _ => panic!("expected an array"),
        }
        assert_eq!(text(get(table(get(&c, "rpc_server")), "address")), format!("0.0.0.0:{}", d.rpc_port));
        assert_eq!(text(get(table(get(&c, "rest_server")), "address")), format!("0.0.0.0:{}", d.rest_port));
        assert_eq!(
            text(get(table(get(&c, "speculative_exec_server")), "address")),
            format!("0.0.0.0:{}", d.speculative_execution_port)
        );
        assert_eq!(
            text(get(table(get(&c, "event_stream_server")), "address")),
            format!("0.0.0.0:{}", d.event_stream_port)
        );
        assert_eq!(text(get(table(get(&c, "storage")), "path")), "./node-storage");
    }
    assert_eq!(meshes.len(), 3);
    assert!(meshes.iter().all(|m| m == &meshes[0]));

    let entries: Vec<(String, bool)> = (0..3).map(|i| (format!("01{i:02}"), true)).collect();
    let acc = accounts(&entries);
    match get(&acc, "accounts") {
        Some(TomlValue::Array(list)) => {
            assert_eq!(list.len(), 3);
            for (i, entry) in list.iter().enumerate() {
                let entry = table(Some(entry));
                assert_eq!(text(get(entry, "public_key")), format!("01{i:02}"));
                assert_eq!(text(get(entry, "balance")), "1000000000000000000000000000");
                assert_eq!(text(get(table(get(entry, "validator")), "bonded_amount")), "500000000000000");
            }
        }
        _ => panic!("expected an array"),
    }
}

#[test]
fn observer_account_has_no_bond() {
    let acc = accounts(&vec![("02ab".to_string(), false)]);
    match get(&acc, "accounts") {
        Some(TomlValue::Array(list)) => {
            let entry = table(Some(&list[0]));
            assert!(get(entry, "validator").is_none());
            assert_eq!(entry.entries.len(), 2);
        }
        _ => panic!("expected an array"),
    }
}

#[test]
fn derived_config_keeps_template_keys() {
    let n = Network::new().with(Node::validator(Artifacts::from_path("/a".to_string())));
    let p = plan(&n, "/tmp/y").ok().unwrap();
    let d = &p.instances[0];
    let template = TomlValue::Table(tbl(vec![
        ("network", TomlValue::Table(tbl(vec![("gossip_interval", s("30s")), ("bind_address", s("old"))]))),
        ("consensus", TomlValue::Table(tbl(vec![("ratio", TomlValue::Other(toml::Value::Float(0.5)))]))),
    ]));
    let derived = match derive_config(template, d, &known_addresses(1)) {
        TomlValue::Table(t) => t,
        _ => panic!("expected a table"),
    };
    let network = table(get(&derived, "network"));
    assert_eq!(text(get(network, "gossip_interval")), "30s");
    assert_eq!(text(get(network, "bind_address")), "0.0.0.0:34000");
    assert!(matches!(get(table(get(&derived, "consensus")), "ratio"), Some(TomlValue::Other(toml::Value::Float(f))) if *f == 0.5));
    assert_eq!(text(get(table(get(&derived, "storage")), "path")), "./node-storage");

    let chainspec = match derive_chainspec(TomlValue::Table(tbl(vec![("core", TomlValue::Table(tbl(vec![("era", TomlValue::Integer(9))])))])), 4, "t") {
        TomlValue::Table(t) => t,
        _ => panic!("expected a table"),
    };
    let core = table(get(&chainspec, "core"));
    assert_eq!(integer(get(core, "era")), 9);
    assert_eq!(integer(get(core, "validator_slots")), 4);
}
