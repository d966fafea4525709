use cnut::builder::{Artifacts, ArtifactsBuilder, Chainspec, Location, Network, Node, NodeConfig, TagOrHash};
use cnut::naming::LettersGen;
use cnut::planner::{plan, PlanError, MAX_NODES};
use cnut::ports;
use cnut::supervisor::{node_by_index, node_by_name, LookupError};

fn artifacts() -> Artifacts {
    Artifacts::from_path("/opt/bundle".to_string())
}

#[test]
fn letters_follow_bijective_base_26() {
    let mut gen = LettersGen::new();
    let names: Vec<String> = (0..60).map(|_| gen.next()).collect();
    assert_eq!(names[0], "A");
    assert_eq!(names[1], "B");
    assert_eq!(names[25], "Z");
    assert_eq!(names[26], "AA");
    assert_eq!(names[27], "AB");
    assert_eq!(names[51], "AZ");
    assert_eq!(names[52], "BA");
    let mut sorted = names.clone();
    sorted.sort();
    sorted.dedup();
    assert_eq!(sorted.len(), names.len());
}

#[test]
fn letters_reach_three_letters_after_zz() {
    let mut gen = LettersGen::new();
    let mut last = String::new();
    for _ in 0..(26 + 26 * 26 + 1) {
        last = gen.next();
    }
    assert_eq!(last, "AAA");
}

#[test]
fn port_formulas() {
    assert_eq!(ports::bind(0), 34000);
    assert_eq!(ports::bind(7), 34007);
    assert_eq!(ports::spec(2), 6668);
    assert_eq!(ports::rpc(3), 7780);
    assert_eq!(ports::rest(4), 8892);
    assert_eq!(ports::event_stream(5), 10004);
}

#[test]
fn artifacts_paths() {
    let a = artifacts();
    assert_eq!(a.config_path(), "/opt/bundle/config.toml");
    assert_eq!(a.chainspec_path(), "/opt/bundle/chainspec.toml");
    let b = Artifacts::from_path("dir/".to_string());
    assert_eq!(b.config_path(), "dir/config.toml");
}

#[test]
fn artifacts_builder_locations() {
    let b = Artifacts::builder();
    assert!(b.compile.is_none());
    assert_eq!(b.local_project(), Some("../casper-node".to_string()));
    assert!(b.should_compile());
    let b = Artifacts::builder().local_path("/src/node".to_string()).compile(false);
    assert_eq!(b.local_project(), Some("/src/node".to_string()));
    assert!(!b.should_compile());
    let b: ArtifactsBuilder = Artifacts::builder().repo_tag("https://example.org/r.git".to_string(), "v1".to_string());
    assert!(b.local_project().is_none());
    assert!(!b.should_compile());
    match b.location {
        Location::Remote { url: Some(u), reference: TagOrHash::Tag(t) } => {
            assert_eq!(u, "https://example.org/r.git");
            assert_eq!(t, "v1");
        }
        _ => panic!("expected a remote tag"),
    }
    let b = Artifacts::builder().hash("abc123".to_string()).compile(true);
    assert!(b.should_compile());
    assert!(matches!(b.location, Location::Remote { url: None, reference: TagOrHash::Hash(_) }));
    let b = Artifacts::builder().tag("v2".to_string());
    assert!(matches!(b.location, Location::Remote { url: None, reference: TagOrHash::Tag(_) }));
    let b = Artifacts::builder().repo_hash("u".to_string(), "h".to_string());
    assert!(matches!(b.location, Location::Remote { url: Some(_), reference: TagOrHash::Hash(_) }));
}

#[test]
fn network_builder_and_chainspec_resolution() {
    let empty = Network::new();
    assert!(empty.chainspec().is_none());
    assert_eq!(empty.amount_nodes(), 0);

    let n = Network::new()
        .with(Node::validator(artifacts()).times(5).name("Alice".to_string()))
        .with(Node::keep_up(artifacts()).name("Bob".to_string()));
    assert_eq!(n.amount_nodes(), 6);
    assert_eq!(n.chainspec(), Some("/opt/bundle/chainspec.toml".to_string()));

    let n = n.with(Chainspec::Path("/custom/chainspec.toml".to_string()));
    assert_eq!(n.chainspec(), Some("/custom/chainspec.toml".to_string()));
    assert_eq!(n.nodes.len(), 2);
}

#[test]
fn three_validators_in_one_group() {
    let n = Network::new().with(Node::validator(artifacts()).times(3).name("val".to_string()));
    let p = plan(&n, "/tmp/net").ok().unwrap();
    assert_eq!(p.chainspec, "/opt/bundle/chainspec.toml");
    let names: Vec<&str> = p.instances.iter().map(|d| d.name.as_str()).collect();
    assert_eq!(names, vec!["val/0", "val/1", "val/2"]);
    assert_eq!(p.instances[1].data_dir, "/tmp/net/val/1");
    assert!(p.instances.iter().all(|d| d.validator));
    assert!(p.instances.iter().all(|d| d.default_config_path == "/opt/bundle/config.toml"));
    assert_eq!(p.instances[2].rpc_port, 7779);
    assert_eq!(p.instances[2].bind_port, 34002);
}

#[test]
fn unnamed_groups_get_letters_and_named_ones_take_none() {
    let n = Network::new()
        .with(Node::validator(artifacts()))
        .with(Node::keep_up(artifacts()).name("Bob".to_string()))
        .with(Node::validator(artifacts()).times(2))
        .with(Node::validator(artifacts()).times(0));
    let p = plan(&n, "/base").ok().unwrap();
    let names: Vec<&str> = p.instances.iter().map(|d| d.name.as_str()).collect();
    assert_eq!(names, vec!["Node_A", "Bob", "Node_B/0", "Node_B/1"]);
    assert_eq!(p.instances[0].data_dir, "/base/Node_A");
    assert!(!p.instances[1].validator);
    let idx: Vec<usize> = p.instances.iter().map(|d| d.index).collect();
    assert_eq!(idx, vec![0, 1, 2, 3]);
}

#[test]
fn group_config_override_wins() {
    let n = Network::new()
        .with(Node::validator(artifacts()).config(NodeConfig::Path("/etc/custom.toml".to_string())))
        .with(Node::validator(Artifacts::from_path("/other".to_string())).config(NodeConfig::Artifacts(artifacts())));
    let p = plan(&n, "/b").ok().unwrap();
    assert_eq!(p.instances[0].default_config_path, "/etc/custom.toml");
    assert_eq!(p.instances[1].default_config_path, "/opt/bundle/config.toml");
    assert_eq!(p.instances[1].artifact_dir, "/other");
}

#[test]
fn plan_without_chainspec_source_fails() {
    let n = Network::new();
    assert_eq!(plan(&n, "/b").err(), Some(PlanError::NoChainspec));
    let n = Network::new().with(Chainspec::Path("/c.toml".to_string()));
    let p = plan(&n, "/b").ok().unwrap();
    assert!(p.instances.is_empty());
    assert_eq!(p.chainspec, "/c.toml");
}

#[test]
fn plan_with_too_many_nodes_fails() {
    let n = Network::new().with(Node::validator(artifacts()).times(MAX_NODES + 1));
    assert_eq!(plan(&n, "/b").err(), Some(PlanError::TooManyNodes));
    let n = Network::new()
        .with(Node::validator(artifacts()).times(MAX_NODES))
        .with(Node::validator(artifacts()).times(usize::MAX));
    assert_eq!(plan(&n, "/b").err(), Some(PlanError::TooManyNodes));
}

#[test]
fn plan_stops_where_ports_would_collide() {
    let n = Network::new().with(Node::validator(artifacts()).times(1112));
    assert_eq!(plan(&n, "/b").err(), Some(PlanError::TooManyNodes));
    let n = Network::new().with(Node::validator(artifacts()).times(1111));
    let p = plan(&n, "/b").ok().unwrap();
    let mut all = Vec::new();
    for d in &p.instances {
        all.extend([d.bind_port, d.rpc_port, d.rest_port, d.speculative_execution_port, d.event_stream_port]);
    }
    let total = all.len();
    all.sort();
    all.dedup();
    assert_eq!(all.len(), total);
}

#[test]
fn plan_ports_are_pairwise_distinct() {
    let n = Network::new()
        .with(Node::validator(artifacts()).times(40))
        .with(Node::keep_up(artifacts()).times(60))
        .with(Node::validator(artifacts()));
    let p = plan(&n, "/b").ok().unwrap();
    let mut all = Vec::new();
    for d in &p.instances {
        all.extend([d.bind_port, d.rpc_port, d.rest_port, d.speculative_execution_port, d.event_stream_port]);
    }
    let total = all.len();
    all.sort();
    all.dedup();
    assert_eq!(all.len(), total);
    assert_eq!(total, 101 * 5);
}

#[test]
fn lookups_by_name_and_index() {
    let n = Network::new().with(Node::validator(artifacts()).times(2).name("v".to_string()));
    let p = plan(&n, "/b").ok().unwrap();
    assert_eq!(node_by_name(&p.instances, "v/1"), Ok(1));
    assert_eq!(node_by_name(&p.instances, "w"), Err(LookupError::NodeNameNotFound("w".to_string())));
    assert_eq!(node_by_index(&p.instances, 0), Ok(0));
    assert_eq!(node_by_index(&p.instances, 2), Err(LookupError::NodeIndexOutOfBounds(2)));
}
