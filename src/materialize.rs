//! The documents written for a network: the chainspec and configuration
//! overrides, the mesh of known addresses and the genesis accounts.
use vstd::prelude::*;
use crate::document::{
    array_trees, merge_tree, table_wf, update_toml, value_tree, value_wf, TomlTable, TomlTree, TomlValue,
};
use crate::planner::{InstanceDescriptor, MAX_NODES};
use crate::ports::{self, port_of, Purpose};
use crate::text::{address, address_string};

verus! {

/// The balance of every genesis account.
pub open spec fn balance() -> Seq<char> {
    "1000000000000000000000000000"@
}

/// The amount bonded by every validator account.
pub open spec fn bonded_amount() -> Seq<char> {
    "500000000000000"@
}

pub open spec fn section(key: Seq<char>, value: TomlTree) -> TomlTree {
    TomlTree::Table(Map::empty().insert(key, value))
}

/// What the network changes in the chainspec template.
pub open spec fn chainspec_changes(validator_slots: int, activation_point: Seq<char>) -> Map<
    Seq<char>,
    TomlTree,
> {
    Map::empty().insert("core"@, section("validator_slots"@, TomlTree::Int(validator_slots))).insert(
        "protocol"@,
        TomlTree::Table(
            Map::empty().insert("activation_point"@, TomlTree::Str(activation_point)).insert(
                "version"@,
                TomlTree::Str("1.0.0"@),
            ),
        ),
    )
}

/// A listening address on every interface.
pub open spec fn listen(port: u16) -> TomlTree {
    TomlTree::Str(address("0.0.0.0"@, port as nat))
}

/// What an instance changes in its configuration template.
pub open spec fn config_changes(d: InstanceDescriptor, known: Seq<String>) -> Map<Seq<char>, TomlTree> {
    Map::empty().insert(
        "network"@,
        TomlTree::Table(
            Map::empty().insert("bind_address"@, listen(d.bind_port)).insert(
                "known_addresses"@,
                TomlTree::Array(known.map_values(|s: String| TomlTree::Str(s@))),
            ),
        ),
    ).insert("rpc_server"@, section("address"@, listen(d.rpc_port))).insert(
        "speculative_exec_server"@,
        section("address"@, listen(d.speculative_execution_port)),
    ).insert("rest_server"@, section("address"@, listen(d.rest_port))).insert(
        "event_stream_server"@,
        section("address"@, listen(d.event_stream_port)),
    ).insert("storage"@, section("path"@, TomlTree::Str("./node-storage"@)))
}

/// The genesis account of an instance.
pub open spec fn account_tree(public_key: Seq<char>, validator: bool) -> TomlTree {
    let base = Map::empty().insert("public_key"@, TomlTree::Str(public_key)).insert(
        "balance"@,
        TomlTree::Str(balance()),
    );
    if validator {
        TomlTree::Table(base.insert("validator"@, section("bonded_amount"@, TomlTree::Str(bonded_amount()))))
    } else {
        TomlTree::Table(base)
    }
}

fn text(s: &str) -> (r: TomlValue)
    ensures
        value_tree(r) == TomlTree::Str(s@),
        value_wf(r),
{
    TomlValue::String(s.to_string())
}

fn single(key: &str, value: TomlValue) -> (r: TomlValue)
    requires
        value_wf(value),
    ensures
        value_tree(r) == section(key@, value_tree(value)),
        value_wf(r),
{
    let mut t = TomlTable::new();
    t.insert(key.to_string(), value);
    TomlValue::Table(t)
}

/// The changes to the chainspec: as many validator slots as instances, the
/// activation point, and the protocol version `1.0.0`.
pub fn chainspec_overrides(validator_slots: i64, activation_point: &str) -> (r: TomlTable)
    ensures
        table_wf(r),
        r.tree() == chainspec_changes(validator_slots as int, activation_point@),
{
    let mut protocol = TomlTable::new();
    protocol.insert("activation_point".to_string(), text(activation_point));
    protocol.insert("version".to_string(), text("1.0.0"));
    let mut t = TomlTable::new();
    t.insert("core".to_string(), single("validator_slots", TomlValue::Integer(validator_slots)));
    t.insert("protocol".to_string(), TomlValue::Table(protocol));
    t
}

/// The network's chainspec: the template with [`chainspec_overrides`]
/// laid on top.
pub fn derive_chainspec(template: TomlValue, validator_slots: i64, activation_point: &str) -> (r: TomlValue)
    ensures
        value_tree(r) == merge_tree(
            value_tree(template),
            TomlTree::Table(chainspec_changes(validator_slots as int, activation_point@)),
        ),
{
    update_toml(template, chainspec_overrides(validator_slots, activation_point))
}

/// An instance's configuration: its template with [`config_overrides`]
/// laid on top.
pub fn derive_config(template: TomlValue, d: &InstanceDescriptor, known: &Vec<String>) -> (r: TomlValue)
    ensures
        value_tree(r) == merge_tree(value_tree(template), TomlTree::Table(config_changes(*d, known@))),
{
    update_toml(template, config_overrides(d, known))
}

/// The bind addresses of the first `count` instances, on the loopback
/// interface.
pub fn known_addresses(count: usize) -> (r: Vec<String>)
    requires
        count <= MAX_NODES,
    ensures
        r@.len() == count,
        forall|i: int|
            0 <= i < count ==> #[trigger] r@[i]@ == address(
                "127.0.0.1"@,
                port_of(Purpose::Bind, i) as nat,
            ),
{
    let mut r: Vec<String> = Vec::new();
    let mut i: usize = 0;
    while i < count
        invariant
            i <= count <= MAX_NODES,
            r@.len() == i,
            forall|j: int|
                0 <= j < i ==> #[trigger] r@[j]@ == address(
                    "127.0.0.1"@,
                    port_of(Purpose::Bind, j) as nat,
                ),
        decreases count - i,
    {
        r.push(address_string("127.0.0.1", ports::bind(i)));
        i = i + 1;
    }
    r
}

fn listen_value(port: u16) -> (r: TomlValue)
    ensures
        value_tree(r) == listen(port),
        value_wf(r),
{
    TomlValue::String(address_string("0.0.0.0", port))
}

fn text_array(items: &Vec<String>) -> (r: TomlValue)
    ensures
        value_tree(r) == TomlTree::Array(items@.map_values(|s: String| TomlTree::Str(s@))),
        value_wf(r),
{
    let mut values: Vec<TomlValue> = Vec::new();
    let mut i: usize = 0;
    while i < items.len()
        invariant
            i <= items@.len(),
            array_trees(values@) == items@.subrange(0, i as int).map_values(
                |s: String| TomlTree::Str(s@),
            ),
        decreases items@.len() - i,
    {
        let ghost before = values@;
        let item = items[i].clone();
        let value = TomlValue::String(item);
        assert(value_tree(value) == TomlTree::Str(items@[i as int]@));
        values.push(value);
        i = i + 1;
        proof {
            assert(values@.drop_last() =~= before);
            assert(values@.last() == value);
            assert(array_trees(values@) == array_trees(before).push(value_tree(value)));
            assert(items@.subrange(0, i as int).map_values(|s: String| TomlTree::Str(s@))
                =~= items@.subrange(0, i - 1).map_values(|s: String| TomlTree::Str(s@)).push(
                TomlTree::Str(items@[i - 1]@),
            ));
        }
    }
    proof {
        assert(items@.subrange(0, i as int) =~= items@);
    }
    TomlValue::Array(values)
}

/// The changes to an instance's configuration: its listening addresses,
/// the full mesh of known addresses, and its storage directory.
pub fn config_overrides(d: &InstanceDescriptor, known: &Vec<String>) -> (r: TomlTable)
    ensures
        table_wf(r),
        r.tree() == config_changes(*d, known@),
{
    let mut network = TomlTable::new();
    network.insert("bind_address".to_string(), listen_value(d.bind_port));
    network.insert("known_addresses".to_string(), text_array(known));
    let mut t = TomlTable::new();
    t.insert("network".to_string(), TomlValue::Table(network));
    t.insert("rpc_server".to_string(), single("address", listen_value(d.rpc_port)));
    t.insert(
        "speculative_exec_server".to_string(),
        single("address", listen_value(d.speculative_execution_port)),
    );
    t.insert("rest_server".to_string(), single("address", listen_value(d.rest_port)));
    t.insert("event_stream_server".to_string(), single("address", listen_value(d.event_stream_port)));
    t.insert("storage".to_string(), single("path", text("./node-storage")));
    t
}

/// The genesis accounts document: one account per instance, in order, with
/// its public key identifier and the balance, and for a validator the
/// bonded amount.
pub fn accounts(nodes: &Vec<(String, bool)>) -> (r: TomlTable)
    ensures
        table_wf(r),
        r.tree() == Map::<Seq<char>, TomlTree>::empty().insert(
            "accounts"@,
            TomlTree::Array(
                nodes@.map_values(|n: (String, bool)| account_tree(n.0@, n.1)),
            ),
        ),
{
    let mut list: Vec<TomlValue> = Vec::new();
    let mut i: usize = 0;
    while i < nodes.len()
        invariant
            i <= nodes@.len(),
            array_trees(list@) == nodes@.subrange(0, i as int).map_values(
                |n: (String, bool)| account_tree(n.0@, n.1),
            ),
            forall|j: int| 0 <= j < list@.len() ==> value_wf(#[trigger] list@[j]),
        decreases nodes@.len() - i,
    {
        let mut account = TomlTable::new();
        account.insert("public_key".to_string(), text(nodes[i].0.as_str()));
        account.insert("balance".to_string(), text("1000000000000000000000000000"));
        if nodes[i].1 {
            account.insert(
                "validator".to_string(),
                single("bonded_amount", text("500000000000000")),
            );
        }
        let ghost before = list@;
        let entry = TomlValue::Table(account);
        proof {
            assert(value_tree(entry) == account_tree(nodes@[i as int].0@, nodes@[i as int].1));
        }
        list.push(entry);
        i = i + 1;
        proof {
            assert(list@.drop_last() =~= before);
            assert(nodes@.subrange(0, i as int).map_values(
                |n: (String, bool)| account_tree(n.0@, n.1),
            ) =~= nodes@.subrange(0, i - 1).map_values(
                |n: (String, bool)| account_tree(n.0@, n.1),
            ).push(account_tree(nodes@[i - 1].0@, nodes@[i - 1].1)));
        }
    }
    proof {
        assert(nodes@.subrange(0, i as int) =~= nodes@);
    }
    let mut t = TomlTable::new();
    t.insert("accounts".to_string(), TomlValue::Array(list));
    t
}

} // verus!
