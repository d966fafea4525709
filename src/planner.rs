//! Expands a network description into a flat list of instances with names,
//! directories and ports.
use vstd::prelude::*;
use crate::builder::{chainspec_file, config_file, lemma_total_prefix, total_amount, Network, Node};
use crate::naming::{as_chars, law_letters_injective, letters, LettersGen};
use crate::paths::{join, joined};
use crate::ports::{self, port_of, Purpose, COLLISION_FREE_NODES};
use crate::text::{decimal, decimal_string, push_char};

verus! {

/// The most instances a network can have: the port bases are this far
/// apart, so up to this many instances no two ports coincide.
pub const MAX_NODES: usize = COLLISION_FREE_NODES;

/// One instance of the network, as planned.
#[derive(Debug)]
pub struct InstanceDescriptor {
    pub name: String,
    /// Where the instance runs, with its configuration and keys.
    pub data_dir: String,
    /// The directory of the node binary.
    pub artifact_dir: String,
    /// The configuration that the instance's own is derived from.
    pub default_config_path: String,
    pub validator: bool,
    /// The instance's place in the network, counting from zero.
    pub index: usize,
    pub bind_port: u16,
    pub rpc_port: u16,
    pub rest_port: u16,
    pub speculative_execution_port: u16,
    pub event_stream_port: u16,
}

impl InstanceDescriptor {
    /// The instance's link to the network's chainspec.
    pub fn chainspec_path(&self) -> (r: String)
        ensures
            r@ == joined(self.data_dir@, "chainspec.toml"@),
    {
        join(self.data_dir.as_str(), "chainspec.toml")
    }

    /// The instance's configuration.
    pub fn config_path(&self) -> (r: String)
        ensures
            r@ == joined(self.data_dir@, "config.toml"@),
    {
        join(self.data_dir.as_str(), "config.toml")
    }

    /// The instance's secret key container.
    pub fn secret_key_path(&self) -> (r: String)
        ensures
            r@ == joined(self.data_dir@, "secret_key.pem"@),
    {
        join(self.data_dir.as_str(), "secret_key.pem")
    }

    /// The instance's public key container.
    pub fn public_key_path(&self) -> (r: String)
        ensures
            r@ == joined(self.data_dir@, "public_key.pem"@),
    {
        join(self.data_dir.as_str(), "public_key.pem")
    }

    /// The instance's link to the genesis accounts.
    pub fn accounts_path(&self) -> (r: String)
        ensures
            r@ == joined(self.data_dir@, "accounts.toml"@),
    {
        join(self.data_dir.as_str(), "accounts.toml")
    }
}

/// The plan of a network.
#[derive(Debug)]
pub struct Plan {
    /// The chainspec that every instance shares.
    pub chainspec: String,
    pub instances: Vec<InstanceDescriptor>,
}

/// Why a network cannot be planned.
#[derive(PartialEq, Eq, Structural, Clone, Copy, Debug)]
pub enum PlanError {
    /// There is no explicit chainspec and no group to take one from.
    NoChainspec,
    /// More instances than [`MAX_NODES`].
    TooManyNodes,
}

/// How many of the groups before `g` have no name of their own.
pub open spec fn unnamed_before(nodes: Seq<Node>, g: int) -> nat
    decreases g,
{
    if g <= 0 {
        0
    } else {
        unnamed_before(nodes, g - 1) + if nodes[g - 1].name.is_none() {
            1nat
        } else {
            0nat
        }
    }
}

pub open spec fn node_prefix() -> Seq<char> {
    seq!['N', 'o', 'd', 'e', '_']
}

/// The name of group `g`: its own, else `Node_` and the next letters.
pub open spec fn group_name(nodes: Seq<Node>, g: int) -> Seq<char> {
    match nodes[g].name {
        Some(n) => n@,
        None => node_prefix() + as_chars(letters(unnamed_before(nodes, g))),
    }
}

/// The number of instances of the groups before `g`.
pub open spec fn offset(nodes: Seq<Node>, g: int) -> nat {
    total_amount(nodes.subrange(0, g))
}

/// The name of instance `i` of a group of `amount`.
pub open spec fn instance_name(group: Seq<char>, amount: nat, i: nat) -> Seq<char> {
    if amount == 1 {
        group
    } else {
        group + seq!['/'] + decimal(i)
    }
}

/// The directory of instance `i` of a group of `amount`.
pub open spec fn instance_dir(base: Seq<char>, group: Seq<char>, amount: nat, i: nat) -> Seq<char> {
    if amount == 1 {
        joined(base, group)
    } else {
        joined(joined(base, group), decimal(i))
    }
}

/// The configuration a group's instances start from.
pub open spec fn config_source(node: Node) -> Seq<char> {
    match node.config {
        Some(c) => c.path_spec(),
        None => joined(node.artifacts.path@, config_file()),
    }
}

/// The port that instance `d` opens for `purpose`.
pub open spec fn port_for(d: InstanceDescriptor, purpose: Purpose) -> int {
    match purpose {
        Purpose::Bind => d.bind_port as int,
        Purpose::Rpc => d.rpc_port as int,
        Purpose::Rest => d.rest_port as int,
        Purpose::SpeculativeExec => d.speculative_execution_port as int,
        Purpose::EventStream => d.event_stream_port as int,
    }
}

/// The instance at `k` has the ports of that place in the network.
pub open spec fn has_ports(d: InstanceDescriptor, k: int) -> bool {
    &&& d.index == k
    &&& d.bind_port == port_of(Purpose::Bind, k)
    &&& d.rpc_port == port_of(Purpose::Rpc, k)
    &&& d.rest_port == port_of(Purpose::Rest, k)
    &&& d.speculative_execution_port == port_of(Purpose::SpeculativeExec, k)
    &&& d.event_stream_port == port_of(Purpose::EventStream, k)
}

/// The instance at `k` is the one of group `g` that falls on that place.
pub open spec fn describes(
    d: InstanceDescriptor,
    nodes: Seq<Node>,
    base: Seq<char>,
    g: int,
    k: int,
) -> bool {
    let i = (k - offset(nodes, g)) as nat;
    let amount = nodes[g].amount as nat;
    &&& d.name@ == instance_name(group_name(nodes, g), amount, i)
    &&& d.data_dir@ == instance_dir(base, group_name(nodes, g), amount, i)
    &&& d.artifact_dir@ == nodes[g].artifacts.path@
    &&& d.default_config_path@ == config_source(nodes[g])
    &&& d.validator == nodes[g].validator
}

/// The chainspec of a network that has one.
pub open spec fn chainspec_source(network: Network) -> Seq<char> {
    match network.chainspec {
        Some(c) => c.path_spec(),
        None => joined(network.nodes@[0].artifacts.path@, chainspec_file()),
    }
}

proof fn lemma_offset_step(nodes: Seq<Node>, g: int)
    requires
        0 <= g < nodes.len(),
    ensures
        offset(nodes, g + 1) == offset(nodes, g) + nodes[g].amount,
{
    assert(nodes.subrange(0, g + 1).drop_last() =~= nodes.subrange(0, g));
}

proof fn lemma_offset_monotone(nodes: Seq<Node>, a: int, b: int)
    requires
        0 <= a <= b <= nodes.len(),
    ensures
        offset(nodes, a) <= offset(nodes, b),
    decreases b - a,
{
    if a < b {
        lemma_offset_monotone(nodes, a, b - 1);
        lemma_offset_step(nodes, b - 1);
    }
}

proof fn lemma_unnamed_monotone(nodes: Seq<Node>, a: int, b: int)
    requires
        0 <= a < b <= nodes.len(),
        nodes[a].name.is_none(),
    ensures
        unnamed_before(nodes, a) + 1 <= unnamed_before(nodes, b),
    decreases b - a,
{
    if a + 1 < b {
        lemma_unnamed_monotone(nodes, a, b - 1);
    }
}

/// Two different unnamed groups get two different names, each the next
/// value of the letter sequence; named groups take no letter.
pub proof fn law_unnamed_groups_distinct(nodes: Seq<Node>, a: int, b: int)
    requires
        0 <= a < b < nodes.len(),
        nodes[a].name.is_none(),
        nodes[b].name.is_none(),
    ensures
        group_name(nodes, a) != group_name(nodes, b),
        group_name(nodes, b) == node_prefix() + as_chars(letters(unnamed_before(nodes, b))),
{
    lemma_unnamed_monotone(nodes, a, b);
    let la = letters(unnamed_before(nodes, a));
    let lb = letters(unnamed_before(nodes, b));
    law_letters_injective(unnamed_before(nodes, a), unnamed_before(nodes, b));
    if group_name(nodes, a) == group_name(nodes, b) {
        let p = node_prefix();
        assert((p + as_chars(la)).subrange(5, (p + as_chars(la)).len() as int) =~= as_chars(la));
        assert((p + as_chars(lb)).subrange(5, (p + as_chars(lb)).len() as int) =~= as_chars(lb));
        assert(la.len() == as_chars(la).len());
        assert forall|q: int| 0 <= q < la.len() implies la[q] == lb[q] by {
            assert(as_chars(la)[q] == la[q] as char);
            assert(as_chars(lb)[q] == lb[q] as char);
        }
        assert(la =~= lb);
    }
}

/// Within a planned network of at most
/// [`crate::ports::COLLISION_FREE_NODES`] instances, no two instances share
/// a port, whatever the purposes, and no instance opens one port twice.
pub proof fn law_plan_ports_distinct(plan: Plan, a: int, pa: Purpose, b: int, pb: Purpose)
    requires
        plan.instances@.len() <= crate::ports::COLLISION_FREE_NODES,
        forall|k: int|
            0 <= k < plan.instances@.len() ==> has_ports(#[trigger] plan.instances@[k], k),
        0 <= a < plan.instances@.len(),
        0 <= b < plan.instances@.len(),
        a != b || pa != pb,
    ensures
        port_for(plan.instances@[a], pa) != port_for(plan.instances@[b], pb),
{
    assert(has_ports(plan.instances@[a], a));
    assert(has_ports(plan.instances@[b], b));
    crate::ports::law_ports_distinct(pa, a, pb, b, plan.instances@.len() as int);
}

fn clone_name(name: &Option<String>) -> (r: Option<String>)
    ensures
        r.is_some() == name.is_some(),
        r.is_some() ==> r.unwrap()@ == name.unwrap()@,
{
    match name {
        Some(n) => Some(n.clone()),
        None => None,
    }
}

/// Plans the network: resolves its chainspec, names every instance, and
/// gives the instance at place `k` the directory under `base_dir` and the
/// ports of that place.
pub fn plan(network: &Network, base_dir: &str) -> (r: Result<Plan, PlanError>)
    ensures
        (r == Err::<Plan, PlanError>(PlanError::NoChainspec)) <==> (network.chainspec.is_none()
            && network.nodes@.len() == 0),
        (r == Err::<Plan, PlanError>(PlanError::TooManyNodes)) <==> (!(network.chainspec.is_none()
            && network.nodes@.len() == 0) && total_amount(network.nodes@) > MAX_NODES),
        r is Ok ==> {
            let p = r->Ok_0;
            let nodes = network.nodes@;
            &&& p.chainspec@ == chainspec_source(*network)
            &&& p.instances@.len() == total_amount(nodes)
            &&& forall|k: int|
                0 <= k < p.instances@.len() ==> has_ports(#[trigger] p.instances@[k], k)
            &&& forall|a: int, pa: Purpose, b: int, pb: Purpose|
                0 <= a < p.instances@.len() && 0 <= b < p.instances@.len() && (a != b || pa
                    != pb) ==> #[trigger] port_for(p.instances@[a], pa) != #[trigger] port_for(
                    p.instances@[b],
                    pb,
                )
            &&& forall|g: int, k: int|
                0 <= g < nodes.len() && offset(nodes, g) <= k < offset(nodes, g)
                    + nodes[g].amount ==> #[trigger] describes(
                    p.instances@[k],
                    nodes,
                    base_dir@,
                    g,
                    k,
                )
        },
{
    let chainspec = match network.chainspec() {
        Some(c) => c,
        None => {
            return Err(PlanError::NoChainspec);
        },
    };
    let ghost nodes = network.nodes@;
    // Count the instances, stopping as soon as there are too many.
    let mut total: usize = 0;
    let mut g: usize = 0;
    while g < network.nodes.len()
        invariant
            nodes == network.nodes@,
            g <= nodes.len(),
            total == offset(nodes, g as int),
            total <= MAX_NODES,
        decreases nodes.len() - g,
    {
        proof {
            lemma_offset_step(nodes, g as int);
        }
        if network.nodes[g].amount > MAX_NODES - total {
            proof {
                lemma_total_prefix(nodes, g + 1);
            }
            return Err(PlanError::TooManyNodes);
        }
        total = total + network.nodes[g].amount;
        g = g + 1;
    }
    proof {
        assert(nodes.subrange(0, nodes.len() as int) =~= nodes);
    }
    let mut names = LettersGen::new();
    let mut instances: Vec<InstanceDescriptor> = Vec::new();
    let mut index: usize = 0;
    g = 0;
    while g < network.nodes.len()
        invariant
            nodes == network.nodes@,
            g <= nodes.len(),
            total_amount(nodes) <= MAX_NODES,
            index == offset(nodes, g as int),
            instances@.len() == index,
            names.wf(),
            names.count() == unnamed_before(nodes, g as int),
            forall|k: int| 0 <= k < instances@.len() ==> has_ports(#[trigger] instances@[k], k),
            forall|g2: int, k: int|
                0 <= g2 < g && offset(nodes, g2) <= k < offset(nodes, g2) + nodes[g2].amount
                    ==> #[trigger] describes(instances@[k], nodes, base_dir@, g2, k),
        decreases nodes.len() - g,
    {
        let node = &network.nodes[g];
        proof {
            lemma_offset_step(nodes, g as int);
            lemma_offset_monotone(nodes, g + 1, nodes.len() as int);
            assert(nodes.subrange(0, nodes.len() as int) =~= nodes);
        }
        let group = match clone_name(&node.name) {
            Some(n) => n,
            None => {
                let letters_now = names.next();
                proof {
                    reveal_strlit("Node_");
                }
                let mut n = "Node_".to_string();
                n.append(letters_now.as_str());
                n
            },
        };
        assert(group@ == group_name(nodes, g as int));
        let default_config_path = match &node.config {
            Some(c) => c.path(),
            None => node.artifacts.config_path(),
        };
        let group_dir = join(base_dir, group.as_str());
        let mut i: usize = 0;
        let ghost before = instances@;
        while i < node.amount
            invariant
                nodes == network.nodes@,
                g < nodes.len(),
                *node == nodes[g as int],
                total_amount(nodes) <= MAX_NODES,
                offset(nodes, g + 1) <= total_amount(nodes),
                offset(nodes, g + 1) == offset(nodes, g as int) + node.amount,
                i <= node.amount,
                index == offset(nodes, g as int) + i,
                instances@.len() == index,
                group@ == group_name(nodes, g as int),
                group_dir@ == joined(base_dir@, group@),
                default_config_path@ == config_source(nodes[g as int]),
                forall|k: int| 0 <= k < instances@.len() ==> has_ports(#[trigger] instances@[k], k),
                forall|k: int| 0 <= k < before.len() ==> instances@[k] == before[k],
                before.len() == offset(nodes, g as int),
                forall|k: int|
                    offset(nodes, g as int) <= k < index ==> #[trigger] describes(
                        instances@[k],
                        nodes,
                        base_dir@,
                        g as int,
                        k,
                    ),
            decreases node.amount - i,
        {
            let (name, data_dir) = if node.amount == 1 {
                (group.clone(), group_dir.clone())
            } else {
                let number = decimal_string(i as u64);
                let mut name = group.clone();
                push_char(&mut name, '/');
                name.append(number.as_str());
                assert(name@ =~= group@ + seq!['/'] + decimal(i as nat));
                (name, join(group_dir.as_str(), number.as_str()))
            };
            let d = InstanceDescriptor {
                name,
                data_dir,
                artifact_dir: node.artifacts.path.clone(),
                default_config_path: default_config_path.clone(),
                validator: node.validator,
                index,
                bind_port: ports::bind(index),
                rpc_port: ports::rpc(index),
                rest_port: ports::rest(index),
                speculative_execution_port: ports::spec(index),
                event_stream_port: ports::event_stream(index),
            };
            proof {
                assert(describes(d, nodes, base_dir@, g as int, index as int));
            }
            instances.push(d);
            i = i + 1;
            index = index + 1;
        }
        proof {
            assert forall|g2: int, k: int|
                0 <= g2 < g + 1 && offset(nodes, g2) <= k < offset(nodes, g2) + nodes[g2].amount
                    implies #[trigger] describes(instances@[k], nodes, base_dir@, g2, k) by {
                if g2 < g {
                    lemma_offset_monotone(nodes, g2 + 1, g as int);
                    lemma_offset_step(nodes, g2);
                    assert(instances@[k] == before[k]);
                }
            }
        }
        g = g + 1;
    }
    let r = Plan { chainspec, instances };
    proof {
        assert(nodes.subrange(0, nodes.len() as int) =~= nodes);
        assert forall|a: int, pa: Purpose, b: int, pb: Purpose|
            0 <= a < r.instances@.len() && 0 <= b < r.instances@.len() && (a != b || pa != pb)
                implies #[trigger] port_for(r.instances@[a], pa) != #[trigger] port_for(
            r.instances@[b],
            pb,
        ) by {
            law_plan_ports_distinct(r, a, pa, b, pb);
        }
    }
    Ok(r)
}

} // verus!
