//! The description of a network: groups of instances and where their
//! artifacts, configuration and chainspec come from.
use vstd::prelude::*;
use crate::paths::{join, joined};

verus! {

/// A directory holding the node binary, the client contracts, a chainspec
/// template `chainspec.toml` and an example configuration `config.toml`.
#[derive(Debug)]
pub struct Artifacts {
    pub path: String,
}

/// Where the code of the node comes from.
#[derive(Debug)]
pub enum Location {
    /// A local code base, by default `../casper-node`.
    Local { project_path: Option<String> },
    /// A repository to download; by default the official one.
    Remote { url: Option<String>, reference: TagOrHash },
}

/// A point in a repository's history.
#[derive(Debug)]
pub enum TagOrHash {
    Tag(String),
    Hash(String),
}

/// Describes how to obtain [`Artifacts`].
#[derive(Debug)]
pub struct ArtifactsBuilder {
    pub location: Location,
    /// Whether the code is (re)compiled; `None` leaves it to the location.
    pub compile: Option<bool>,
}

pub open spec fn config_file() -> Seq<char> {
    seq!['c', 'o', 'n', 'f', 'i', 'g', '.', 't', 'o', 'm', 'l']
}

pub open spec fn chainspec_file() -> Seq<char> {
    seq!['c', 'h', 'a', 'i', 'n', 's', 'p', 'e', 'c', '.', 't', 'o', 'm', 'l']
}

pub open spec fn default_project() -> Seq<char> {
    seq!['.', '.', '/', 'c', 'a', 's', 'p', 'e', 'r', '-', 'n', 'o', 'd', 'e']
}

impl Artifacts {
    /// A builder that uses the local code by default.
    pub fn builder() -> (r: ArtifactsBuilder)
        ensures
            r.location == (Location::Local { project_path: None }),
            r.compile.is_none(),
    {
        ArtifactsBuilder { location: Location::Local { project_path: None }, compile: None }
    }

    /// Artifacts already present at `path`.
    pub fn from_path(path: String) -> (r: Self)
        ensures
            r.path@ == path@,
    {
        Artifacts { path }
    }

    /// The example configuration of the bundle.
    pub fn config_path(&self) -> (r: String)
        ensures
            r@ == joined(self.path@, config_file()),
    {
        proof {
            reveal_strlit("config.toml");
        }
        join(self.path.as_str(), "config.toml")
    }

    /// The chainspec template of the bundle.
    pub fn chainspec_path(&self) -> (r: String)
        ensures
            r@ == joined(self.path@, chainspec_file()),
    {
        proof {
            reveal_strlit("chainspec.toml");
        }
        join(self.path.as_str(), "chainspec.toml")
    }

    pub fn clone(&self) -> (r: Self)
        ensures
            r.path@ == self.path@,
    {
        Artifacts { path: self.path.clone() }
    }
}

impl ArtifactsBuilder {
    /// Whether the code is compiled.
    pub fn compile(self, compile: bool) -> (r: Self)
        ensures
            r.location == self.location,
            r.compile == Some(compile),
    {
        ArtifactsBuilder { compile: Some(compile), ..self }
    }

    /// Uses the local code base at `path`.
    pub fn local_path(self, path: String) -> (r: Self)
        ensures
            r.location == (Location::Local { project_path: Some(path) }),
            r.compile == self.compile,
    {
        ArtifactsBuilder { location: Location::Local { project_path: Some(path) }, ..self }
    }

    /// Downloads the official repository at the commit `hash`.
    pub fn hash(self, hash: String) -> (r: Self)
        ensures
            r.location == (Location::Remote { url: None, reference: TagOrHash::Hash(hash) }),
            r.compile == self.compile,
    {
        ArtifactsBuilder {
            location: Location::Remote { url: None, reference: TagOrHash::Hash(hash) },
            ..self
        }
    }

    /// Downloads the official repository at the tag `tag`.
    pub fn tag(self, tag: String) -> (r: Self)
        ensures
            r.location == (Location::Remote { url: None, reference: TagOrHash::Tag(tag) }),
            r.compile == self.compile,
    {
        ArtifactsBuilder {
            location: Location::Remote { url: None, reference: TagOrHash::Tag(tag) },
            ..self
        }
    }

    /// Downloads the repository `repo_url` at the commit `hash`.
    pub fn repo_hash(self, repo_url: String, hash: String) -> (r: Self)
        ensures
            r.location == (Location::Remote {
                url: Some(repo_url),
                reference: TagOrHash::Hash(hash),
            }),
            r.compile == self.compile,
    {
        ArtifactsBuilder {
            location: Location::Remote { url: Some(repo_url), reference: TagOrHash::Hash(hash) },
            ..self
        }
    }

    /// Downloads the repository `repo_url` at the tag `tag`.
    pub fn repo_tag(self, repo_url: String, tag: String) -> (r: Self)
        ensures
            r.location == (Location::Remote {
                url: Some(repo_url),
                reference: TagOrHash::Tag(tag),
            }),
            r.compile == self.compile,
    {
        ArtifactsBuilder {
            location: Location::Remote { url: Some(repo_url), reference: TagOrHash::Tag(tag) },
            ..self
        }
    }

    /// The local code base to build from: the given path, else
    /// `../casper-node`; `None` for a remote location.
    pub fn local_project(&self) -> (r: Option<String>)
        ensures
            match self.location {
                Location::Local { project_path: Some(p) } => r.is_some() && r.unwrap()@ == p@,
                Location::Local { project_path: None } => r.is_some() && r.unwrap()@
                    == default_project(),
                Location::Remote { .. } => r.is_none(),
            },
    {
        match &self.location {
            Location::Local { project_path: Some(p) } => Some(p.clone()),
            Location::Local { project_path: None } => {
                proof {
                    reveal_strlit("../casper-node");
                }
                Some("../casper-node".to_string())
            },
            Location::Remote { .. } => None,
        }
    }

    /// Whether the build compiles: as asked, else for a local code base
    /// only (a remote one is looked up in the cache first).
    pub fn should_compile(&self) -> (r: bool)
        ensures
            r == match self.compile {
                Some(c) => c,
                None => self.location is Local,
            },
    {
        match self.compile {
            Some(c) => c,
            None => match self.location {
                Location::Local { .. } => true,
                Location::Remote { .. } => false,
            },
        }
    }
}

/// Where the network's chainspec comes from.
#[derive(Debug)]
pub enum Chainspec {
    /// A path: `some/dir/chainspec.toml`.
    Path(String),
    /// The template of an [`Artifacts`] bundle.
    Artifacts(Artifacts),
}

/// Where an instance's configuration comes from.
#[derive(Debug)]
pub enum NodeConfig {
    /// A path: `some/dir/config.toml`.
    Path(String),
    /// The example of an [`Artifacts`] bundle.
    Artifacts(Artifacts),
}

impl Chainspec {
    pub open spec fn path_spec(&self) -> Seq<char> {
        match self {
            Chainspec::Path(p) => p@,
            Chainspec::Artifacts(a) => joined(a.path@, chainspec_file()),
        }
    }

    /// The chainspec file.
    pub fn path(&self) -> (r: String)
        ensures
            r@ == self.path_spec(),
    {
        match self {
            Chainspec::Path(p) => p.clone(),
            Chainspec::Artifacts(a) => a.chainspec_path(),
        }
    }
}

impl NodeConfig {
    pub open spec fn path_spec(&self) -> Seq<char> {
        match self {
            NodeConfig::Path(p) => p@,
            NodeConfig::Artifacts(a) => joined(a.path@, config_file()),
        }
    }

    /// The configuration file.
    pub fn path(&self) -> (r: String)
        ensures
            r@ == self.path_spec(),
    {
        match self {
            NodeConfig::Path(p) => p.clone(),
            NodeConfig::Artifacts(a) => a.config_path(),
        }
    }
}

/// A group of instances sharing an artifact bundle and a role.
#[derive(Debug)]
pub struct Node {
    pub artifacts: Artifacts,
    pub amount: usize,
    /// Replaces the configuration of the bundle.
    pub config: Option<NodeConfig>,
    pub name: Option<String>,
    pub validator: bool,
}

impl Node {
    /// One validator instance from `artifacts`.
    pub fn validator(artifacts: Artifacts) -> (r: Self)
        ensures
            r.artifacts == artifacts,
            r.amount == 1,
            r.config.is_none(),
            r.name.is_none(),
            r.validator,
    {
        Node { artifacts, amount: 1, config: None, name: None, validator: true }
    }

    /// One non-validator instance from `artifacts`.
    pub fn keep_up(artifacts: Artifacts) -> (r: Self)
        ensures
            r.artifacts == artifacts,
            r.amount == 1,
            r.config.is_none(),
            r.name.is_none(),
            !r.validator,
    {
        Node { artifacts, amount: 1, config: None, name: None, validator: false }
    }

    /// Replaces the configuration of these instances.
    pub fn config(self, config: NodeConfig) -> (r: Self)
        ensures
            r == (Node { config: Some(config), ..self }),
    {
        Node { config: Some(config), ..self }
    }

    /// Names these instances.
    pub fn name(self, name: String) -> (r: Self)
        ensures
            r == (Node { name: Some(name), ..self }),
    {
        Node { name: Some(name), ..self }
    }

    /// `count` times as many instances.
    pub fn times(self, count: usize) -> (r: Self)
        requires
            count * self.amount <= usize::MAX,
        ensures
            r == (Node { amount: (count * self.amount) as usize, ..self }),
    {
        let amount = count * self.amount;
        Node { amount, ..self }
    }
}

/// The network: groups of instances, and optionally its chainspec.
#[derive(Debug)]
pub struct Network {
    pub nodes: Vec<Node>,
    /// When absent, the template of the first group's bundle is taken.
    pub chainspec: Option<Chainspec>,
}

/// What can be added to a [`Network`].
pub trait NetworkItem: Sized {
    /// `after` is `before` with this item added.
    spec fn added(self, before: Network, after: Network) -> bool;

    fn add_to(self, network: &mut Network)
        ensures
            self.added(*old(network), *final(network)),
    ;
}

impl NetworkItem for Node {
    open spec fn added(self, before: Network, after: Network) -> bool {
        after.nodes@ == before.nodes@.push(self) && after.chainspec == before.chainspec
    }

    fn add_to(self, network: &mut Network) {
        network.nodes.push(self);
    }
}

impl NetworkItem for Chainspec {
    open spec fn added(self, before: Network, after: Network) -> bool {
        after.nodes == before.nodes && after.chainspec == Some(self)
    }

    fn add_to(self, network: &mut Network) {
        network.chainspec = Some(self);
    }
}

/// The number of instances of the groups, in total.
pub open spec fn total_amount(nodes: Seq<Node>) -> nat
    decreases nodes.len(),
{
    if nodes.len() == 0 {
        0
    } else {
        total_amount(nodes.drop_last()) + nodes.last().amount as nat
    }
}

impl Network {
    /// An empty network.
    pub fn new() -> (r: Self)
        ensures
            r.nodes@.len() == 0,
            r.chainspec.is_none(),
    {
        Network { nodes: Vec::new(), chainspec: None }
    }

    /// Adds a group or sets the chainspec.
    pub fn with<I: NetworkItem>(self, item: I) -> (r: Self)
        ensures
            item.added(self, r),
    {
        let mut network = self;
        item.add_to(&mut network);
        network
    }

    /// The chainspec file: the explicit one, else the template of the first
    /// group's bundle; `None` when there is neither.
    pub fn chainspec(&self) -> (r: Option<String>)
        ensures
            match self.chainspec {
                Some(c) => r.is_some() && r.unwrap()@ == c.path_spec(),
                None => if self.nodes@.len() == 0 {
                    r.is_none()
                } else {
                    r.is_some() && r.unwrap()@ == joined(
                        self.nodes@[0].artifacts.path@,
                        chainspec_file(),
                    )
                },
            },
    {
        match &self.chainspec {
            Some(c) => Some(c.path()),
            None => if self.nodes.len() == 0 {
                None
            } else {
                Some(self.nodes[0].artifacts.chainspec_path())
            },
        }
    }

    /// The number of instances in the network.
    pub fn amount_nodes(&self) -> (r: usize)
        requires
            total_amount(self.nodes@) <= usize::MAX,
        ensures
            r == total_amount(self.nodes@),
    {
        let mut sum: usize = 0;
        let mut i: usize = 0;
        while i < self.nodes.len()
            invariant
                i <= self.nodes@.len(),
                total_amount(self.nodes@) <= usize::MAX,
                sum == total_amount(self.nodes@.subrange(0, i as int)),
            decreases self.nodes@.len() - i,
        {
            proof {
                lemma_total_prefix(self.nodes@, i as int + 1);
                assert(self.nodes@.subrange(0, i + 1).drop_last() =~= self.nodes@.subrange(0, i as int));
            }
            sum = sum + self.nodes[i].amount;
            i = i + 1;
        }
        proof {
            assert(self.nodes@.subrange(0, i as int) =~= self.nodes@);
        }
        sum
    }
}

/// A prefix of the groups has no more instances than all of them.
pub proof fn lemma_total_prefix(nodes: Seq<Node>, k: int)
    requires
        0 <= k <= nodes.len(),
    ensures
        total_amount(nodes.subrange(0, k)) <= total_amount(nodes),
    decreases nodes.len(),
{
    if k < nodes.len() {
        assert(nodes.drop_last().subrange(0, k) =~= nodes.subrange(0, k));
        lemma_total_prefix(nodes.drop_last(), k);
    } else {
        assert(nodes.subrange(0, k) =~= nodes);
    }
}

} // verus!
