//! The ports that an instance listens on, from its place in the network.
use vstd::prelude::*;

verus! {

pub const BASE_BIND_ADDRESS: u16 = 34000;

pub const BASE_SPEC_ADDRESS: u16 = 6666;

pub const BASE_RPC_ADDRESS: u16 = 7777;

pub const BASE_REST_ADDRESS: u16 = 8888;

pub const BASE_EVENT_STREAM_ADDRESS: u16 = 9999;

/// Up to this many instances, no two ports of a network coincide, whatever
/// their purpose: the closest bases are this far apart.
pub const COLLISION_FREE_NODES: usize = 1111;

/// The purposes an instance opens a port for.
#[derive(PartialEq, Eq, Structural, Clone, Copy, Debug)]
pub enum Purpose {
    Bind,
    Rpc,
    Rest,
    SpeculativeExec,
    EventStream,
}

pub open spec fn base_port(purpose: Purpose) -> int {
    match purpose {
        Purpose::Bind => BASE_BIND_ADDRESS as int,
        Purpose::Rpc => BASE_RPC_ADDRESS as int,
        Purpose::Rest => BASE_REST_ADDRESS as int,
        Purpose::SpeculativeExec => BASE_SPEC_ADDRESS as int,
        Purpose::EventStream => BASE_EVENT_STREAM_ADDRESS as int,
    }
}

/// The port of the instance at `index` for `purpose`.
pub open spec fn port_of(purpose: Purpose, index: int) -> int {
    base_port(purpose) + index
}

/// The P2P bind port of the instance at `index`.
pub fn bind(index: usize) -> (r: u16)
    requires
        index <= u16::MAX - BASE_BIND_ADDRESS,
    ensures
        r == port_of(Purpose::Bind, index as int),
{
    BASE_BIND_ADDRESS + index as u16
}

/// The speculative execution port of the instance at `index`.
pub fn spec(index: usize) -> (r: u16)
    requires
        index <= u16::MAX - BASE_SPEC_ADDRESS,
    ensures
        r == port_of(Purpose::SpeculativeExec, index as int),
{
    BASE_SPEC_ADDRESS + index as u16
}

/// The RPC port of the instance at `index`.
pub fn rpc(index: usize) -> (r: u16)
    requires
        index <= u16::MAX - BASE_RPC_ADDRESS,
    ensures
        r == port_of(Purpose::Rpc, index as int),
{
    BASE_RPC_ADDRESS + index as u16
}

/// The REST port of the instance at `index`.
pub fn rest(index: usize) -> (r: u16)
    requires
        index <= u16::MAX - BASE_REST_ADDRESS,
    ensures
        r == port_of(Purpose::Rest, index as int),
{
    BASE_REST_ADDRESS + index as u16
}

/// The event stream port of the instance at `index`.
pub fn event_stream(index: usize) -> (r: u16)
    requires
        index <= u16::MAX - BASE_EVENT_STREAM_ADDRESS,
    ensures
        r == port_of(Purpose::EventStream, index as int),
{
    BASE_EVENT_STREAM_ADDRESS + index as u16
}

/// Within a network of at most [`COLLISION_FREE_NODES`] instances, two
/// (purpose, instance) pairs that differ never share a port.
pub proof fn law_ports_distinct(p: Purpose, i: int, q: Purpose, j: int, n: int)
    requires
        n <= COLLISION_FREE_NODES,
        0 <= i < n,
        0 <= j < n,
        p != q || i != j,
    ensures
        port_of(p, i) != port_of(q, j),
{
}

} // verus!
