//! Routing between vertiports: the nodes of the route network, the choice of
//! the vertiports nearest to two places, and the setting up of the router.

use crate::flight_plan::PointZ;
use vstd::prelude::*;

verus! {

/// The operating status of a node.
#[derive(Debug, Copy, Clone, PartialEq, Eq, Structural)]
pub enum Status {
    /// The node is currently operating.
    Open,
    /// The node is currently down.
    Closed,
}

/// A vertex of the route network.
#[derive(Debug)]
pub struct Node {
    /// The node's identifier.
    pub uid: String,
    /// Where the node is.
    pub location: PointZ,
    /// Where traffic goes while the node is unavailable, if anywhere.
    pub forward_to: Option<Box<Node>>,
    /// Whether the node is operating.
    pub status: Status,
    /// The node's calendar as RRule text, if it has one.
    pub schedule: Option<String>,
}

/// Errors of the router engine.
#[derive(Debug, Copy, Clone, PartialEq, Eq, Structural)]
pub enum RouterError {
    /// The path returned by the path finding algorithm contains invalid
    /// nodes.
    InvalidNodesInPath,
}

impl RouterError {
    pub open spec fn message(&self) -> Seq<char> {
        match self {
            RouterError::InvalidNodesInPath => "Invalid path"@,
        }
    }

    /// The message describing the error.
    pub fn to_string(&self) -> (r: String)
        ensures
            r@ == self.message(),
    {
        match self {
            RouterError::InvalidNodesInPath => "Invalid path".to_string(),
        }
    }
}

/// Path finding algorithms.
#[derive(Debug, Copy, Clone, PartialEq, Eq, Structural)]
pub enum Algorithm {
    /// The Dijkstra algorithm.
    Dijkstra,
    /// The A Star algorithm.
    AStar,
}

/// Whether `k` is the first place where `d` is smallest.
pub open spec fn first_minimum(d: Seq<u64>, k: int) -> bool {
    &&& 0 <= k < d.len()
    &&& forall|i: int| 0 <= i < d.len() ==> d[k] <= #[trigger] d[i]
    &&& forall|i: int| 0 <= i < k ==> d[k] < #[trigger] d[i]
}

fn first_minimum_exec(d: &[u64]) -> (r: usize)
    requires
        d@.len() > 0,
    ensures
        first_minimum(d@, r as int),
{
    let mut best: usize = 0;
    let mut i: usize = 0;
    while i < d.len()
        invariant
            d@.len() > 0,
            best < d@.len(),
            i <= d@.len(),
            best <= i || (i == 0 && best == 0),
            forall|j: int| 0 <= j < i ==> d@[best as int] <= #[trigger] d@[j],
            forall|j: int| 0 <= j < best ==> d@[best as int] < #[trigger] d@[j],
        decreases d@.len() - i,
    {
        if d[i] < d[best] {
            best = i;
        }
        i = i + 1;
    }
    best
}

/// The vertiports nearest to a place of departure and to a place of arrival,
/// given each vertiport's distance to both: for each, the first vertiport
/// whose distance is smallest.
pub fn get_nearest_vertiports(src_distances: &[u64], dst_distances: &[u64]) -> (r: (usize, usize))
    requires
        src_distances@.len() > 0,
        dst_distances@.len() > 0,
    ensures
        first_minimum(src_distances@, r.0 as int),
        first_minimum(dst_distances@, r.1 as int),
{
    (first_minimum_exec(src_distances), first_minimum_exec(dst_distances))
}

/// The first place where a sequence is smallest is unique: it is the place
/// that the choice of the nearest vertiport names.
pub proof fn lemma_first_minimum_unique(d: Seq<u64>, a: int, b: int)
    requires
        first_minimum(d, a),
        first_minimum(d, b),
    ensures
        a == b,
{
    if a < b {
        assert(d[b] < d[a]);
        assert(d[b] <= d[a]);
    } else if b < a {
        assert(d[a] < d[b]);
    }
}

pub open spec fn init_message(nodes_ready: bool, router_ready: bool) -> Result<Seq<char>, Seq<char>> {
    if !nodes_ready {
        Err("Nodes not initialized. Try to get some nodes first."@)
    } else if router_ready {
        Err("Router already initialized. Try to use the router instead of initializing it."@)
    } else {
        Ok("Arrow Cargo router initialized."@)
    }
}

/// Decides whether the router can be set up: there must be nodes, and no
/// router yet. `Ok` holds the message to give once the router is built;
/// `Err` the message saying why it is not.
pub fn init_router(nodes_ready: bool, router_ready: bool) -> (r: Result<&'static str, &'static str>)
    ensures
        match r {
            Ok(m) => init_message(nodes_ready, router_ready) == Ok::<Seq<char>, Seq<char>>(m@),
            Err(m) => init_message(nodes_ready, router_ready) == Err::<Seq<char>, Seq<char>>(m@),
        },
{
    if !nodes_ready {
        return Err("Nodes not initialized. Try to get some nodes first.");
    }
    if router_ready {
        return Err("Router already initialized. Try to use the router instead of initializing it.");
    }
    Ok("Arrow Cargo router initialized.")
}

} // verus!
