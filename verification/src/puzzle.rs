//! The puzzle: a directed graph with coloured edges.

use crate::edge::{hops, Edge, Hop};
use vstd::hash_map::StringHashMap;
use vstd::prelude::*;

verus! {

/// A graph, stored as a map from each node that has outgoing edges to the
/// list of those edges. A node that only occurs as the target of an edge has
/// no entry of its own.
pub struct Puzzle {
    pub nodes: StringHashMap<Vec<Edge>>,
}

impl View for Puzzle {
    type V = Map<Seq<char>, Seq<Hop>>;

    open spec fn view(&self) -> Map<Seq<char>, Seq<Hop>> {
        self.nodes@.map_values(|edges: Vec<Edge>| hops(edges@))
    }
}

/// The edges that leave `node` in `graph`, in their stored order; none if
/// the graph has no entry for the node.
pub open spec fn out_edges(graph: Map<Seq<char>, Seq<Hop>>, node: Seq<char>) -> Seq<Hop> {
    if graph.contains_key(node) {
        graph[node]
    } else {
        Seq::empty()
    }
}

impl Puzzle {
    /// The graph without any node.
    pub fn new() -> (p: Puzzle)
        ensures
            p@ == Map::<Seq<char>, Seq<Hop>>::empty(),
    {
        let p = Puzzle { nodes: StringHashMap::new() };
        assert(p@ =~= Map::<Seq<char>, Seq<Hop>>::empty());
        p
    }

    /// Gives the node `name` the outgoing edges `edges`, in place of those it
    /// had.
    pub fn insert(&mut self, name: String, edges: Vec<Edge>)
        ensures
            final(self)@ == old(self)@.insert(name@, hops(edges@)),
    {
        self.nodes.insert(name, edges);
        assert(self@ =~= old(self)@.insert(name@, hops(edges@)));
    }

    /// The outgoing edges stored for `node`, if it has an entry.
    pub fn edges(&self, node: &str) -> (r: Option<&Vec<Edge>>)
        ensures
            match r {
                Some(edges) => self@.contains_key(node@) && self@[node@] == hops(edges@),
                None => !self@.contains_key(node@),
            },
    {
        self.nodes.get(node)
    }

    /// Whether no node has an entry.
    pub fn is_empty(&self) -> (r: bool)
        ensures
            r == self@.is_empty(),
    {
        assert(self@.dom() =~= self.nodes@.dom());
        self.nodes.is_empty()
    }

    /// The number of nodes that have an entry.
    pub fn len(&self) -> (n: usize)
        ensures
            n == self@.len(),
    {
        assert(self@.dom() =~= self.nodes@.dom());
        self.nodes.len()
    }
}

} // verus!
