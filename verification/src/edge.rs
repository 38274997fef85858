//! Edges, which double as the states of a search.

use crate::color::Color;
use vstd::prelude::*;

verus! {

/// What an [`Edge`] is to the contracts: the name of a node and the colour
/// of the edge that leads to it.
pub struct Hop {
    pub color: Color,
    pub node: Seq<char>,
}

/// A directed edge as it is stored with its source node: its colour and the
/// node it leads to. The same pair describes a state of a search: the node
/// that was reached and the colour of the edge that was taken to reach it.
#[derive(Clone, Debug, PartialEq, Eq, Hash)]
pub struct Edge {
    pub color: Color,
    pub node: String,
}

impl View for Edge {
    type V = Hop;

    open spec fn view(&self) -> Hop {
        Hop { color: self.color, node: self.node@ }
    }
}

impl Edge {
    /// The edge of colour `color` that leads to `node`.
    pub fn new(color: Color, node: String) -> (e: Edge)
        ensures
            e.color == color,
            e.node == node,
    {
        Edge { color, node }
    }

    /// Whether this state is at the node `node`, whatever edge led there.
    pub fn is_at(&self, node: &String) -> (r: bool)
        ensures
            r == (self@.node == node@),
    {
        self.node == *node
    }

    /// A copy of this edge.
    pub fn duplicate(&self) -> (e: Edge)
        ensures
            e == *self,
    {
        Edge { color: self.color, node: self.node.clone() }
    }
}

/// The edges of a list, each as the contracts see it.
pub open spec fn hops(edges: Seq<Edge>) -> Seq<Hop> {
    edges.map_values(|e: Edge| e@)
}

} // verus!
