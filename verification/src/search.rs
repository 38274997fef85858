//! The search for a shortest route on which no two edges in a row have the
//! same colour.
//!
//! A state of the search is a node together with the colour of the edge that
//! led to it: what may follow depends on both. The search itself is
//! `pathfinding`'s Dijkstra; this module says what it is run on and what its
//! answer means.

use crate::color::{can_follow, compatible, Color};
use crate::edge::{hops, Edge, Hop};
use crate::puzzle::{out_edges, Puzzle};
use vstd::prelude::*;

verus! {

/// The test that an edge passes if it may be taken right after an edge of
/// colour `last`.
pub open spec fn admits(last: Color) -> spec_fn(Hop) -> bool {
    |edge: Hop| compatible(last, edge.color)
}

/// The states that can be entered from `state`, in the order of the edges
/// that lead to them: one for each edge of the state's node whose colour may
/// follow the state's colour. A node without an entry in the graph has none.
pub open spec fn successors(graph: Map<Seq<char>, Seq<Hop>>, state: Hop) -> Seq<Hop> {
    out_edges(graph, state.node).filter(admits(state.color))
}

/// A route: one state or more, each but the first among the successors of
/// the state before it.
pub open spec fn is_route(graph: Map<Seq<char>, Seq<Hop>>, route: Seq<Hop>) -> bool {
    &&& route.len() > 0
    &&& forall|i: int|
        0 <= i < route.len() - 1 ==> successors(graph, #[trigger] route[i]).contains(route[i + 1])
}

/// A route that begins with the state `start` and ends at the node `end`,
/// whatever the colour of its last edge.
pub open spec fn reaches(
    graph: Map<Seq<char>, Seq<Hop>>,
    start: Hop,
    end: Seq<char>,
    route: Seq<Hop>,
) -> bool {
    &&& is_route(graph, route)
    &&& route[0] == start
    &&& route.last().node == end
}

/// A route from `start` to `end` that no other such route is shorter than.
pub open spec fn is_shortest(
    graph: Map<Seq<char>, Seq<Hop>>,
    start: Hop,
    end: Seq<char>,
    route: Seq<Hop>,
) -> bool {
    &&& reaches(graph, start, end, route)
    &&& forall|other: Seq<Hop>| #[trigger]
        reaches(graph, start, end, other) ==> route.len() <= other.len()
}

/// The state a search starts in: at `node`, with no edge taken yet.
pub open spec fn start_state(node: Seq<char>) -> Hop {
    Hop { color: Color::Neutral, node }
}

/// The states of a list of moves, without their costs.
pub open spec fn targets(moves: Seq<(Edge, usize)>) -> Seq<Hop> {
    moves.map_values(|m: (Edge, usize)| m.0@)
}

proof fn admitted_holds(edges: Seq<Hop>, last: Color, next: Hop)
    ensures
        edges.filter(admits(last)).contains(next) <==> edges.contains(next) && compatible(
            last,
            next.color,
        ),
    decreases edges.len(),
{
    reveal(Seq::filter);
    let kept = edges.filter(admits(last));
    if edges.len() > 0 {
        let front = edges.drop_last();
        let front_kept = front.filter(admits(last));
        admitted_holds(front, last, next);
        if kept.contains(next) {
            let i = choose|i: int| 0 <= i < kept.len() && kept[i] == next;
            if i < front_kept.len() {
                assert(front_kept[i] == next);
                let j = choose|j: int| 0 <= j < front.len() && front[j] == next;
                assert(edges[j] == next);
            } else {
                assert(edges[edges.len() - 1] == next);
            }
        }
        if edges.contains(next) && compatible(last, next.color) {
            let j = choose|j: int| 0 <= j < edges.len() && edges[j] == next;
            if j < front.len() {
                assert(front[j] == next);
                let i = choose|i: int| 0 <= i < front_kept.len() && front_kept[i] == next;
                assert(kept[i] == next);
            } else {
                assert(kept[kept.len() - 1] == next);
            }
        }
    }
}

/// A state is among the successors of another exactly when it is one of the
/// edges of that state's node and its colour may follow that state's colour.
pub proof fn successor_is_an_admitted_edge(
    graph: Map<Seq<char>, Seq<Hop>>,
    state: Hop,
    next: Hop,
)
    ensures
        successors(graph, state).contains(next) <==> out_edges(graph, state.node).contains(next)
            && compatible(state.color, next.color),
{
    admitted_holds(out_edges(graph, state.node), state.color, next);
}

/// Runs `pathfinding::directed::dijkstra::dijkstra` from the state `start`,
/// with [`Puzzle::successors`] as the successor function and "is at the node
/// `end`" as the test for success.
///
/// The contract restates that function's documentation for this use. It
/// returns a path that begins with `start`, ends with a state that passes
/// the test, and moves from each state to one that the successor function
/// gave for it; the cost it reports is the sum of the moves' costs, here
/// their number; and no path with these properties costs less. It returns
/// nothing exactly when no such path exists. States are told apart by the
/// `Eq` and `Hash` that `Edge` derives, that is by colour and node name.
#[verifier::external_body]
fn dijkstra(puzzle: &Puzzle, start: &Edge, end: &String) -> (r: Option<(Vec<Edge>, usize)>)
    ensures
        match r {
            Some((route, cost)) => {
                &&& is_shortest(puzzle@, start@, end@, hops(route@))
                &&& cost + 1 == route@.len()
            },
            None => forall|route: Seq<Hop>| !reaches(puzzle@, start@, end@, route),
        },
{
    pathfinding::directed::dijkstra::dijkstra(
        start,
        |state| puzzle.successors(state),
        |state| state.is_at(end),
    )
}

impl Puzzle {
    /// The moves that are open in `state`: for each edge of the state's node
    /// that may follow the state's colour, the state it leads to, at cost 1.
    pub fn successors(&self, state: &Edge) -> (r: Vec<(Edge, usize)>)
        ensures
            targets(r@) == successors(self@, state@),
            forall|i: int| 0 <= i < r@.len() ==> (#[trigger] r@[i]).1 == 1,
    {
        let mut moves: Vec<(Edge, usize)> = Vec::new();
        let edges = match self.edges(state.node.as_str()) {
            Some(edges) => edges,
            None => {
                proof {
                    reveal(Seq::filter);
                    assert(targets(moves@) =~= Seq::<Hop>::empty());
                }
                return moves;
            },
        };
        let ghost all = hops(edges@);
        let ghost keep = admits(state.color);
        let mut i: usize = 0;
        proof {
            reveal(Seq::filter);
            assert(all.take(0) =~= Seq::<Hop>::empty());
            assert(targets(moves@) =~= Seq::<Hop>::empty());
        }
        while i < edges.len()
            invariant
                i <= edges.len(),
                all == hops(edges@),
                keep == admits(state.color),
                targets(moves@) == all.take(i as int).filter(keep),
                forall|j: int| 0 <= j < moves@.len() ==> (#[trigger] moves@[j]).1 == 1,
            decreases edges.len() - i,
        {
            let edge = &edges[i];
            proof {
                reveal(Seq::filter);
                assert(all.take(i + 1).drop_last() =~= all.take(i as int));
                assert(all.take(i + 1).last() == edge@);
            }
            if can_follow(state.color, edge.color) {
                let next = edge.duplicate();
                proof {
                    assert(targets(moves@.push((next, 1usize))) =~= targets(moves@).push(edge@));
                }
                moves.push((next, 1));
            }
            i += 1;
        }
        proof {
            assert(all.take(i as int) =~= all);
        }
        moves
    }

    /// Finds a shortest route from the node `start` to the node `end` on
    /// which no edge has the colour of the edge before it, unless that
    /// colour is `Neutral`.
    ///
    /// The route is given as the states it passes: first `start` with the
    /// colour `Neutral`, then for each edge taken its target and its colour.
    /// Where several routes are shortest, any of them may be returned.
    /// Returns `None` exactly when there is no such route. Neither node has
    /// to have an entry in the graph; from `start` to itself the route is
    /// the start state alone.
    pub fn solve(&self, start: String, end: String) -> (r: Option<Vec<Edge>>)
        ensures
            match r {
                Some(route) => is_shortest(self@, start_state(start@), end@, hops(route@)),
                None => forall|route: Seq<Hop>| !reaches(self@, start_state(start@), end@, route),
            },
            start@ == end@ ==> (r matches Some(route) && hops(route@) == seq![start_state(start@)]),
    {
        let ghost origin = start_state(start@);
        let first = Edge::new(Color::Neutral, start);
        assert(first@ == origin);
        let found = dijkstra(self, &first, &end);
        proof {
            if origin.node == end@ {
                assert(reaches(self@, origin, end@, seq![origin]));
            }
        }
        match found {
            Some((route, _)) => {
                assert(origin.node == end@ ==> hops(route@) =~= seq![origin]);
                Some(route)
            },
            None => None,
        }
    }
}

} // verus!
