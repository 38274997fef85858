//! Rendering the outcome of a search as lines of text.

use crate::edge::{hops, Edge, Hop};
use vstd::prelude::*;

verus! {

/// The line for one move: the node left, the colour of the edge taken, and
/// the node entered, as in `a ==(red)=> b`.
pub open spec fn step_line(from: Hop, to: Hop) -> Seq<char> {
    from.node + " ==("@ + to.color.name() + ")=> "@ + to.node
}

/// The lines for a route: one for each move, in order. A route of a single
/// state has no move and so no line.
pub open spec fn route_lines(route: Seq<Hop>) -> Seq<Seq<char>> {
    if route.len() == 0 {
        Seq::empty()
    } else {
        Seq::new((route.len() - 1) as nat, |i: int| step_line(route[i], route[i + 1]))
    }
}

/// The lines for the outcome of a search: those of the route that was found,
/// or a single line that says that there is none.
pub open spec fn outcome_lines(outcome: Option<Seq<Hop>>) -> Seq<Seq<char>> {
    match outcome {
        Some(route) => route_lines(route),
        None => seq!["No solution found"@],
    }
}

/// The text of each line of a list.
pub open spec fn texts(lines: Seq<String>) -> Seq<Seq<char>> {
    lines.map_values(|line: String| line@)
}

/// Renders the move from the state `from` to the state `to`.
pub fn describe_step(from: &Edge, to: &Edge) -> (line: String)
    ensures
        line@ == step_line(from@, to@),
{
    let mut line = from.node.clone();
    line.append(" ==(");
    line.append(to.color.to_string().as_str());
    line.append(")=> ");
    line.append(to.node.as_str());
    line
}

/// Renders a route, one line for each move.
pub fn solution_lines(solution: &Vec<Edge>) -> (lines: Vec<String>)
    ensures
        texts(lines@) == route_lines(hops(solution@)),
{
    let mut lines: Vec<String> = Vec::new();
    if solution.len() == 0 {
        assert(texts(lines@) =~= route_lines(hops(solution@)));
        return lines;
    }
    let mut i: usize = 1;
    while i < solution.len()
        invariant
            1 <= i <= solution.len(),
            lines@.len() == i - 1,
            forall|j: int|
                0 <= j < i - 1 ==> (#[trigger] lines@[j])@ == step_line(
                    solution@[j]@,
                    solution@[j + 1]@,
                ),
        decreases solution.len() - i,
    {
        let line = describe_step(&solution[i - 1], &solution[i]);
        lines.push(line);
        i += 1;
    }
    assert(texts(lines@) =~= route_lines(hops(solution@)));
    lines
}

/// Renders the outcome of a search: the route's lines, or the one line
/// `No solution found`.
pub fn report(outcome: &Option<Vec<Edge>>) -> (lines: Vec<String>)
    ensures
        texts(lines@) == outcome_lines(
            match outcome {
                Some(solution) => Some(hops(solution@)),
                None => None,
            },
        ),
{
    match outcome {
        Some(solution) => solution_lines(solution),
        None => {
            let mut lines: Vec<String> = Vec::new();
            lines.push("No solution found".to_owned());
            assert(texts(lines@) =~= seq!["No solution found"@]);
            lines
        },
    }
}

} // verus!
