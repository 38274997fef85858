//! Reading a puzzle from text.

use crate::color::Color;
use crate::edge::{hops, Edge, Hop};
use crate::error::{ErrorKind, Fault, ParseError};
use crate::grammar::{
    alpha_len_of_run, blank_len_of_run, document_at, edge_at, edge_at_consumes, edges_at,
    graph_of, graph_of_is_empty, more_edges, more_nodes, node_at, node_at_consumes, nodes_at,
    starts_with_char, unread_line_feed_has_no_definition, NodeDef,
};
use crate::lexer::{alpha1, space1, tag};
use crate::puzzle::Puzzle;
use vstd::prelude::*;

verus! {

/// The definition that a parsed name and edge list stand for.
pub open spec fn node_def(node: (String, Vec<Edge>)) -> NodeDef {
    NodeDef { name: node.0@, edges: hops(node.1@) }
}

impl Puzzle {
    /// Parses one edge, such as `red:b`, at the start of `input`.
    ///
    /// Returns the edge and the rest of the input. Fails with `Alpha` where
    /// one of the two names is missing and with `Tag` where the colon is;
    /// the error holds the input from the missing part on.
    pub fn parse_edge<'a>(input: &'a str) -> (r: Result<(&'a str, Edge), ParseError>)
        ensures
            match r {
                Ok((rest, edge)) => edge_at(input@) == Ok::<(Seq<char>, Hop), Fault>(
                    (rest@, edge@),
                ),
                Err(e) => edge_at(input@) == Err::<(Seq<char>, Hop), Fault>(e@),
            },
    {
        let (after_color, color) = match alpha1(input) {
            Some(found) => found,
            None => {
                return Err(ParseError::new(input, ErrorKind::Alpha));
            },
        };
        proof {
            alpha_len_of_run(color@, after_color@);
            reveal_strlit(":");
            starts_with_char(":"@, ':', after_color@);
        }
        let after_colon = match tag(":", after_color) {
            Some(rest) => rest,
            None => {
                return Err(ParseError::new(after_color, ErrorKind::Tag));
            },
        };
        let (rest, node) = match alpha1(after_colon) {
            Some(found) => found,
            None => {
                return Err(ParseError::new(after_colon, ErrorKind::Alpha));
            },
        };
        proof {
            alpha_len_of_run(node@, rest@);
        }
        Ok((rest, Edge::new(Color::from(color), node.to_owned())))
    }

    /// Parses a list of one or more edges with blanks between them, such as
    /// `red:b blue:a`, at the start of `input`.
    ///
    /// Fails as the first edge fails. After that the list ends where no
    /// blanks follow, or where no edge follows the blanks; those blanks are
    /// then left in the rest.
    pub fn parse_edges<'a>(input: &'a str) -> (r: Result<(&'a str, Vec<Edge>), ParseError>)
        ensures
            match r {
                Ok((rest, edges)) => edges_at(input@) == Ok::<(Seq<char>, Seq<Hop>), Fault>(
                    (rest@, hops(edges@)),
                ),
                Err(e) => edges_at(input@) == Err::<(Seq<char>, Seq<Hop>), Fault>(e@),
            },
    {
        let (after_first, first) = match Puzzle::parse_edge(input) {
            Ok(found) => found,
            Err(e) => {
                return Err(e);
            },
        };
        let ghost goal = more_edges(after_first@);
        let ghost head = first@;
        let mut edges: Vec<Edge> = Vec::new();
        edges.push(first);
        let mut cur = after_first;
        let mut done = false;
        assert(hops(edges@) =~= seq![head]);
        while !done
            invariant
                more_edges(cur@).0 == goal.0,
                hops(edges@) + more_edges(cur@).1 == seq![head] + goal.1,
                done ==> more_edges(cur@) == (cur@, Seq::<Hop>::empty()),
            decreases cur@.len(), (if done { 0int } else { 1int }),
        {
            match space1(cur) {
                None => {
                    done = true;
                },
                Some((after_gap, gap)) => {
                    proof {
                        blank_len_of_run(gap@, after_gap@);
                        edge_at_consumes(after_gap@);
                    }
                    match Puzzle::parse_edge(after_gap) {
                        Err(_) => {
                            done = true;
                        },
                        Ok((rest, edge)) => {
                            proof {
                                let before = hops(edges@);
                                let tail = more_edges(rest@).1;
                                assert(hops(edges@.push(edge)) =~= before.push(edge@));
                                assert(before.push(edge@) + tail =~= before + (seq![edge@] + tail));
                            }
                            edges.push(edge);
                            cur = rest;
                        },
                    }
                },
            }
        }
        Ok((cur, edges))
    }

    /// Parses one node definition, such as `a red:b blue:a`, at the start of
    /// `input`: a name, blanks, and a list of edges.
    ///
    /// Returns the name with the edges, and the rest of the input. Fails with
    /// `Alpha` where the name is missing, with `Space` where no blank follows
    /// it, and as the first edge fails.
    pub fn parse_node<'a>(input: &'a str) -> (r: Result<
        (&'a str, (String, Vec<Edge>)),
        ParseError,
    >)
        ensures
            match r {
                Ok((rest, node)) => node_at(input@) == Ok::<(Seq<char>, NodeDef), Fault>(
                    (rest@, node_def(node)),
                ),
                Err(e) => node_at(input@) == Err::<(Seq<char>, NodeDef), Fault>(e@),
            },
    {
        let (after_name, name) = match alpha1(input) {
            Some(found) => found,
            None => {
                return Err(ParseError::new(input, ErrorKind::Alpha));
            },
        };
        proof {
            alpha_len_of_run(name@, after_name@);
        }
        let (list, gap) = match space1(after_name) {
            Some(found) => found,
            None => {
                return Err(ParseError::new(after_name, ErrorKind::Space));
            },
        };
        proof {
            blank_len_of_run(gap@, list@);
        }
        match Puzzle::parse_edges(list) {
            Err(e) => Err(e),
            Ok((rest, edges)) => Ok((rest, (name.to_owned(), edges))),
        }
    }

    /// Parses a puzzle at the start of `input`: node definitions with one
    /// line feed between them.
    ///
    /// This never fails. The puzzle ends in front of the first line feed that
    /// no definition follows, or at once where the input starts with no
    /// definition; the rest of the input is returned with the puzzle, for
    /// the caller to judge. Where a node is defined twice, the later
    /// definition replaces the earlier.
    pub fn parse_puzzle<'a>(input: &'a str) -> (r: Result<(&'a str, Puzzle), ParseError>)
        ensures
            r matches Ok((rest, puzzle)) && rest@ == nodes_at(input@).0 && puzzle@ == graph_of(
                nodes_at(input@).1,
            ),
    {
        let mut puzzle = Puzzle::new();
        let (after_first, first) = match Puzzle::parse_node(input) {
            Ok(found) => found,
            Err(_) => {
                return Ok((input, puzzle));
            },
        };
        let ghost goal = more_nodes(after_first@);
        let ghost head = node_def(first);
        let ghost mut seen: Seq<NodeDef> = seq![head];
        puzzle.insert(first.0, first.1);
        let mut cur = after_first;
        let mut done = false;
        proof {
            assert(seen.drop_last() =~= Seq::<NodeDef>::empty());
            assert(graph_of(seen.drop_last()) == Map::<Seq<char>, Seq<Hop>>::empty());
        }
        while !done
            invariant
                more_nodes(cur@).0 == goal.0,
                seen + more_nodes(cur@).1 == seq![head] + goal.1,
                puzzle@ == graph_of(seen),
                done ==> more_nodes(cur@) == (cur@, Seq::<NodeDef>::empty()),
            decreases cur@.len(), (if done { 0int } else { 1int }),
        {
            proof {
                reveal_strlit("\n");
                starts_with_char("\n"@, '\n', cur@);
            }
            match tag("\n", cur) {
                None => {
                    done = true;
                },
                Some(line) => {
                    proof {
                        node_at_consumes(line@);
                    }
                    match Puzzle::parse_node(line) {
                        Err(_) => {
                            done = true;
                        },
                        Ok((rest, node)) => {
                            proof {
                                let def = node_def(node);
                                let tail = more_nodes(rest@).1;
                                assert(seen.push(def) + tail =~= seen + (seq![def] + tail));
                                assert(seen.push(def).drop_last() =~= seen);
                                seen = seen.push(def);
                            }
                            puzzle.insert(node.0, node.1);
                            cur = rest;
                        },
                    }
                },
            }
        }
        proof {
            assert(seen =~= seen + Seq::<NodeDef>::empty());
        }
        Ok((cur, puzzle))
    }

    /// Reads a puzzle from the text `s` as a whole.
    ///
    /// Fails where the text is not empty and starts with no definition, and
    /// where a line feed is followed by something that is no definition; the
    /// error is that of the definition that could not be read, and no puzzle
    /// is returned. Otherwise returns the puzzle of the definitions read.
    /// The empty text gives the empty puzzle. What follows the last
    /// definition on its line is ignored, a single line feed at the end of
    /// the text is not.
    pub fn from_str(s: &str) -> (r: Result<Puzzle, ParseError>)
        ensures
            match r {
                Ok(puzzle) => document_at(s@) matches Ok(defs) && puzzle@ == graph_of(defs),
                Err(e) => document_at(s@) == Err::<Seq<NodeDef>, Fault>(e@),
            },
    {
        if s.is_empty() {
            return Ok(Puzzle::new());
        }
        let (rest, puzzle) = match Puzzle::parse_puzzle(s) {
            Ok(found) => found,
            Err(e) => {
                return Err(e);
            },
        };
        proof {
            graph_of_is_empty(nodes_at(s@).1);
            unread_line_feed_has_no_definition(s@);
            reveal_strlit("\n");
            starts_with_char("\n"@, '\n', rest@);
        }
        if puzzle.is_empty() {
            return Err(Puzzle::parse_node(s).unwrap_err());
        }
        match tag("\n", rest) {
            None => Ok(puzzle),
            Some(line) => Err(Puzzle::parse_node(line).unwrap_err()),
        }
    }
}

impl std::str::FromStr for Puzzle {
    type Err = ParseError;

    /// Reads a puzzle from text, as [`Puzzle::from_str`] does.
    fn from_str(s: &str) -> (r: Result<Puzzle, ParseError>)
        ensures
            match r {
                Ok(puzzle) => document_at(s@) matches Ok(defs) && puzzle@ == graph_of(defs),
                Err(e) => document_at(s@) == Err::<Seq<NodeDef>, Fault>(e@),
            },
    {
        Puzzle::from_str(s)
    }
}

} // verus!
