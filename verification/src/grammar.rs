//! The text format, as a function from text to what it describes.
//!
//! A document is a list of node definitions, one per line. A definition is
//! the node's name, blanks, and one or more edges with blanks between them;
//! an edge is a colour name, a colon and the name of the node it leads to.
//!
//! Reading is greedy and never looks back further than one separator: a list
//! ends in front of the first separator that is not followed by another item.
//! What is left of the text at that point is handed back with the result.
//!
//! A text as a whole is a document only if reading it does not stop at a
//! definition that is wrong: see [`document_at`].

use crate::color::Color;
use crate::edge::Hop;
use crate::error::{ErrorKind, Fault};
use crate::lexer::{is_alpha, is_blank};
use vstd::prelude::*;

verus! {

/// One node definition: the node's name and its outgoing edges, in the order
/// in which they are written.
pub struct NodeDef {
    pub name: Seq<char>,
    pub edges: Seq<Hop>,
}

/// The number of ASCII letters that `s` starts with.
pub open spec fn alpha_len(s: Seq<char>) -> nat
    decreases s.len(),
{
    if s.len() > 0 && is_alpha(s[0]) {
        1 + alpha_len(s.skip(1))
    } else {
        0
    }
}

/// The number of blanks that `s` starts with.
pub open spec fn blank_len(s: Seq<char>) -> nat
    decreases s.len(),
{
    if s.len() > 0 && is_blank(s[0]) {
        1 + blank_len(s.skip(1))
    } else {
        0
    }
}

/// The edge that `s` starts with, and what follows it. An edge is a colour
/// name, a colon and a node name. Any name is accepted as a colour; see
/// [`Color::of_name`] for what it stands for.
pub open spec fn edge_at(s: Seq<char>) -> Result<(Seq<char>, Hop), Fault> {
    let c: nat = alpha_len(s);
    let after_color = s.skip(c as int);
    let after_colon = after_color.skip(1);
    let n: nat = alpha_len(after_colon);
    if c == 0 {
        Err(Fault { input: s, code: ErrorKind::Alpha })
    } else if after_color.len() == 0 || after_color[0] != ':' {
        Err(Fault { input: after_color, code: ErrorKind::Tag })
    } else if n == 0 {
        Err(Fault { input: after_colon, code: ErrorKind::Alpha })
    } else {
        Ok(
            (
                after_colon.skip(n as int),
                Hop { color: Color::of_name(s.take(c as int)), node: after_colon.take(n as int) },
            ),
        )
    }
}

/// The edges that follow the first edge of a definition: as long as blanks
/// and then an edge can be read, that edge belongs to the list. Returns what
/// is left of `s` with the edges.
pub open spec fn more_edges(s: Seq<char>) -> (Seq<char>, Seq<Hop>)
    decreases s.len(),
{
    let b: nat = blank_len(s);
    if b == 0 {
        (s, Seq::empty())
    } else {
        match edge_at(s.skip(b as int)) {
            Err(_) => (s, Seq::empty()),
            Ok((rest, edge)) => {
                proof {
                    blank_len_bound(s);
                    edge_at_consumes(s.skip(b as int));
                }
                let (end, edges) = more_edges(rest);
                (end, seq![edge] + edges)
            },
        }
    }
}

/// The list of edges that `s` starts with, and what follows it: one edge,
/// then [`more_edges`]. Fails as the first edge fails.
pub open spec fn edges_at(s: Seq<char>) -> Result<(Seq<char>, Seq<Hop>), Fault> {
    match edge_at(s) {
        Err(fault) => Err(fault),
        Ok((rest, edge)) => {
            let (end, edges) = more_edges(rest);
            Ok((end, seq![edge] + edges))
        },
    }
}

/// The node definition that `s` starts with, and what follows it: a name,
/// blanks, and a list of edges.
pub open spec fn node_at(s: Seq<char>) -> Result<(Seq<char>, NodeDef), Fault> {
    let n: nat = alpha_len(s);
    let after_name = s.skip(n as int);
    let b: nat = blank_len(after_name);
    if n == 0 {
        Err(Fault { input: s, code: ErrorKind::Alpha })
    } else if b == 0 {
        Err(Fault { input: after_name, code: ErrorKind::Space })
    } else {
        match edges_at(after_name.skip(b as int)) {
            Err(fault) => Err(fault),
            Ok((end, edges)) => Ok((end, NodeDef { name: s.take(n as int), edges })),
        }
    }
}

/// The definitions that follow the first one: as long as a line feed and
/// then a definition can be read, that definition belongs to the document.
/// Returns what is left of `s` with the definitions.
pub open spec fn more_nodes(s: Seq<char>) -> (Seq<char>, Seq<NodeDef>)
    decreases s.len(),
{
    if s.len() == 0 || s[0] != '\n' {
        (s, Seq::empty())
    } else {
        match node_at(s.skip(1)) {
            Err(_) => (s, Seq::empty()),
            Ok((rest, def)) => {
                proof {
                    node_at_consumes(s.skip(1));
                }
                let (end, defs) = more_nodes(rest);
                (end, seq![def] + defs)
            },
        }
    }
}

/// The definitions that a text starts with, and what follows them. A text
/// that starts with no definition holds none: that is no failure here.
/// Whether the text as a whole is a document is for [`document_at`] to say.
pub open spec fn nodes_at(s: Seq<char>) -> (Seq<char>, Seq<NodeDef>) {
    match node_at(s) {
        Err(_) => (s, Seq::empty()),
        Ok((rest, def)) => {
            let (end, defs) = more_nodes(rest);
            (end, seq![def] + defs)
        },
    }
}

/// The definitions of the document `s`, or what is wrong with it.
///
/// A text that is not empty and starts with no definition fails as its first
/// definition does. A text in which a line feed is followed by something
/// that is no definition fails as that definition does: the fault holds
/// what was left of the line and the part of the grammar that was missing
/// there. Any other text is a document, the empty text among them; what
/// follows the last definition, and is no line feed, is not looked at.
pub open spec fn document_at(s: Seq<char>) -> Result<Seq<NodeDef>, Fault> {
    let (rest, defs) = nodes_at(s);
    if s.len() > 0 && node_at(s) is Err {
        Err(node_at(s)->Err_0)
    } else if rest.len() > 0 && rest[0] == '\n' {
        Err(node_at(rest.skip(1))->Err_0)
    } else {
        Ok(defs)
    }
}

/// The graph that a list of definitions describes: each node with its edges.
/// Where a node is defined more than once, its last definition counts.
pub open spec fn graph_of(defs: Seq<NodeDef>) -> Map<Seq<char>, Seq<Hop>>
    decreases defs.len(),
{
    if defs.len() == 0 {
        Map::empty()
    } else {
        graph_of(defs.drop_last()).insert(defs.last().name, defs.last().edges)
    }
}

pub proof fn alpha_len_bound(s: Seq<char>)
    ensures
        alpha_len(s) <= s.len(),
    decreases s.len(),
{
    if s.len() > 0 && is_alpha(s[0]) {
        alpha_len_bound(s.skip(1));
    }
}

pub proof fn blank_len_bound(s: Seq<char>)
    ensures
        blank_len(s) <= s.len(),
    decreases s.len(),
{
    if s.len() > 0 && is_blank(s[0]) {
        blank_len_bound(s.skip(1));
    }
}

/// A run of letters followed by something that starts with no letter is
/// taken whole, and nothing more.
pub proof fn alpha_len_of_run(word: Seq<char>, rest: Seq<char>)
    requires
        forall|i: int| 0 <= i < word.len() ==> is_alpha(#[trigger] word[i]),
        rest.len() > 0 ==> !is_alpha(rest[0]),
    ensures
        alpha_len(word + rest) == word.len(),
        (word + rest).take(word.len() as int) == word,
        (word + rest).skip(word.len() as int) == rest,
    decreases word.len(),
{
    let s = word + rest;
    assert(s.take(word.len() as int) =~= word);
    assert(s.skip(word.len() as int) =~= rest);
    if word.len() == 0 {
        assert(s =~= rest);
    } else {
        assert(s[0] == word[0]);
        assert(s.skip(1) =~= word.skip(1) + rest);
        assert forall|i: int| 0 <= i < word.skip(1).len() implies is_alpha(
            #[trigger] word.skip(1)[i],
        ) by {
            assert(word.skip(1)[i] == word[i + 1]);
        }
        alpha_len_of_run(word.skip(1), rest);
    }
}

/// A run of blanks followed by something that starts with no blank is taken
/// whole, and nothing more.
pub proof fn blank_len_of_run(gap: Seq<char>, rest: Seq<char>)
    requires
        forall|i: int| 0 <= i < gap.len() ==> is_blank(#[trigger] gap[i]),
        rest.len() > 0 ==> !is_blank(rest[0]),
    ensures
        blank_len(gap + rest) == gap.len(),
        (gap + rest).take(gap.len() as int) == gap,
        (gap + rest).skip(gap.len() as int) == rest,
    decreases gap.len(),
{
    let s = gap + rest;
    assert(s.take(gap.len() as int) =~= gap);
    assert(s.skip(gap.len() as int) =~= rest);
    if gap.len() == 0 {
        assert(s =~= rest);
    } else {
        assert(s[0] == gap[0]);
        assert(s.skip(1) =~= gap.skip(1) + rest);
        assert forall|i: int| 0 <= i < gap.skip(1).len() implies is_blank(
            #[trigger] gap.skip(1)[i],
        ) by {
            assert(gap.skip(1)[i] == gap[i + 1]);
        }
        blank_len_of_run(gap.skip(1), rest);
    }
}

/// A text starts with a mark of one character exactly when that character
/// is its first.
pub proof fn starts_with_char(mark: Seq<char>, c: char, s: Seq<char>)
    requires
        mark.len() == 1,
        mark[0] == c,
    ensures
        mark.is_prefix_of(s) <==> s.len() > 0 && s[0] == c,
{
    if s.len() > 0 {
        assert(s.subrange(0, 1)[0] == s[0]);
        if s[0] == c {
            assert(mark =~= s.subrange(0, 1));
        }
    }
}

/// An edge that was read took at least three characters of the text.
pub proof fn edge_at_consumes(s: Seq<char>)
    ensures
        edge_at(s) matches Ok((rest, _)) ==> rest.len() + 3 <= s.len(),
{
    let c: nat = alpha_len(s);
    alpha_len_bound(s);
    if c <= s.len() {
        let after_colon = s.skip(c as int).skip(1);
        alpha_len_bound(after_colon);
    }
}

/// What [`more_edges`] leaves is never longer than what it was given.
pub proof fn more_edges_consumes(s: Seq<char>)
    ensures
        more_edges(s).0.len() <= s.len(),
    decreases s.len(),
{
    let b: nat = blank_len(s);
    blank_len_bound(s);
    if b > 0 {
        edge_at_consumes(s.skip(b as int));
        if let Ok((rest, _)) = edge_at(s.skip(b as int)) {
            more_edges_consumes(rest);
        }
    }
}

/// A definition that was read took at least five characters of the text.
pub proof fn node_at_consumes(s: Seq<char>)
    ensures
        node_at(s) matches Ok((rest, _)) ==> rest.len() + 5 <= s.len(),
{
    let n: nat = alpha_len(s);
    alpha_len_bound(s);
    if n <= s.len() {
        let after_name = s.skip(n as int);
        let b: nat = blank_len(after_name);
        blank_len_bound(after_name);
        if b <= after_name.len() {
            let list = after_name.skip(b as int);
            edge_at_consumes(list);
            if let Ok((rest, _)) = edge_at(list) {
                more_edges_consumes(rest);
            }
        }
    }
}

/// Where [`more_nodes`] stops in front of a line feed, no definition
/// follows that line feed.
pub proof fn more_nodes_stops_at_a_fault(s: Seq<char>)
    ensures
        ({
            let rest = more_nodes(s).0;
            rest.len() > 0 && rest[0] == '\n' ==> node_at(rest.skip(1)) is Err
        }),
    decreases s.len(),
{
    if s.len() > 0 && s[0] == '\n' {
        if let Ok((rest, _)) = node_at(s.skip(1)) {
            node_at_consumes(s.skip(1));
            more_nodes_stops_at_a_fault(rest);
        }
    }
}

/// Where a text starts with a definition and [`nodes_at`] stops in front of
/// a line feed, no definition follows that line feed: the second failure of
/// [`document_at`] is the failure of a definition.
pub proof fn unread_line_feed_has_no_definition(s: Seq<char>)
    ensures
        ({
            let rest = nodes_at(s).0;
            node_at(s) is Ok && rest.len() > 0 && rest[0] == '\n' ==> node_at(rest.skip(1)) is Err
        }),
{
    if let Ok((rest, _)) = node_at(s) {
        more_nodes_stops_at_a_fault(rest);
    }
}

/// A list of definitions that is not empty describes a graph that is not
/// empty, and the other way round.
pub proof fn graph_of_is_empty(defs: Seq<NodeDef>)
    ensures
        graph_of(defs).is_empty() <==> defs.len() == 0,
{
    if defs.len() > 0 {
        assert(graph_of(defs).contains_key(defs.last().name));
    } else {
        assert(graph_of(defs).dom() =~= Set::<Seq<char>>::empty());
    }
}

} // verus!
