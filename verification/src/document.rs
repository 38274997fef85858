//! Well-formed documents, and the proof that reading one gives back exactly
//! what it was written from.
//!
//! A well-formed document is described here by its parts: its lines, each
//! with a name and at least one edge, and each edge with the blanks in front
//! of it, its colour name and its target. [`document_text`] writes such a
//! description out; [`well_formed_text_is_read_exactly`] shows that
//! [`nodes_at`] reads the text back part by part and leaves nothing over,
//! and [`well_formed_text_is_a_document`] that the text is accepted as a
//! whole.

use crate::color::Color;
use crate::edge::Hop;
use crate::error::Fault;
use crate::grammar::{
    alpha_len_of_run, blank_len_of_run, document_at, edge_at, edges_at, graph_of, more_edges,
    more_nodes, node_at, nodes_at, NodeDef,
};
use crate::lexer::{is_alpha, is_blank};
use vstd::prelude::*;

verus! {

/// A name: one or more ASCII letters.
pub open spec fn is_name(s: Seq<char>) -> bool {
    s.len() > 0 && forall|i: int| 0 <= i < s.len() ==> is_alpha(#[trigger] s[i])
}

/// A gap: one or more blanks.
pub open spec fn is_gap(s: Seq<char>) -> bool {
    s.len() > 0 && forall|i: int| 0 <= i < s.len() ==> is_blank(#[trigger] s[i])
}

/// A text that a line may be followed by: nothing, or a line feed and more.
pub open spec fn ends_line(s: Seq<char>) -> bool {
    s.len() == 0 || s[0] == '\n'
}

/// An edge as it is written: the blanks in front of it, the name of its
/// colour and the name of the node it leads to.
pub struct EdgeText {
    pub gap: Seq<char>,
    pub color: Seq<char>,
    pub node: Seq<char>,
}

/// A line as it is written: the name of a node and its edges.
pub struct LineText {
    pub name: Seq<char>,
    pub edges: Seq<EdgeText>,
}

impl EdgeText {
    /// The blanks are a gap and both names are names.
    pub open spec fn well_formed(self) -> bool {
        is_gap(self.gap) && is_name(self.color) && is_name(self.node)
    }

    /// The edge without the blanks in front of it, such as `red:b`.
    pub open spec fn body(self) -> Seq<char> {
        self.color + seq![':'] + self.node
    }

    /// The edge with the blanks in front of it, such as ` red:b`.
    pub open spec fn text(self) -> Seq<char> {
        self.gap + self.body()
    }

    /// The edge that the text stands for.
    pub open spec fn hop(self) -> Hop {
        Hop { color: Color::of_name(self.color), node: self.node }
    }
}

/// The text of a list of edges: each with its blanks in front of it.
pub open spec fn edges_text(edges: Seq<EdgeText>) -> Seq<char>
    decreases edges.len(),
{
    if edges.len() == 0 {
        Seq::empty()
    } else {
        edges[0].text() + edges_text(edges.skip(1))
    }
}

/// The edges that a list of written edges stands for, in the same order.
pub open spec fn edges_hops(edges: Seq<EdgeText>) -> Seq<Hop> {
    edges.map_values(|e: EdgeText| e.hop())
}

impl LineText {
    /// The name is a name, and there is at least one edge, each well formed.
    pub open spec fn well_formed(self) -> bool {
        &&& is_name(self.name)
        &&& self.edges.len() > 0
        &&& forall|i: int| 0 <= i < self.edges.len() ==> (#[trigger] self.edges[i]).well_formed()
    }

    /// The line as it is written, such as `a red:b blue:a`.
    pub open spec fn text(self) -> Seq<char> {
        self.name + edges_text(self.edges)
    }

    /// The node definition that the line stands for.
    pub open spec fn def(self) -> NodeDef {
        NodeDef { name: self.name, edges: edges_hops(self.edges) }
    }
}

/// The text of the lines that follow the first: each after a line feed.
pub open spec fn more_lines_text(lines: Seq<LineText>) -> Seq<char>
    decreases lines.len(),
{
    if lines.len() == 0 {
        Seq::empty()
    } else {
        seq!['\n'] + lines[0].text() + more_lines_text(lines.skip(1))
    }
}

/// The text of a document: its lines with one line feed between them.
pub open spec fn document_text(lines: Seq<LineText>) -> Seq<char> {
    if lines.len() == 0 {
        Seq::empty()
    } else {
        lines[0].text() + more_lines_text(lines.skip(1))
    }
}

/// The node definitions that the lines of a document stand for.
pub open spec fn document_defs(lines: Seq<LineText>) -> Seq<NodeDef> {
    lines.map_values(|line: LineText| line.def())
}

/// Every line of the document is well formed.
pub open spec fn well_formed(lines: Seq<LineText>) -> bool {
    forall|i: int| 0 <= i < lines.len() ==> (#[trigger] lines[i]).well_formed()
}

/// An edge is read whatever name stands where its colour is expected: the
/// name decides the colour, never whether the edge is accepted. What
/// follows the edge is left as it is.
pub proof fn any_color_name_is_read(e: EdgeText, tail: Seq<char>)
    requires
        is_name(e.color),
        is_name(e.node),
        tail.len() > 0 ==> !is_alpha(tail[0]),
    ensures
        edge_at(e.body() + tail) == Ok::<(Seq<char>, Hop), Fault>((tail, e.hop())),
{
    let s = e.body() + tail;
    let after_color = seq![':'] + e.node + tail;
    assert(s =~= e.color + after_color);
    assert(after_color[0] == ':');
    alpha_len_of_run(e.color, after_color);
    assert(after_color.skip(1) =~= e.node + tail);
    alpha_len_of_run(e.node, tail);
}

proof fn no_edges_ahead(tail: Seq<char>)
    requires
        ends_line(tail),
    ensures
        more_edges(tail) == (tail, Seq::<Hop>::empty()),
{
}

proof fn edges_text_starts_with_blank(edges: Seq<EdgeText>, tail: Seq<char>)
    requires
        forall|i: int| 0 <= i < edges.len() ==> (#[trigger] edges[i]).well_formed(),
        ends_line(tail),
    ensures
        (edges_text(edges) + tail).len() > 0 ==> !is_alpha((edges_text(edges) + tail)[0]),
{
    if edges.len() > 0 {
        assert(edges[0].well_formed());
        let s = edges_text(edges) + tail;
        assert(s[0] == edges[0].gap[0]);
        assert(is_blank(edges[0].gap[0]));
    }
}

proof fn more_edges_are_read(edges: Seq<EdgeText>, tail: Seq<char>)
    requires
        forall|i: int| 0 <= i < edges.len() ==> (#[trigger] edges[i]).well_formed(),
        ends_line(tail),
    ensures
        more_edges(edges_text(edges) + tail) == (tail, edges_hops(edges)),
    decreases edges.len(),
{
    let s = edges_text(edges) + tail;
    if edges.len() == 0 {
        assert(s =~= tail);
        no_edges_ahead(tail);
        assert(edges_hops(edges) =~= Seq::<Hop>::empty());
    } else {
        let e = edges[0];
        let others = edges.skip(1);
        let after = edges_text(others) + tail;
        assert(e.well_formed());
        assert forall|i: int| 0 <= i < others.len() implies (#[trigger] others[i]).well_formed(
        ) by {
            assert(others[i] == edges[i + 1]);
        }
        assert(s =~= e.gap + (e.body() + after));
        assert((e.body() + after)[0] == e.color[0]);
        assert(is_alpha(e.color[0]));
        blank_len_of_run(e.gap, e.body() + after);
        edges_text_starts_with_blank(others, tail);
        any_color_name_is_read(e, after);
        more_edges_are_read(others, tail);
        assert(edges_hops(edges) =~= seq![e.hop()] + edges_hops(others));
    }
}

proof fn line_is_read(line: LineText, tail: Seq<char>)
    requires
        line.well_formed(),
        ends_line(tail),
    ensures
        node_at(line.text() + tail) == Ok::<(Seq<char>, NodeDef), Fault>(
            (tail, line.def()),
        ),
{
    let s = line.text() + tail;
    let e = line.edges[0];
    let others = line.edges.skip(1);
    let after = edges_text(others) + tail;
    assert(e.well_formed());
    assert forall|i: int| 0 <= i < others.len() implies (#[trigger] others[i]).well_formed() by {
        assert(others[i] == line.edges[i + 1]);
    }
    let after_name = e.gap + (e.body() + after);
    assert(s =~= line.name + after_name);
    assert(after_name[0] == e.gap[0]);
    assert(is_blank(e.gap[0]));
    alpha_len_of_run(line.name, after_name);
    assert((e.body() + after)[0] == e.color[0]);
    assert(is_alpha(e.color[0]));
    blank_len_of_run(e.gap, e.body() + after);
    edges_text_starts_with_blank(others, tail);
    any_color_name_is_read(e, after);
    more_edges_are_read(others, tail);
    assert(edges_hops(line.edges) =~= seq![e.hop()] + edges_hops(others));
    assert(edges_at(e.body() + after) == Ok::<(Seq<char>, Seq<Hop>), Fault>(
        (tail, edges_hops(line.edges)),
    ));
}

proof fn more_lines_text_ends_line(lines: Seq<LineText>)
    ensures
        ends_line(more_lines_text(lines)),
{
}

proof fn more_lines_are_read(lines: Seq<LineText>)
    requires
        well_formed(lines),
    ensures
        more_nodes(more_lines_text(lines)) == (Seq::<char>::empty(), document_defs(lines)),
    decreases lines.len(),
{
    let s = more_lines_text(lines);
    if lines.len() == 0 {
        assert(document_defs(lines) =~= Seq::<NodeDef>::empty());
    } else {
        let line = lines[0];
        let others = lines.skip(1);
        let tail = more_lines_text(others);
        assert(line.well_formed());
        assert forall|i: int| 0 <= i < others.len() implies (#[trigger] others[i]).well_formed(
        ) by {
            assert(others[i] == lines[i + 1]);
        }
        assert(s[0] == '\n');
        assert(s.skip(1) =~= line.text() + tail);
        line_is_read(line, tail);
        more_lines_are_read(others);
        assert(document_defs(lines) =~= seq![line.def()] + document_defs(others));
    }
}

/// Reading the text of a well-formed document gives the definitions of its
/// lines, in order and each with its edges in order, and leaves nothing of
/// the text unread. Blanks may be spaces or tabs, in runs of any length, and
/// any name may stand where a colour is expected.
pub proof fn well_formed_text_is_read_exactly(lines: Seq<LineText>)
    requires
        well_formed(lines),
    ensures
        nodes_at(document_text(lines)) == (Seq::<char>::empty(), document_defs(lines)),
{
    if lines.len() == 0 {
        assert(document_defs(lines) =~= Seq::<NodeDef>::empty());
    } else {
        let line = lines[0];
        let others = lines.skip(1);
        let tail = more_lines_text(others);
        assert(line.well_formed());
        assert forall|i: int| 0 <= i < others.len() implies (#[trigger] others[i]).well_formed(
        ) by {
            assert(others[i] == lines[i + 1]);
        }
        line_is_read(line, tail);
        more_lines_are_read(others);
        assert(document_defs(lines) =~= seq![line.def()] + document_defs(others));
    }
}

/// The text of a well-formed document is accepted as a whole, and stands
/// for the definitions of its lines.
pub proof fn well_formed_text_is_a_document(lines: Seq<LineText>)
    requires
        well_formed(lines),
    ensures
        document_at(document_text(lines)) == Ok::<Seq<NodeDef>, Fault>(document_defs(lines)),
{
    well_formed_text_is_read_exactly(lines);
    if lines.len() > 0 {
        assert(lines[0].well_formed());
        let tail = more_lines_text(lines.skip(1));
        assert forall|i: int| 0 <= i < lines.skip(1).len() implies (#[trigger] lines.skip(
            1,
        )[i]).well_formed() by {
            assert(lines.skip(1)[i] == lines[i + 1]);
        }
        more_lines_text_ends_line(lines.skip(1));
        line_is_read(lines[0], tail);
    }
}

/// The graph of a list of definitions holds a node exactly when one of the
/// definitions is for it.
pub proof fn graph_of_holds_the_defined(defs: Seq<NodeDef>, name: Seq<char>)
    ensures
        graph_of(defs).contains_key(name) <==> exists|i: int|
            0 <= i < defs.len() && (#[trigger] defs[i]).name == name,
    decreases defs.len(),
{
    if defs.len() > 0 {
        let front = defs.drop_last();
        graph_of_holds_the_defined(front, name);
        if graph_of(defs).contains_key(name) {
            if defs.last().name == name {
                assert(defs[defs.len() - 1].name == name);
            } else {
                let i = choose|i: int| 0 <= i < front.len() && (#[trigger] front[i]).name == name;
                assert(defs[i].name == name);
            }
        }
        if exists|i: int| 0 <= i < defs.len() && (#[trigger] defs[i]).name == name {
            let i = choose|i: int| 0 <= i < defs.len() && (#[trigger] defs[i]).name == name;
            if i < front.len() {
                assert(front[i].name == name);
            }
        }
    }
}

/// The graph of a list of definitions gives a node the edges of the last
/// definition that is for it.
pub proof fn graph_of_keeps_the_last(defs: Seq<NodeDef>, i: int)
    requires
        0 <= i < defs.len(),
        forall|j: int| i < j < defs.len() ==> (#[trigger] defs[j]).name != defs[i].name,
    ensures
        graph_of(defs).contains_key(defs[i].name),
        graph_of(defs)[defs[i].name] == defs[i].edges,
    decreases defs.len(),
{
    if i < defs.len() - 1 {
        let front = defs.drop_last();
        assert(defs.last() == defs[defs.len() - 1]);
        assert forall|j: int| i < j < front.len() implies (#[trigger] front[j]).name
            != front[i].name by {
            assert(front[j] == defs[j]);
        }
        graph_of_keeps_the_last(front, i);
    }
}

} // verus!
