//! Edge colours and the rule that says which colour may follow which.

use vstd::prelude::*;
use vstd::std_specs::convert::FromSpecImpl;

verus! {

/// The colour of an edge. `Neutral` stands for "no colour": it is the colour of
/// the state a search starts in, and an edge that carries it is never in
/// conflict with the edge before it.
#[derive(Copy, Clone, Debug, PartialEq, Eq, Hash, Structural)]
pub enum Color {
    Red,
    Blue,
    Neutral,
}

/// Whether an edge of colour `next` may be taken right after an edge of
/// colour `last`: always, unless both are the same colour other than `Neutral`.
pub open spec fn compatible(last: Color, next: Color) -> bool {
    next == Color::Neutral || last != next
}

impl Color {
    /// The colour a name stands for. Every name other than `red` and `blue`
    /// stands for `Neutral`.
    pub open spec fn of_name(name: Seq<char>) -> Color {
        if name == "red"@ {
            Color::Red
        } else if name == "blue"@ {
            Color::Blue
        } else {
            Color::Neutral
        }
    }

    /// The lower-case name a colour is written with.
    pub open spec fn name(self) -> Seq<char> {
        match self {
            Color::Red => "red"@,
            Color::Blue => "blue"@,
            Color::Neutral => "none"@,
        }
    }

    /// The colour's name as an owned string.
    pub fn to_string(&self) -> (r: String)
        ensures
            r@ == self.name(),
    {
        match self {
            Color::Red => "red".to_owned(),
            Color::Blue => "blue".to_owned(),
            Color::Neutral => "none".to_owned(),
        }
    }
}

impl<'a> From<&'a str> for Color {
    /// Reads a colour name. Unknown names are not an error: they give `Neutral`.
    fn from(s: &'a str) -> (r: Color) {
        let name = s.to_owned();
        if name == "red".to_owned() {
            Color::Red
        } else if name == "blue".to_owned() {
            Color::Blue
        } else {
            Color::Neutral
        }
    }
}

impl<'a> FromSpecImpl<&'a str> for Color {
    open spec fn obeys_from_spec() -> bool {
        true
    }

    open spec fn from_spec(s: &'a str) -> Color {
        Color::of_name(s@)
    }
}

/// Decides whether an edge of colour `next` may follow one of colour `last`.
pub fn can_follow(last: Color, next: Color) -> (r: bool)
    ensures
        r == compatible(last, next),
{
    next == Color::Neutral || last != next
}

/// The colour rule, case by case: a colour never follows itself, except for
/// `Neutral`; `Neutral` conflicts with nothing on either side; two different
/// colours never conflict.
pub proof fn compatible_laws(a: Color, b: Color)
    ensures
        a != Color::Neutral ==> !compatible(a, a),
        compatible(Color::Neutral, a),
        compatible(a, Color::Neutral),
        a != b ==> compatible(a, b),
{
}

/// A name other than `red` and `blue` stands for `Neutral`.
pub proof fn unknown_name_is_neutral(name: Seq<char>)
    requires
        name != "red"@,
        name != "blue"@,
    ensures
        Color::of_name(name) == Color::Neutral,
{
}

/// The three colour names are pairwise different, and each is read back as
/// the colour it names.
pub proof fn name_round_trip(c: Color)
    ensures
        Color::of_name(c.name()) == c,
{
    reveal_strlit("red");
    reveal_strlit("blue");
    reveal_strlit("none");
    assert("red"@.len() == 3);
    assert("blue"@.len() == 4);
    assert("none"@[0] == 'n');
    assert("blue"@[0] == 'b');
}

} // verus!
