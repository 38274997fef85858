use wall_puzzle::color::Color;
use wall_puzzle::edge::Edge;
use wall_puzzle::puzzle::Puzzle;
use wall_puzzle::report::{describe_step, report, solution_lines};

fn state(color: Color, node: &str) -> Edge {
    Edge::new(color, node.to_string())
}

#[test]
fn a_step_names_both_nodes_and_the_color_taken() {
    assert_eq!(
        describe_step(&state(Color::Neutral, "a"), &state(Color::Red, "b")),
        "a ==(red)=> b"
    );
    assert_eq!(
        describe_step(&state(Color::Red, "b"), &state(Color::Blue, "home")),
        "b ==(blue)=> home"
    );
    assert_eq!(
        describe_step(&state(Color::Blue, "x"), &state(Color::Neutral, "y")),
        "x ==(none)=> y"
    );
}

#[test]
fn a_route_has_one_line_for_each_move() {
    let route = vec![
        state(Color::Neutral, "s"),
        state(Color::Red, "a"),
        state(Color::Blue, "b"),
        state(Color::Neutral, "t"),
    ];
    assert_eq!(
        solution_lines(&route),
        vec!["s ==(red)=> a", "a ==(blue)=> b", "b ==(none)=> t"]
    );
}

#[test]
fn a_route_without_a_move_has_no_line() {
    assert_eq!(solution_lines(&vec![state(Color::Neutral, "a")]), Vec::<String>::new());
    assert_eq!(solution_lines(&Vec::new()), Vec::<String>::new());
    assert_eq!(report(&Some(vec![state(Color::Neutral, "a")])), Vec::<String>::new());
}

#[test]
fn no_route_is_reported_in_one_line() {
    assert_eq!(report(&None), vec!["No solution found"]);
}

#[test]
fn a_solved_puzzle_is_reported_move_by_move() {
    let puzzle = Puzzle::from_str("a red:b \nb blue:a").unwrap();
    let outcome = puzzle.solve("a".to_string(), "b".to_string());
    assert_eq!(report(&outcome), vec!["a ==(red)=> b"]);
    let outcome = puzzle.solve("b".to_string(), "a".to_string());
    assert_eq!(report(&outcome), vec!["No solution found"]);
}
