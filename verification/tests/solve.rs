use wall_puzzle::color::{can_follow, Color};
use wall_puzzle::edge::Edge;
use wall_puzzle::puzzle::Puzzle;

fn state(color: Color, node: &str) -> Edge {
    Edge { color, node: node.to_string() }
}

/// Whether `route` is a route of `puzzle` from `start` to `end`.
fn is_route(puzzle: &Puzzle, start: &str, end: &str, route: &[Edge]) -> bool {
    if route.is_empty() || route[0] != state(Color::Neutral, start) {
        return false;
    }
    if route[route.len() - 1].node != end {
        return false;
    }
    route.windows(2).all(|pair| {
        puzzle.successors(&pair[0]).iter().any(|(next, cost)| *next == pair[1] && *cost == 1)
    })
}

/// The number of states on a shortest route, found by trying the states
/// level by level.
fn shortest_len(puzzle: &Puzzle, start: &str, end: &str) -> Option<usize> {
    let mut seen = vec![state(Color::Neutral, start)];
    let mut level = seen.clone();
    let mut len = 1;
    while !level.is_empty() {
        if level.iter().any(|s| s.node == end) {
            return Some(len);
        }
        let mut next = Vec::new();
        for s in &level {
            for (t, _) in puzzle.successors(s) {
                if !seen.contains(&t) {
                    seen.push(t.clone());
                    next.push(t);
                }
            }
        }
        level = next;
        len += 1;
    }
    None
}

#[test]
fn test_solve_simple() {
    let input = "a red:b \nb blue:a";
    let puzzle: Puzzle = input.parse().unwrap();
    let solution = puzzle.solve("a".to_string(), "b".to_string());
    assert_eq!(
        solution,
        Some(vec![
            Edge {
                color: Color::Neutral,
                node: "a".to_string()
            },
            Edge {
                color: Color::Red,
                node: "b".to_string()
            },
        ])
    );
}

#[test]
fn test_solve_complex() {
    let input = "s red:a\na blue:b red:e\nb red:c blue:a\nc blue:c red:b\ne blue:t";
    let puzzle: Puzzle = input.parse().unwrap();
    let solution = puzzle.solve("s".to_string(), "t".to_string());
    assert_eq!(
        solution,
        Some(vec![
            Edge {
                color: Color::Neutral,
                node: "s".to_string()
            },
            Edge {
                color: Color::Red,
                node: "a".to_string()
            },
            Edge {
                color: Color::Blue,
                node: "b".to_string()
            },
            Edge {
                color: Color::Red,
                node: "c".to_string()
            },
            Edge {
                color: Color::Blue,
                node: "c".to_string()
            },
            Edge {
                color: Color::Red,
                node: "b".to_string()
            },
            Edge {
                color: Color::Blue,
                node: "a".to_string()
            },
            Edge {
                color: Color::Red,
                node: "e".to_string()
            },
            Edge {
                color: Color::Blue,
                node: "t".to_string()
            }
        ])
    );
}

#[test]
fn can_follow_forbids_only_a_repeated_color() {
    assert!(!can_follow(Color::Red, Color::Red));
    assert!(!can_follow(Color::Blue, Color::Blue));
    assert!(can_follow(Color::Neutral, Color::Neutral));
    assert!(can_follow(Color::Red, Color::Blue));
    assert!(can_follow(Color::Blue, Color::Red));
    for color in [Color::Red, Color::Blue, Color::Neutral] {
        assert!(can_follow(Color::Neutral, color));
        assert!(can_follow(color, Color::Neutral));
    }
}

#[test]
fn successors_keep_the_order_of_the_edges_and_cost_one() {
    let puzzle = Puzzle::from_str("a red:b blue:c green:d red:a").unwrap();
    assert_eq!(
        puzzle.successors(&state(Color::Neutral, "a")),
        vec![
            (state(Color::Red, "b"), 1),
            (state(Color::Blue, "c"), 1),
            (state(Color::Neutral, "d"), 1),
            (state(Color::Red, "a"), 1),
        ]
    );
    assert_eq!(
        puzzle.successors(&state(Color::Red, "a")),
        vec![(state(Color::Blue, "c"), 1), (state(Color::Neutral, "d"), 1)]
    );
    assert_eq!(
        puzzle.successors(&state(Color::Blue, "a")),
        vec![
            (state(Color::Red, "b"), 1),
            (state(Color::Neutral, "d"), 1),
            (state(Color::Red, "a"), 1),
        ]
    );
}

#[test]
fn a_node_without_an_entry_has_no_successors() {
    let puzzle = Puzzle::from_str("a red:b").unwrap();
    assert_eq!(puzzle.successors(&state(Color::Red, "b")), vec![]);
    assert_eq!(puzzle.successors(&state(Color::Neutral, "zz")), vec![]);
}

#[test]
fn is_at_looks_at_the_node_only() {
    assert!(state(Color::Red, "b").is_at(&"b".to_string()));
    assert!(state(Color::Neutral, "b").is_at(&"b".to_string()));
    assert!(!state(Color::Red, "b").is_at(&"a".to_string()));
}

#[test]
fn from_a_node_to_itself_the_route_is_the_start_state() {
    let puzzle = Puzzle::from_str("a red:b\nb blue:a").unwrap();
    for node in ["a", "b", "nowhere"] {
        assert_eq!(
            puzzle.solve(node.to_string(), node.to_string()),
            Some(vec![state(Color::Neutral, node)])
        );
    }
    let empty = Puzzle::new();
    assert_eq!(
        empty.solve("x".to_string(), "x".to_string()),
        Some(vec![state(Color::Neutral, "x")])
    );
}

#[test]
fn no_route_to_a_node_that_nothing_leads_to() {
    let puzzle = Puzzle::from_str("a red:b blue:a\nc red:a blue:b").unwrap();
    assert_eq!(puzzle.solve("a".to_string(), "c".to_string()), None);
}

#[test]
fn no_route_where_every_path_repeats_a_color() {
    let puzzle = Puzzle::from_str("a red:b\nb red:c").unwrap();
    assert_eq!(puzzle.solve("a".to_string(), "b".to_string()).map(|r| r.len()), Some(2));
    assert_eq!(puzzle.solve("a".to_string(), "c".to_string()), None);
    assert_eq!(puzzle.solve("b".to_string(), "c".to_string()).map(|r| r.len()), Some(2));
}

#[test]
fn a_start_that_the_graph_does_not_hold_leads_nowhere() {
    let puzzle = Puzzle::from_str("a red:b").unwrap();
    assert_eq!(puzzle.solve("x".to_string(), "a".to_string()), None);
    assert_eq!(Puzzle::new().solve("a".to_string(), "b".to_string()), None);
}

#[test]
fn a_neutral_edge_may_follow_and_be_followed_by_any_color() {
    let puzzle = Puzzle::from_str("a red:b\nb green:c\nc green:d\nd red:e").unwrap();
    assert_eq!(
        puzzle.solve("a".to_string(), "e".to_string()),
        Some(vec![
            state(Color::Neutral, "a"),
            state(Color::Red, "b"),
            state(Color::Neutral, "c"),
            state(Color::Neutral, "d"),
            state(Color::Red, "e"),
        ])
    );
}

#[test]
fn the_longer_way_is_taken_where_the_short_one_repeats_a_color() {
    let puzzle = Puzzle::from_str("a red:b red:c\nb red:z\nc blue:d\nd red:z").unwrap();
    assert_eq!(
        puzzle.solve("a".to_string(), "z".to_string()),
        Some(vec![
            state(Color::Neutral, "a"),
            state(Color::Red, "c"),
            state(Color::Blue, "d"),
            state(Color::Red, "z"),
        ])
    );
}

#[test]
fn a_node_may_be_passed_twice_with_different_colors() {
    let puzzle = Puzzle::from_str("a red:b\nb red:c blue:b").unwrap();
    assert_eq!(
        puzzle.solve("a".to_string(), "c".to_string()),
        Some(vec![
            state(Color::Neutral, "a"),
            state(Color::Red, "b"),
            state(Color::Blue, "b"),
            state(Color::Red, "c"),
        ])
    );
}

#[test]
fn the_route_found_is_as_short_as_any() {
    let texts = [
        "a red:b blue:c\nb blue:d red:c\nc red:d blue:a\nd blue:e red:a\ne red:f",
        "a red:b red:c blue:d\nb red:e\nc blue:e\nd red:e\ne blue:f red:g\ng blue:f",
        "s red:a\na blue:b red:e\nb red:c blue:a\nc blue:c red:b\ne blue:t",
        "a red:a blue:a green:a",
    ];
    let names = ["a", "b", "c", "d", "e", "f", "g", "s", "t"];
    for text in texts {
        let puzzle = Puzzle::from_str(text).unwrap();
        for start in names {
            for end in names {
                let found = puzzle.solve(start.to_string(), end.to_string());
                let expected = shortest_len(&puzzle, start, end);
                assert_eq!(found.as_ref().map(|route| route.len()), expected);
                if let Some(route) = found {
                    assert!(is_route(&puzzle, start, end, &route));
                }
            }
        }
    }
}

#[test]
fn where_two_routes_are_shortest_one_of_them_is_found() {
    let puzzle = Puzzle::from_str("a red:b blue:c\nb blue:d\nc red:d").unwrap();
    let route = puzzle.solve("a".to_string(), "d".to_string()).unwrap();
    let by_b = vec![state(Color::Neutral, "a"), state(Color::Red, "b"), state(Color::Blue, "d")];
    let by_c = vec![state(Color::Neutral, "a"), state(Color::Blue, "c"), state(Color::Red, "d")];
    assert!(route == by_b || route == by_c);
}
