use todo::todos::{todos, todos_in_text, Todo, TodoInCode};

fn todo(ticket_id: &str, message: Option<&str>) -> Todo {
    Todo {
        ticket_id: ticket_id.to_string(),
        message: message.map(|m| m.to_string()),
    }
}

fn at(file: &str, line: usize, ticket_id: &str, message: Option<&str>) -> TodoInCode {
    TodoInCode {
        file: file.to_string(),
        line,
        ticket_id: ticket_id.to_string(),
        message: message.map(|m| m.to_string()),
    }
}

fn sorted(mut v: Vec<TodoInCode>) -> Vec<TodoInCode> {
    v.sort_by(|a, b| (a.file.clone(), a.line).cmp(&(b.file.clone(), b.line)));
    v
}

#[test]
fn test_parse_code_lines() {
    let cases = vec![
        ("// TODO(ID-1234): Do this soon", todo("ID-1234", Some("Do this soon"))),
        ("// TODO(ID-1234):", todo("ID-1234", Some(""))),
        ("// TODO(ID-1234)", todo("ID-1234", None)),
        ("// TODO(ID-1234):Do this soon", todo("ID-1234", Some("Do this soon"))),
        ("let x = 5; // TODO(ID-1234): Do this soon", todo("ID-1234", Some("Do this soon"))),
        ("let x = 5;// TODO(ID-1234): Do this soon", todo("ID-1234", Some("Do this soon"))),
    ];
    for (line, expected) in cases {
        assert_eq!(Todo::parse(line).unwrap(), expected);
    }
}

#[test]
fn lines_without_a_marker_give_nothing() {
    for line in [
        "",
        "let x = 5;",
        "// TODO: no ticket",
        "// TODO() empty ticket",
        "// TODO(ID-1 never closed",
        "/ TODO(ID-1)",
        "TODO(ID-1)",
        "// todo(ID-1)",
        "// XTODO(ID-1)",
    ] {
        assert_eq!(Todo::parse(line), None, "{line}");
    }
}

#[test]
fn blanks_between_slashes_and_marker() {
    assert_eq!(Todo::parse("//TODO(A-1)"), Some(todo("A-1", None)));
    assert_eq!(Todo::parse("//\t  TODO(A-1): x"), Some(todo("A-1", Some("x"))));
}

#[test]
fn blanks_around_the_colon() {
    assert_eq!(Todo::parse("// TODO(A-1) : x y "), Some(todo("A-1", Some("x y "))));
    assert_eq!(Todo::parse("// TODO(A-1)\t:\t"), Some(todo("A-1", Some(""))));
}

#[test]
fn text_after_the_marker_without_colon_is_no_message() {
    assert_eq!(Todo::parse("// TODO(A-1) later"), Some(todo("A-1", None)));
    assert_eq!(Todo::parse("// TODO(A-1)   "), Some(todo("A-1", None)));
}

#[test]
fn ticket_runs_to_the_first_closing_parenthesis() {
    assert_eq!(Todo::parse("// TODO(a b(c): m)"), Some(todo("a b(c", Some("m)"))));
}

#[test]
fn leftmost_marker_wins() {
    assert_eq!(
        Todo::parse("// note // TODO(A-1): first // TODO(B-2): second"),
        Some(todo("A-1", Some("first // TODO(B-2): second")))
    );
}

#[test]
fn non_ascii_text_is_kept_whole() {
    assert_eq!(Todo::parse("äö // TODO(Ü-1): ß ✓"), Some(todo("Ü-1", Some("ß ✓"))));
}

#[test]
fn with_location_places_the_marker() {
    let placed = todo("A-1", Some("m")).with_location("f.rs".to_string(), 7);
    assert_eq!(placed, at("f.rs", 7, "A-1", Some("m")));
}

#[test]
fn scan_numbers_lines_from_one() {
    let text = "fn f() {}\n// TODO(A-1): one\n\nlet y = 2; // TODO(B-2)\n";
    assert_eq!(
        todos_in_text("src/f.rs", text),
        vec![at("src/f.rs", 2, "A-1", Some("one")), at("src/f.rs", 4, "B-2", None)]
    );
}

#[test]
fn scan_strips_carriage_returns() {
    let text = "// TODO(A-1): one\r\n// TODO(B-2):\r\nlast // TODO(C-3): end";
    assert_eq!(
        todos_in_text("w.txt", text),
        vec![
            at("w.txt", 1, "A-1", Some("one")),
            at("w.txt", 2, "B-2", Some("")),
            at("w.txt", 3, "C-3", Some("end")),
        ]
    );
}

#[test]
fn scan_of_empty_text_is_empty() {
    assert_eq!(todos_in_text("e.rs", ""), vec![]);
    assert_eq!(todos_in_text("e.rs", "\n\n\n"), vec![]);
}

#[test]
fn scan_of_unmarked_line_gives_nothing_for_it() {
    let text = "// TODO(A-1)\n// TODO: nothing here\n// TODO(B-2)";
    let found = todos_in_text("a.rs", text);
    assert!(found.iter().all(|t| t.line != 2));
    assert_eq!(found.len(), 2);
}

#[test]
fn all_files() {
    let expected = vec![
        at("tests/data/a.cds", 6, "issue1234", Some("Do this and that")),
        at("tests/data/b.txt", 3, "issue1234", None),
        at("tests/data/b.txt", 5, "issue4321", Some("Do this do that")),
        at("tests/data/rs_file.rs", 1, "id1234", Some("Do something")),
    ];
    let given = vec![
        (
            "tests/data/a.cds".to_string(),
            "service S {\n  entity A {\n    key ID : UUID;\n  }\n\n  // TODO(issue1234): Do this and that\n}\n"
                .to_string(),
        ),
        (
            "tests/data/b.txt".to_string(),
            "Some text\n\n// TODO(issue1234)\nmore text\n// TODO(issue4321): Do this do that\n"
                .to_string(),
        ),
        (
            "tests/data/rs_file.rs".to_string(),
            "// TODO(id1234): Do something\nfn main() {}\n".to_string(),
        ),
    ];
    assert_eq!(sorted(expected), sorted(todos(given)));
}

#[test]
fn scanning_twice_gives_the_same_result() {
    let given = || {
        vec![
            ("x.rs".to_string(), "// TODO(A-1): a\n// TODO(A-1)\n".to_string()),
            ("y.rs".to_string(), "code // TODO(B-2): b".to_string()),
        ]
    };
    let first = todos(given());
    let second = todos(given());
    assert_eq!(first, second);
    assert_eq!(first.len(), 3);
}
