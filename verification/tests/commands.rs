use chatcore::table::CsvTable;
use chatcore::transform::Command;

fn run(op: &str, input: &str) -> Result<String, String> {
    let cmd = Command::from_string_and_arg(op, String::from(input)).expect("unknown operation");
    cmd.execute().map_err(|e| String::from(e.message()))
}

#[test]
fn lowercase_matches_the_standard_library() {
    let input = "HeLLo WörLD";
    assert_eq!(run("lowercase", input).unwrap(), input.to_lowercase());
    assert_eq!(run("lowercase", "ABC").unwrap(), "abc");
}

#[test]
fn uppercase_matches_the_standard_library() {
    let input = "HeLLo WörLD";
    assert_eq!(run("uppercase", input).unwrap(), input.to_uppercase());
    assert_eq!(run("uppercase", "abc").unwrap(), "ABC");
}

#[test]
fn no_spaces_removes_exactly_the_spaces() {
    assert_eq!(run("no-spaces", " a b\tc ").unwrap(), "ab\tc");
}

#[test]
fn slugify_matches_the_slug_crate() {
    let input = "Hello World! Æ ok";
    assert_eq!(run("slugify", input).unwrap(), slug::slugify(input));
    assert_eq!(run("slugify", "Hello World").unwrap(), "hello-world");
}

#[test]
fn length_counts_trimmed_characters() {
    assert_eq!(run("length", "  héllo  ").unwrap(), "5");
    assert_eq!(run("length", "").unwrap(), "0");
}

#[test]
fn reverse_reverses_trimmed_characters() {
    assert_eq!(run("reverse", " abc ").unwrap(), "cba");
}

#[test]
fn unknown_operations_make_no_command() {
    assert!(Command::from_string_and_arg("shout", String::from("x")).is_none());
}

#[test]
fn poison_pill_produces_nothing() {
    assert_eq!(Command::PoisonPill.execute().unwrap(), "");
}

#[test]
fn csv_renders_a_boxed_table() {
    let out = run("csv", "a,b\n1,22\n").unwrap();
    let expected = "|---|----|\n| a | b  |\n|---|----|\n| 1 | 22 |\n|---|----|\n";
    assert_eq!(out, expected);
}

#[test]
fn csv_cells_are_trimmed_and_widen_their_column() {
    let out = run("csv", "name , x\nlonger value,y\n").unwrap();
    let expected = "\
|--------------|---|
|     name     | x |
|--------------|---|
| longer value | y |
|--------------|---|
";
    assert_eq!(out, expected);
}

#[test]
fn malformed_csv_is_reported() {
    match run("csv", "a,b\nonly-one\n") {
        Err(msg) => assert_eq!(msg, "Malformed CSV input"),
        Ok(_) => panic!("ragged record accepted"),
    }
}

#[test]
fn csv_table_can_be_built_and_rendered_directly() {
    let table = CsvTable::from_string("h1,h2\nv1,v2\n").unwrap();
    let text = table.render();
    assert_eq!(text, "|----|----|\n| h1 | h2 |\n|----|----|\n| v1 | v2 |\n|----|----|\n");
}

#[test]
fn header_and_body_processing_build_columns() {
    let mut table = CsvTable::from_string("").unwrap();
    CsvTable::process_header_value("col", &mut table);
    let mut row: Vec<String> = Vec::new();
    CsvTable::process_body_value(0, "wider-cell", &mut row, &mut table);
    CsvTable::process_body_value(1, "extra", &mut row, &mut table);
    assert_eq!(row.len(), 2);
    assert_eq!(row[0], "wider-cell");
    assert_eq!(row[1], "extra");
}

#[test]
fn empty_csv_renders_an_empty_frame() {
    let table = CsvTable::from_string("").unwrap();
    assert_eq!(table.render(), "|\n|\n|\n|\n");
}
