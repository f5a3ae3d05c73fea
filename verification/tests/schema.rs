use sqlite_instrument::schema::schema_statements;

/// The same statements by way of the standard library's string methods.
fn by_std(script: &str) -> Vec<String> {
    let mut out = Vec::new();
    for candidate in script.split(';') {
        let cleaned = candidate
            .lines()
            .filter(|line| !line.trim().starts_with("--") && !line.trim().is_empty())
            .collect::<Vec<_>>()
            .join("\n")
            .trim()
            .to_string();
        if !cleaned.is_empty() {
            out.push(cleaned);
        }
    }
    out
}

#[test]
fn comment_and_blank_lines_are_left_out() {
    let script = "-- note\nCREATE TABLE A(x);\n \nCREATE TABLE B(y);";
    assert_eq!(
        schema_statements(script),
        vec!["CREATE TABLE A(x)".to_string(), "CREATE TABLE B(y)".to_string()]
    );
}

#[test]
fn empty_script_has_no_statements() {
    assert_eq!(schema_statements(""), Vec::<String>::new());
    assert_eq!(schema_statements(";;;"), Vec::<String>::new());
    assert_eq!(schema_statements(" \n-- only a comment\n"), Vec::<String>::new());
}

#[test]
fn statement_keeps_its_inner_lines() {
    let script = "CREATE TABLE A(\r\n  x INTEGER, -- the key\r\n\r\n  -- a comment\r\n  y TEXT\r\n);\r\n";
    assert_eq!(
        schema_statements(script),
        vec!["CREATE TABLE A(\n  x INTEGER, -- the key\n  y TEXT\n)".to_string()]
    );
}

#[test]
fn terminator_inside_a_comment_still_splits() {
    assert_eq!(schema_statements("-- a; b\nc"), vec!["b\nc".to_string()]);
}

#[test]
fn agrees_with_std_on_small_scripts() {
    let alphabet = ['a', ';', '\n', '\r', ' ', '-', '\u{3000}'];
    let mut scripts: Vec<String> = vec![String::new()];
    let mut start = 0;
    for _ in 0..5 {
        let end = scripts.len();
        for i in start..end {
            for c in alphabet {
                let mut s = scripts[i].clone();
                s.push(c);
                scripts.push(s);
            }
        }
        start = end;
    }
    for script in &scripts {
        assert_eq!(schema_statements(script), by_std(script), "script {:?}", script);
    }
}
