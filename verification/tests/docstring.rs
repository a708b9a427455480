use pyo3_bindgen_engine::utils::text::format_docstring;

fn formatted(text: &str) -> String {
    let mut s = text.to_string();
    format_docstring(&mut s);
    s
}

#[test]
fn docstring_single_line_gets_a_leading_space() {
    assert_eq!(formatted("Hello"), " Hello");
    assert_eq!(formatted("  Hello  "), " Hello");
    assert_eq!(formatted(""), " ");
}

#[test]
fn docstring_lines_are_trimmed_and_framed() {
    assert_eq!(formatted("  First line  \n    second line\t\n"), " First line\nsecond line\n");
    assert_eq!(formatted("\n\nTitle\n\nBody\n\n\n"), " Title\n\nBody\n");
    assert_eq!(formatted("a\r\nb"), " a\nb\n");
    assert_eq!(formatted("a\n"), " a");
}

#[test]
fn docstring_trailing_slashes_are_removed() {
    assert_eq!(formatted("path /"), " path");
    assert_eq!(formatted("a / /"), " a");
    assert_eq!(formatted("a/b"), " a/b");
    assert_eq!(formatted("line\n//"), " line");
}

#[test]
fn docstring_repeated_blanks_and_backticks_collapse() {
    assert_eq!(formatted("a    b"), " a b");
    assert_eq!(formatted("a \t b"), " a \t b");
    assert_eq!(formatted("use ```code``` here"), " use `code` here");
    assert_eq!(formatted("a\n\n\nb"), " a\n\n\nb\n");
    assert_eq!(formatted("aa  bb"), " aa bb");
}
