use arbolitos::text::split_and_trim_tags;

fn split(s: &str) -> Vec<String> {
    split_and_trim_tags(s)
}

#[test]
fn split_basic() {
    assert_eq!(split("a,b,c"), vec!["a", "b", "c"]);
}

#[test]
fn split_trims_whitespace() {
    assert_eq!(split("  roble , arbol frutal ,\tcitrico "), vec![
        "roble",
        "arbol frutal",
        "citrico"
    ]);
}

#[test]
fn split_empty_input_is_one_empty_tag() {
    assert_eq!(split(""), vec![""]);
}

#[test]
fn split_keeps_empty_pieces() {
    assert_eq!(split("a,,b,"), vec!["a", "", "b", ""]);
}

#[test]
fn split_whitespace_only_piece_becomes_empty() {
    assert_eq!(split("a,   ,b"), vec!["a", "", "b"]);
}

#[test]
fn split_rejoin_idempotent() {
    for s in [
        "a,b,c",
        "  rosa ,  arbusto",
        "",
        " , ,x",
        "un tag con espacios,  otro  ",
        "tab\ttag\t,fin",
    ] {
        let once = split(s);
        let rejoined = once.join(",");
        let twice = split(&rejoined);
        assert_eq!(once, twice);
    }
}
