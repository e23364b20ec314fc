use releasor2000::template::{placeholder_of, substitute};

#[test]
fn placeholder_is_the_key_in_braces() {
    let p: String = placeholder_of("target").iter().collect();
    assert_eq!(p, "{target}");
    let empty: String = placeholder_of("").iter().collect();
    assert_eq!(empty, "{}");
}

#[test]
fn substitute_replaces_every_occurrence_and_nothing_else() {
    let rendered = substitute(
        "target/{target}/release/{binary}-{version} {other} {target}",
        &[("target", "x86_64-apple-darwin"), ("binary", "tool"), ("version", "1.0.0")],
    );
    assert_eq!(
        rendered,
        "target/x86_64-apple-darwin/release/tool-1.0.0 {other} x86_64-apple-darwin"
    );
    assert!(!rendered.contains("{target}"));
    assert!(!rendered.contains("{binary}"));
    assert!(!rendered.contains("{version}"));
}

#[test]
fn substitute_does_not_depend_on_the_order_of_the_keys() {
    let template = "{a}-{b}-{c} {b}{a} }{ {d}";
    let vars = [("a", "1"), ("b", "22"), ("c", "")];
    let orders: [[usize; 3]; 6] =
        [[0, 1, 2], [0, 2, 1], [1, 0, 2], [1, 2, 0], [2, 0, 1], [2, 1, 0]];
    for order in orders {
        let reordered = [vars[order[0]], vars[order[1]], vars[order[2]]];
        assert_eq!(substitute(template, &reordered), "1-22- 221 }{ {d}");
    }
}

#[test]
fn substitute_with_no_bindings_or_no_placeholder_returns_the_template() {
    assert_eq!(substitute("{a} b", &[]), "{a} b");
    assert_eq!(substitute("", &[("a", "x")]), "");
    assert_eq!(substitute("a {b c", &[("a", "x"), ("b", "y")]), "a {b c");
}

#[test]
fn substitute_applies_bindings_one_after_the_other() {
    // A value that holds a placeholder is filled by a later binding only.
    assert_eq!(substitute("{a}", &[("a", "{b}"), ("b", "x")]), "x");
    assert_eq!(substitute("{a}", &[("b", "x"), ("a", "{b}")]), "{b}");
    // Nested braces: removing the inner placeholder makes a new one.
    assert_eq!(substitute("{{a}b}", &[("a", ""), ("b", "x")]), "x");
    assert_eq!(substitute("{{a}b}", &[("b", "x"), ("a", "")]), "{b}");
    // The first binding of a key is the one that fills.
    assert_eq!(substitute("{a}", &[("a", "1"), ("a", "2")]), "1");
}
