use releasor2000::paths::{archive_name, join_path};
use std::path::Path;

#[test]
fn join_path_agrees_with_path_join() {
    let cases = [
        ("dist", "tool-x86_64-apple-darwin"),
        ("dist/", "tool-x86_64-apple-darwin"),
        ("", "tool"),
        ("dist", "/abs/tool"),
        ("dist", ""),
        ("/", "tool"),
        ("target/release-staging", "tool-1.0.0-x.tar.gz"),
        ("a//", "b"),
    ];
    for (dir, name) in cases {
        assert_eq!(
            join_path(dir, name),
            Path::new(dir).join(name).to_string_lossy(),
            "{dir:?} {name:?}"
        );
    }
}

#[test]
fn archive_name_follows_the_convention() {
    assert_eq!(
        archive_name("tool", "2.0.0", "x86_64-apple-darwin"),
        "tool-2.0.0-x86_64-apple-darwin.tar.gz"
    );
    assert_eq!(archive_name("", "", ""), "--.tar.gz");
}
