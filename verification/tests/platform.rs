use releasor2000::platform::{
    needs_cross_linker, parse_host_target, parse_installed_targets, select_build_invocation,
    TargetSet,
};

#[test]
fn needs_cross_linker_is_false_for_any_platform_and_itself() {
    for x in ["", "x", "a-b-c", "x86_64-unknown-linux-gnu", "-", "--", "no dash"] {
        assert!(!needs_cross_linker(x, x), "{x:?}");
    }
}

#[test]
fn needs_cross_linker_looks_at_the_suffix_only() {
    assert!(!needs_cross_linker("a-b-c", "d-b-c"));
    assert!(needs_cross_linker("a-b-c", "d-e-f"));
    // An identifier without a separator is its own suffix.
    assert!(needs_cross_linker("abc", "x-abc") == false);
    assert!(needs_cross_linker("abc", "abd"));
    // Only the first separator splits.
    assert!(needs_cross_linker("a-b-c", "a-b"));
    assert!(!needs_cross_linker("a-", "b-"));
}

#[test]
fn parse_host_target_takes_the_first_host_line_and_trims_it() {
    assert_eq!(
        parse_host_target("host:   x86_64-unknown-linux-gnu  \r\nhost: other\n"),
        Some("x86_64-unknown-linux-gnu".to_string())
    );
    // The prefix must start the line, blank included.
    assert_eq!(parse_host_target(" host: x\nhost:x\n"), None);
    assert_eq!(parse_host_target("host: "), Some(String::new()));
    assert_eq!(parse_host_target(""), None);
}

#[test]
fn parse_installed_targets_agrees_with_the_lines_of_the_listing() {
    let listing = "a-b-c\r\n\n  d-e-f\n a-b-c \n\t\n";
    let set = parse_installed_targets(listing);
    let expected: std::collections::HashSet<String> = listing
        .lines()
        .map(|l| l.trim().to_string())
        .filter(|l| !l.is_empty())
        .collect();
    assert_eq!(set.len(), expected.len());
    for name in &expected {
        assert!(set.contains(name));
    }
    assert!(!set.contains(""));
    assert!(!set.contains("a-b"));
}

#[test]
fn target_set_holds_each_name_once() {
    let mut set = TargetSet::new();
    assert!(set.is_empty());
    assert!(set.insert("a"));
    assert!(set.insert("b"));
    assert!(!set.insert("a"));
    assert_eq!(set.len(), 2);
    assert!(set.contains("a"));
    assert!(set.contains("b"));
    assert!(!set.contains("c"));
    assert!(!set.is_empty());
}

#[test]
fn select_build_invocation_upgrades_cross_builds_only() {
    let command = "cargo build --release --target x86_64-unknown-linux-gnu";
    let host = Some("aarch64-apple-darwin");
    let target = "x86_64-unknown-linux-gnu";
    assert_eq!(
        select_build_invocation(command, host, target, true),
        "cargo zigbuild --release --target x86_64-unknown-linux-gnu"
    );
    // No wrapper at hand: the command runs as it is, and this is no error.
    assert_eq!(select_build_invocation(command, host, target, false), command);
    // Same suffix: no upgrade.
    assert_eq!(
        select_build_invocation(command, Some("aarch64-unknown-linux-gnu"), target, true),
        command
    );
    // Unknown host: no cross-capable linker is presumed to be needed.
    assert_eq!(select_build_invocation(command, None, target, true), command);
    // A command that does not call the standard build tool stays.
    assert_eq!(select_build_invocation("make all", host, target, true), "make all");
    // Every call of the standard tool is replaced.
    assert_eq!(
        select_build_invocation("cargo build && cargo build -p x", host, target, true),
        "cargo zigbuild && cargo zigbuild -p x"
    );
}
