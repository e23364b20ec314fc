use releasor2000::platform::{needs_cross_linker, parse_host_target, parse_installed_targets};
use releasor2000::publish::{generate_formula, generate_install_script, to_pascal_case};
use releasor2000::template::substitute;

// --- substitute ---

#[test]
fn substitute_basic_replacement() {
    let result = substitute("hello {name}", &[("name", "world")]);
    assert_eq!(result, "hello world");
}

#[test]
fn substitute_no_op_when_no_match() {
    let result = substitute("no placeholders here", &[("name", "world")]);
    assert_eq!(result, "no placeholders here");
}

#[test]
fn substitute_multiple_occurrences() {
    let result = substitute("{x} and {x} and {y}", &[("x", "a"), ("y", "b")]);
    assert_eq!(result, "a and a and b");
}

// --- to_pascal_case ---

#[test]
fn to_pascal_case_hyphenated() {
    assert_eq!(to_pascal_case("my-cool-tool"), "MyCoolTool");
}

#[test]
fn to_pascal_case_underscored() {
    assert_eq!(to_pascal_case("my_cool_tool"), "MyCoolTool");
}

#[test]
fn to_pascal_case_single_word() {
    assert_eq!(to_pascal_case("hello"), "Hello");
}

// --- generate_formula ---

#[test]
fn generate_formula_correct_class_name() {
    let formula = generate_formula("my-tool", "my-tool", "owner/repo", "1.0.0", "abc", "def");
    assert!(formula.starts_with("class MyTool < Formula"));
}

#[test]
fn generate_formula_contains_version() {
    let formula = generate_formula("tool", "tool", "owner/repo", "2.3.4", "abc", "def");
    assert!(formula.contains("version \"2.3.4\""));
}

#[test]
fn generate_formula_contains_arch_blocks() {
    let formula = generate_formula("tool", "tool", "owner/repo", "1.0.0", "armsha", "intelsha");
    assert!(formula.contains("on_macos do"));
    assert!(formula.contains("on_arm do"));
    assert!(formula.contains("on_intel do"));
    assert!(formula.contains("sha256 \"armsha\""));
    assert!(formula.contains("sha256 \"intelsha\""));
}

#[test]
fn generate_formula_contains_download_urls() {
    let formula = generate_formula("tool", "tool", "owner/repo", "1.0.0", "a", "b");
    assert!(formula.contains("https://github.com/owner/repo/releases/download/v1.0.0/tool-1.0.0-aarch64-apple-darwin.tar.gz"));
    assert!(formula.contains("https://github.com/owner/repo/releases/download/v1.0.0/tool-1.0.0-x86_64-apple-darwin.tar.gz"));
}

#[test]
fn generate_formula_contains_binary_install() {
    let formula = generate_formula("tool", "mybinary", "owner/repo", "1.0.0", "a", "b");
    assert!(formula.contains("bin.install \"mybinary\""));
}

// --- parse_host_target ---

#[test]
fn parse_host_target_extracts_host_line() {
    let output = "rustc 1.77.0 (aedd173a2 2024-03-17)\nbinary: rustc\nhost: aarch64-apple-darwin\nrelease: 1.77.0\n";
    assert_eq!(
        parse_host_target(output),
        Some("aarch64-apple-darwin".to_string())
    );
}

#[test]
fn parse_host_target_missing() {
    assert_eq!(parse_host_target("no host here\n"), None);
}

// --- needs_cross_linker ---

#[test]
fn needs_cross_linker_same_os_different_arch() {
    assert!(!needs_cross_linker(
        "aarch64-apple-darwin",
        "x86_64-apple-darwin"
    ));
}

#[test]
fn needs_cross_linker_different_os() {
    assert!(needs_cross_linker(
        "aarch64-apple-darwin",
        "x86_64-unknown-linux-gnu"
    ));
}

#[test]
fn needs_cross_linker_identical() {
    assert!(!needs_cross_linker(
        "aarch64-apple-darwin",
        "aarch64-apple-darwin"
    ));
}

// --- parse_installed_targets ---

#[test]
fn parse_installed_targets_typical_output() {
    let output = "aarch64-apple-darwin\nx86_64-apple-darwin\nx86_64-unknown-linux-gnu\n";
    let result = parse_installed_targets(output);
    assert_eq!(result.len(), 3);
    assert!(result.contains("aarch64-apple-darwin"));
    assert!(result.contains("x86_64-apple-darwin"));
    assert!(result.contains("x86_64-unknown-linux-gnu"));
}

#[test]
fn parse_installed_targets_empty_output() {
    assert!(parse_installed_targets("").is_empty());
    assert!(parse_installed_targets("  \n  \n").is_empty());
}

#[test]
fn parse_installed_targets_trims_whitespace() {
    let output = "  aarch64-apple-darwin  \n  x86_64-apple-darwin \n";
    let result = parse_installed_targets(output);
    assert_eq!(result.len(), 2);
    assert!(result.contains("aarch64-apple-darwin"));
    assert!(result.contains("x86_64-apple-darwin"));
}

// --- generate_install_script ---

#[test]
fn generate_install_script_starts_with_shebang() {
    let script = generate_install_script("tool", "owner/repo", "1.0.0");
    assert!(script.starts_with("#!/bin/sh"));
}

#[test]
fn generate_install_script_contains_repo_binary_version() {
    let script = generate_install_script("mytool", "cool/repo", "3.2.1");
    assert!(script.contains("BINARY=\"mytool\""));
    assert!(script.contains("REPO=\"cool/repo\""));
    assert!(script.contains("VERSION=\"3.2.1\""));
}

#[test]
fn generate_install_script_handles_all_arch_os_combos() {
    let script = generate_install_script("tool", "owner/repo", "1.0.0");
    assert!(script.contains("Linux)"));
    assert!(script.contains("Darwin)"));
    assert!(script.contains("x86_64|amd64)"));
    assert!(script.contains("arm64|aarch64)"));
}
