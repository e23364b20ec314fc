use releasor2000::effect::{ApiRequest, UploadRequest};
use releasor2000::encoding::encode_text;
use releasor2000::publish::{
    api_command, checksum_of, formula_address, formula_body, formula_body_of, generate_formula,
    generate_install_script, issue_body, issues_address, mac_arm, mac_intel, push_capitalized,
    release_body, release_by_tag_address, releases_address, reply_member, source_address,
    to_pascal_case, upload_command, upload_target, Reply,
};

#[test]
fn to_pascal_case_handles_edges() {
    assert_eq!(to_pascal_case(""), "");
    assert_eq!(to_pascal_case("-"), "");
    assert_eq!(to_pascal_case("--a__b-"), "AB");
    assert_eq!(to_pascal_case("already-Pascal"), "AlreadyPascal");
    assert_eq!(to_pascal_case("x86_64"), "X8664");
    assert_eq!(to_pascal_case("mixed_sep-arators"), "MixedSepArators");
    // An uppercase mapping may be longer than one character.
    assert_eq!(to_pascal_case("ßeta-élan"), "SSetaÉlan");
    assert_eq!(to_pascal_case("a b"), "A b");
}

#[test]
fn push_capitalized_puts_the_initial_in_front_of_the_rest() {
    let word: Vec<char> = "xtool-y".chars().collect();
    let initial: Vec<char> = "AB".chars().collect();
    let mut out: Vec<char> = vec!['>'];
    push_capitalized(&mut out, &initial, &word, 1, 5);
    assert_eq!(out.iter().collect::<String>(), ">ABool");
    // An empty word adds nothing, not even the initial.
    push_capitalized(&mut out, &initial, &word, 3, 3);
    assert_eq!(out.iter().collect::<String>(), ">ABool");
}

#[test]
fn formula_for_my_cool_tool() {
    let formula = generate_formula(
        "my-cool-tool",
        "my-cool-tool",
        "owner/my-cool-tool",
        "1.2.3",
        "aaa111",
        "bbb222",
    );
    assert!(formula.starts_with("class MyCoolTool < Formula\n"));
    assert!(formula.contains("      sha256 \"aaa111\"\n"));
    assert!(formula.contains("      sha256 \"bbb222\"\n"));
    assert_eq!(formula.matches("sha256").count(), 2);
    assert!(formula.contains(
        "url \"https://github.com/owner/my-cool-tool/releases/download/v1.2.3/my-cool-tool-1.2.3-aarch64-apple-darwin.tar.gz\""
    ));
    assert!(formula.contains(
        "url \"https://github.com/owner/my-cool-tool/releases/download/v1.2.3/my-cool-tool-1.2.3-x86_64-apple-darwin.tar.gz\""
    ));
    assert_eq!(formula.matches(".tar.gz").count(), 2);
}

#[test]
fn formula_is_the_whole_document() {
    let (class_name, name, binary, repo, version, arm_sha, intel_sha) =
        ("FooBar", "foo-bar", "foo", "o/foo-bar", "0.9.1", "a1", "b2");
    let expected = format!(
        r#"class {class_name} < Formula
  desc "{name}"
  homepage "https://github.com/{repo}"
  version "{version}"

  on_macos do
    on_arm do
      url "https://github.com/{repo}/releases/download/v{version}/{binary}-{version}-aarch64-apple-darwin.tar.gz"
      sha256 "{arm_sha}"
    end
    on_intel do
      url "https://github.com/{repo}/releases/download/v{version}/{binary}-{version}-x86_64-apple-darwin.tar.gz"
      sha256 "{intel_sha}"
    end
  end

  def install
    bin.install "{binary}"
  end
end
"#
    );
    assert_eq!(generate_formula(name, binary, repo, version, arm_sha, intel_sha), expected);
}

#[test]
fn install_script_is_the_whole_script() {
    let (binary, repo, version) = ("tool", "owner/repo", "1.0.0");
    let expected = format!(
        r#"#!/bin/sh
set -eu

BINARY="{binary}"
REPO="{repo}"
VERSION="{version}"

OS="$(uname -s)"
ARCH="$(uname -m)"

case "$OS" in
  Linux)  OS_TARGET="unknown-linux-gnu" ;;
  Darwin) OS_TARGET="apple-darwin" ;;
  *)      echo "Unsupported OS: $OS" >&2; exit 1 ;;
esac

case "$ARCH" in
  x86_64|amd64) ARCH_TARGET="x86_64" ;;
  arm64|aarch64) ARCH_TARGET="aarch64" ;;
  *)             echo "Unsupported architecture: $ARCH" >&2; exit 1 ;;
esac

TARGET="${{ARCH_TARGET}}-${{OS_TARGET}}"
URL="https://github.com/${{REPO}}/releases/download/v${{VERSION}}/${{BINARY}}-${{VERSION}}-${{TARGET}}.tar.gz"

TMPDIR="$(mktemp -d)"
trap 'rm -rf "$TMPDIR"' EXIT

echo "Downloading $BINARY v$VERSION for $TARGET..."
curl -fsSL "$URL" | tar xz -C "$TMPDIR"

INSTALL_DIR="${{INSTALL_DIR:-/usr/local/bin}}"
install -d "$INSTALL_DIR"
install "$TMPDIR/$BINARY" "$INSTALL_DIR/$BINARY"
echo "Installed $BINARY to $INSTALL_DIR/$BINARY"
"#
    );
    assert_eq!(generate_install_script(binary, repo, version), expected);
}

#[test]
fn install_script_builds_the_archive_name_of_the_pipeline() {
    let script = generate_install_script("tool", "owner/repo", "1.0.0");
    assert!(script.contains("/${BINARY}-${VERSION}-${TARGET}.tar.gz\""));
    assert!(script.contains("trap 'rm -rf \"$TMPDIR\"' EXIT"));
    assert!(script.contains("INSTALL_DIR=\"${INSTALL_DIR:-/usr/local/bin}\""));
    assert!(script.contains("exit 1"));
}

#[test]
fn addresses() {
    assert_eq!(releases_address("o/r"), "https://api.github.com/repos/o/r/releases");
    assert_eq!(
        release_by_tag_address("o/r", "1.2.3"),
        "https://api.github.com/repos/o/r/releases/tags/v1.2.3"
    );
    assert_eq!(
        formula_address("o/homebrew-tap", "tool"),
        "https://api.github.com/repos/o/homebrew-tap/contents/Formula/tool.rb"
    );
    assert_eq!(issues_address("o/nix"), "https://api.github.com/repos/o/nix/issues");
    assert_eq!(
        source_address("o/r", "1.2.3"),
        "https://github.com/o/r/archive/refs/tags/v1.2.3.tar.gz"
    );
}

#[test]
fn release_body_is_the_object_with_tag_name_and_notes() {
    let body = release_body("2.0.0");
    assert_eq!(
        body,
        r#"{"generate_release_notes":true,"name":"v2.0.0","tag_name":"v2.0.0"}"#
    );
    let value: serde_json::Value = serde_json::from_str(&body).unwrap();
    assert_eq!(value["tag_name"], "v2.0.0");
    assert_eq!(value["name"], "v2.0.0");
    assert_eq!(value["generate_release_notes"], true);
    assert_eq!(value.as_object().unwrap().len(), 3);
}

#[test]
fn bodies_escape_what_json_escapes() {
    let body = issue_body("1.0\"x", "https://s/\\", "line\nbreak");
    let value: serde_json::Value = serde_json::from_str(&body).unwrap();
    assert_eq!(value["title"], "Update to v1.0\"x");
    assert_eq!(
        value["body"],
        "New release v1.0\"x\n\nSource: https://s/\\\nSHA256: line\nbreak"
    );
    assert_eq!(value.as_object().unwrap().len(), 2);
}

#[test]
fn issue_body_holds_version_source_and_hash() {
    assert_eq!(
        issue_body("1.2.3", "https://github.com/o/r/archive/refs/tags/v1.2.3.tar.gz", "0abc"),
        r#"{"body":"New release v1.2.3\n\nSource: https://github.com/o/r/archive/refs/tags/v1.2.3.tar.gz\nSHA256: 0abc","title":"Update to v1.2.3"}"#
    );
}

#[test]
fn formula_body_holds_the_document_in_base64() {
    let body = formula_body("tool", "1.0.0", "class Tool\n", None).unwrap();
    assert_eq!(
        body,
        r#"{"content":"Y2xhc3MgVG9vbAo=","message":"Update tool to 1.0.0"}"#
    );
    let body = formula_body("tool", "1.0.0", "class Tool\n", Some("f00d")).unwrap();
    assert_eq!(
        body,
        r#"{"content":"Y2xhc3MgVG9vbAo=","message":"Update tool to 1.0.0","sha":"f00d"}"#
    );
    assert_eq!(
        formula_body_of("t", "2", "QQ==", Some("s")),
        r#"{"content":"QQ==","message":"Update t to 2","sha":"s"}"#
    );
}

#[test]
fn encode_text_is_standard_base64_with_padding() {
    assert_eq!(encode_text("").unwrap(), "");
    assert_eq!(encode_text("f").unwrap(), "Zg==");
    assert_eq!(encode_text("fo").unwrap(), "Zm8=");
    assert_eq!(encode_text("foo").unwrap(), "Zm9v");
    assert_eq!(encode_text("foobar").unwrap(), "Zm9vYmFy");
    assert_eq!(encode_text("\u{fb}\u{ff}").unwrap(), "w7vDvw==");
    assert_eq!(encode_text("???>>>").unwrap(), "Pz8/Pj4+");
}

#[test]
fn reply_member_reads_strings_only() {
    let reply = r#" {"upload_url":"https://u/assets{?name,label}","id":7,"draft":false,"o":{"upload_url":"x"}} "#;
    match reply_member(reply, "upload_url") {
        Reply::Text(s) => assert_eq!(s, "https://u/assets{?name,label}"),
        other => panic!("{other:?}"),
    }
    assert!(matches!(reply_member(reply, "id"), Reply::Absent));
    assert!(matches!(reply_member(reply, "draft"), Reply::Absent));
    assert!(matches!(reply_member(reply, "o"), Reply::Absent));
    assert!(matches!(reply_member(reply, "sha"), Reply::Absent));
    // An empty answer stands for null.
    assert!(matches!(reply_member("", "sha"), Reply::Absent));
    assert!(matches!(reply_member(" \n", "sha"), Reply::Absent));
    assert!(matches!(reply_member("null", "sha"), Reply::Absent));
    assert!(matches!(reply_member("[\"sha\"]", "sha"), Reply::Absent));
    assert!(matches!(reply_member("\"sha\"", "sha"), Reply::Absent));
    assert!(matches!(reply_member("{", "sha"), Reply::Unreadable));
    assert!(matches!(reply_member("<html>", "sha"), Reply::Unreadable));
}

#[test]
fn upload_target_cuts_at_the_first_brace() {
    assert_eq!(
        upload_target("https://uploads.github.com/repos/o/r/releases/1/assets{?name,label}"),
        "https://uploads.github.com/repos/o/r/releases/1/assets"
    );
    assert_eq!(upload_target("https://u/assets"), "https://u/assets");
    assert_eq!(upload_target("{x}"), "");
    assert_eq!(upload_target("a{b{c"), "a");
    assert_eq!(upload_target(""), "");
}

#[test]
fn checksum_of_is_the_first_word() {
    assert_eq!(
        checksum_of("9f86d081884c7d65  target/release-staging/tool.tar.gz\n"),
        Some("9f86d081884c7d65".to_string())
    );
    assert_eq!(checksum_of("  abc\n"), Some("abc".to_string()));
    assert_eq!(checksum_of(""), None);
    assert_eq!(checksum_of(" \n\t"), None);
}

#[test]
fn mac_targets_are_told_by_their_names() {
    assert!(mac_arm("aarch64-apple-darwin"));
    assert!(!mac_intel("aarch64-apple-darwin"));
    assert!(mac_intel("x86_64-apple-darwin"));
    assert!(!mac_arm("x86_64-apple-darwin"));
    for other in ["x86_64-unknown-linux-gnu", "aarch64-unknown-linux-gnu", "", "apple-darwin"] {
        assert!(!mac_arm(other) && !mac_intel(other), "{other:?}");
    }
    // A name that holds both processors counts as ARM.
    assert!(mac_arm("aarch64-x86_64-apple-darwin"));
    assert!(!mac_intel("aarch64-x86_64-apple-darwin"));
}

#[test]
fn api_command_is_the_transfer_with_the_credential() {
    let get = ApiRequest {
        method: "GET".to_string(),
        url: "https://api.github.com/x".to_string(),
        body: None,
    };
    let c = api_command("abc123", &get);
    assert_eq!(c.program, "curl");
    assert!(c.dir.is_none());
    assert_eq!(
        c.args,
        vec![
            "-fsSL",
            "-X",
            "GET",
            "-H",
            "Accept: application/vnd.github+json",
            "-H",
            "Authorization: Bearer abc123",
            "https://api.github.com/x",
        ]
    );
    let post = ApiRequest {
        method: "POST".to_string(),
        url: "https://api.github.com/y".to_string(),
        body: Some("{}".to_string()),
    };
    assert_eq!(
        api_command("t", &post).args,
        vec![
            "-fsSL",
            "-X",
            "POST",
            "-H",
            "Accept: application/vnd.github+json",
            "-H",
            "Authorization: Bearer t",
            "-H",
            "Content-Type: application/json",
            "-d",
            "{}",
            "https://api.github.com/y",
        ]
    );
}

#[test]
fn upload_command_sends_the_file_under_its_name() {
    let upload = UploadRequest {
        upload_url: "https://u/assets".to_string(),
        file: "target/release-staging/tool.tar.gz".to_string(),
        name: "tool.tar.gz".to_string(),
        content_type: "application/gzip".to_string(),
    };
    let c = upload_command("t", &upload);
    assert_eq!(c.program, "curl");
    assert_eq!(
        c.args,
        vec![
            "-fsSL",
            "-X",
            "POST",
            "-H",
            "Accept: application/vnd.github+json",
            "-H",
            "Authorization: Bearer t",
            "-H",
            "Content-Type: application/gzip",
            "--data-binary",
            "@target/release-staging/tool.tar.gz",
            "https://u/assets?name=tool.tar.gz",
        ]
    );
}
