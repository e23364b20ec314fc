//! What the channel publishers send: the documents they generate, the
//! addresses they call, the request bodies, the transfer commands, and what
//! they read out of the answers.

use crate::effect::{opt_view, ApiRequest, CommandLine, CommandLineView, UploadRequest};
use crate::encoding::{base64_text, encodable, encode_text};
use crate::json::{
    members, object_new, object_put_flag, object_put_text, object_text, parse, parsed, rendering,
    text_member, Member,
};
use crate::paths::archive_name_of;
use crate::text::{
    contains, contains_seq, first_index, lemma_first_index_is, push_range, rows, slice_of,
    split_words, string_of, to_chars, trim, trimmed, views, words,
};
use vstd::prelude::*;
use vstd::string::{StringExecFns, StringSliceAdditionalSpecFns};

verus! {

/// The uppercase mapping of a character: one character or more; the
/// character itself where it has no mapping.
pub uninterp spec fn uppercase_of(c: char) -> Seq<char>;

/// `char::to_uppercase`: the characters of the uppercase mapping, in order.
#[verifier::external_body]
pub(crate) fn uppercase(c: char) -> (r: Vec<char>)
    ensures
        r@ == uppercase_of(c),
{
    c.to_uppercase().collect()
}

/// Whether `c` separates the words of a project name.
pub open spec fn is_word_break(c: char) -> bool {
    c == '-' || c == '_'
}

/// Index of the first word break of `s`, or `s.len()` where there is none.
pub open spec fn first_break(s: Seq<char>) -> int
    decreases s.len(),
{
    if s.len() == 0 || is_word_break(s[0]) {
        0
    } else {
        1 + first_break(s.skip(1))
    }
}

/// The words of a project name: the pieces between its hyphens and
/// underscores.
pub open spec fn name_words(s: Seq<char>) -> Seq<Seq<char>>
    decreases s.len(),
{
    let k = first_break(s);
    if 0 <= k < s.len() {
        seq![s.take(k)] + name_words(s.skip(k + 1))
    } else {
        seq![s]
    }
}

/// A word with the uppercase mapping in place of its first character.
pub open spec fn capitalized(word: Seq<char>) -> Seq<char> {
    if word.len() == 0 {
        word
    } else {
        uppercase_of(word[0]) + word.skip(1)
    }
}

/// The words, each capitalized, one after the other.
pub open spec fn capitalized_all(pieces: Seq<Seq<char>>) -> Seq<char>
    decreases pieces.len(),
{
    if pieces.len() == 0 {
        Seq::empty()
    } else {
        capitalized(pieces[0]) + capitalized_all(pieces.skip(1))
    }
}

/// A project name in PascalCase: its words capitalized and joined.
pub open spec fn pascal_case(s: Seq<char>) -> Seq<char> {
    capitalized_all(name_words(s))
}

proof fn lemma_first_break_is(s: Seq<char>, k: int)
    requires
        0 <= k <= s.len(),
        k < s.len() ==> is_word_break(s[k]),
        forall|j: int| 0 <= j < k ==> !is_word_break(s[j]),
    ensures
        first_break(s) == k,
    decreases k,
{
    if k > 0 {
        assert forall|j: int| 0 <= j < k - 1 implies !is_word_break(s.skip(1)[j]) by {
            assert(s.skip(1)[j] == s[j + 1]);
        }
        lemma_first_break_is(s.skip(1), k - 1);
    }
}

/// Appends to `out` the word `word[from..to]` with `initial` in place of its
/// first character; nothing for an empty word.
pub fn push_capitalized(
    out: &mut Vec<char>,
    initial: &Vec<char>,
    word: &Vec<char>,
    from: usize,
    to: usize,
)
    requires
        from <= to <= word.len(),
    ensures
        final(out)@ == old(out)@ + (if from == to {
            Seq::<char>::empty()
        } else {
            initial@ + word@.subrange(from + 1, to as int)
        }),
{
    if from < to {
        push_range(out, initial, 0, initial.len());
        push_range(out, word, from + 1, to);
    }
    assert(out@ =~= old(out)@ + (if from == to {
        Seq::<char>::empty()
    } else {
        initial@ + word@.subrange(from + 1, to as int)
    }));
}

/// The name in PascalCase: split at hyphens and underscores, each word's
/// first character in uppercase, the words joined.
pub fn to_pascal_case(s: &str) -> (r: String)
    ensures
        r@ == pascal_case(s@),
{
    let text = to_chars(s);
    let n = text.len();
    let mut out: Vec<char> = Vec::new();
    let mut from: usize = 0;
    assert(text@.skip(0) == text@);
    loop
        invariant_except_break
            from <= n,
            n == text.len(),
            pascal_case(s@) == out@ + capitalized_all(name_words(text@.skip(from as int))),
        ensures
            out@ == pascal_case(s@),
        decreases n - from,
    {
        let ghost rest = text@.skip(from as int);
        let mut k: usize = from;
        while k < n && text[k] != '-' && text[k] != '_'
            invariant
                from <= k <= n,
                n == text.len(),
                forall|j: int| from <= j < k ==> !is_word_break(text@[j]),
            decreases n - k,
        {
            k = k + 1;
        }
        proof {
            lemma_first_break_is(rest, k - from);
            assert(rest.take(k - from) == text@.subrange(from as int, k as int));
        }
        let initial = if from < k {
            uppercase(text[from])
        } else {
            Vec::new()
        };
        let ghost before = out@;
        push_capitalized(&mut out, &initial, &text, from, k);
        proof {
            let word = text@.subrange(from as int, k as int);
            if from < k {
                assert(word.skip(1) == text@.subrange(from + 1, k as int));
            }
            assert(out@ == before + capitalized(word));
        }
        if k < n {
            proof {
                assert(rest.skip(k - from + 1) == text@.skip(k + 1));
                let pieces = name_words(rest);
                assert(pieces.skip(1) =~= name_words(text@.skip(k + 1)));
            }
            from = k + 1;
        } else {
            proof {
                assert(rest.take(k - from) == rest);
                let pieces = name_words(rest);
                assert(pieces.skip(1) =~= Seq::<Seq<char>>::empty());
                assert(capitalized_all(pieces.skip(1)) =~= Seq::<char>::empty());
            }
            break ;
        }
    }
    string_of(&out)
}

/// The project's page on the source host.
pub open spec fn host_url(repo: Seq<char>) -> Seq<char> {
    "https://github.com/"@ + repo
}

/// Where the file `file` of the release of `version` is downloaded.
pub open spec fn download_url(repo: Seq<char>, version: Seq<char>, file: Seq<char>) -> Seq<
    char,
> {
    host_url(repo) + "/releases/download/v"@ + version + "/"@ + file
}

/// The target of macOS on ARM.
pub const MAC_ARM: &'static str = "aarch64-apple-darwin";

/// The target of macOS on Intel.
pub const MAC_INTEL: &'static str = "x86_64-apple-darwin";

/// The block of a formula for one processor: where its archive is
/// downloaded, and the archive's checksum.
pub open spec fn formula_block(
    on: Seq<char>,
    binary: Seq<char>,
    repo: Seq<char>,
    version: Seq<char>,
    target: Seq<char>,
    sha: Seq<char>,
) -> Seq<char> {
    "    "@ + on + " do\n      url \""@ + download_url(
        repo,
        version,
        archive_name_of(binary, version, target),
    ) + "\"\n      sha256 \""@ + sha + "\"\n    end\n"@
}

/// The formula document for a project: a class named by the project's name
/// in PascalCase, the version, one block each for the two processors of
/// macOS, and the installation of the binary.
pub open spec fn formula_text(
    name: Seq<char>,
    binary: Seq<char>,
    repo: Seq<char>,
    version: Seq<char>,
    arm_sha: Seq<char>,
    intel_sha: Seq<char>,
) -> Seq<char> {
    "class "@ + pascal_case(name) + " < Formula\n  desc \""@ + name + "\"\n  homepage \""@
        + host_url(repo) + "\"\n  version \""@ + version + "\"\n\n  on_macos do\n"@
        + formula_block("on_arm"@, binary, repo, version, MAC_ARM@, arm_sha) + formula_block(
        "on_intel"@,
        binary,
        repo,
        version,
        MAC_INTEL@,
        intel_sha,
    ) + "  end\n\n  def install\n    bin.install \""@ + binary + "\"\n  end\nend\n"@
}

fn push_download_url(out: &mut String, repo: &str, version: &str, binary: &str, target: &str)
    ensures
        final(out)@ == old(out)@ + download_url(
            repo@,
            version@,
            archive_name_of(binary@, version@, target@),
        ),
{
    out.append("https://github.com/");
    out.append(repo);
    out.append("/releases/download/v");
    out.append(version);
    out.append("/");
    out.append(binary);
    out.append("-");
    out.append(version);
    out.append("-");
    out.append(target);
    out.append(".tar.gz");
    assert(out@ =~= old(out)@ + download_url(
        repo@,
        version@,
        archive_name_of(binary@, version@, target@),
    ));
}

fn push_formula_block(
    out: &mut String,
    on: &str,
    binary: &str,
    repo: &str,
    version: &str,
    target: &str,
    sha: &str,
)
    ensures
        final(out)@ == old(out)@ + formula_block(on@, binary@, repo@, version@, target@, sha@),
{
    out.append("    ");
    out.append(on);
    out.append(" do\n      url \"");
    push_download_url(out, repo, version, binary, target);
    out.append("\"\n      sha256 \"");
    out.append(sha);
    out.append("\"\n    end\n");
}

/// Writes the formula document of a release.
pub fn generate_formula(
    name: &str,
    binary: &str,
    repo: &str,
    version: &str,
    arm_sha: &str,
    intel_sha: &str,
) -> (r: String)
    ensures
        r@ == formula_text(name@, binary@, repo@, version@, arm_sha@, intel_sha@),
{
    let mut s = "class ".to_owned();
    s.append(to_pascal_case(name).as_str());
    s.append(" < Formula\n  desc \"");
    s.append(name);
    s.append("\"\n  homepage \"");
    s.append("https://github.com/");
    s.append(repo);
    s.append("\"\n  version \"");
    s.append(version);
    s.append("\"\n\n  on_macos do\n");
    push_formula_block(&mut s, "on_arm", binary, repo, version, MAC_ARM, arm_sha);
    push_formula_block(&mut s, "on_intel", binary, repo, version, MAC_INTEL, intel_sha);
    s.append("  end\n\n  def install\n    bin.install \"");
    s.append(binary);
    s.append("\"\n  end\nend\n");
    s
}

/// The installer script up to the binary's name.
pub const SCRIPT_HEAD: &'static str = "#!/bin/sh\nset -eu\n\nBINARY=\"";

/// The installer script between the binary and the repository.
pub const SCRIPT_REPO: &'static str = "\"\nREPO=\"";

/// The installer script between the repository and the version.
pub const SCRIPT_VERSION: &'static str = "\"\nVERSION=\"";

/// The installer script behind the version: it finds the system and the
/// processor, refuses those it does not know, downloads the archive named
/// for them into a directory that is removed on every way out, and installs
/// the binary into `INSTALL_DIR`, by default `/usr/local/bin`.
pub const SCRIPT_BODY: &'static str =
    "\"\n\nOS=\"$(uname -s)\"\nARCH=\"$(uname -m)\"\n\ncase \"$OS\" in\n  Linux)  OS_TARGET=\"unknown-linux-gnu\" ;;\n  Darwin) OS_TARGET=\"apple-darwin\" ;;\n  *)      echo \"Unsupported OS: $OS\" >&2; exit 1 ;;\nesac\n\ncase \"$ARCH\" in\n  x86_64|amd64) ARCH_TARGET=\"x86_64\" ;;\n  arm64|aarch64) ARCH_TARGET=\"aarch64\" ;;\n  *)             echo \"Unsupported architecture: $ARCH\" >&2; exit 1 ;;\nesac\n\nTARGET=\"${ARCH_TARGET}-${OS_TARGET}\"\nURL=\"https://github.com/${REPO}/releases/download/v${VERSION}/${BINARY}-${VERSION}-${TARGET}.tar.gz\"\n\nTMPDIR=\"$(mktemp -d)\"\ntrap 'rm -rf \"$TMPDIR\"' EXIT\n\necho \"Downloading $BINARY v$VERSION for $TARGET...\"\ncurl -fsSL \"$URL\" | tar xz -C \"$TMPDIR\"\n\nINSTALL_DIR=\"${INSTALL_DIR:-/usr/local/bin}\"\ninstall -d \"$INSTALL_DIR\"\ninstall \"$TMPDIR/$BINARY\" \"$INSTALL_DIR/$BINARY\"\necho \"Installed $BINARY to $INSTALL_DIR/$BINARY\"\n";

/// The installer script of a release: the binary, the repository and the
/// version set at its head, then the part that is the same for every release.
pub open spec fn install_script_text(binary: Seq<char>, repo: Seq<char>, version: Seq<char>)
    -> Seq<char> {
    SCRIPT_HEAD@ + binary + SCRIPT_REPO@ + repo + SCRIPT_VERSION@ + version + SCRIPT_BODY@
}

/// Writes the shell installer of a release. When run, the script finds the
/// system and the processor, downloads the archive named for them from the
/// release, and installs the binary.
pub fn generate_install_script(binary: &str, repo: &str, version: &str) -> (r: String)
    ensures
        r@ == install_script_text(binary@, repo@, version@),
{
    let mut s = SCRIPT_HEAD.to_owned();
    s.append(binary);
    s.append(SCRIPT_REPO);
    s.append(repo);
    s.append(SCRIPT_VERSION);
    s.append(version);
    s.append(SCRIPT_BODY);
    s
}

/// Where the installer script is written before it is sent.
pub const SCRIPT_PATH: &'static str = "target/release-staging/install.sh";

/// The releases of a repository, on the host's API.
pub open spec fn releases_url(repo: Seq<char>) -> Seq<char> {
    "https://api.github.com/repos/"@ + repo + "/releases"@
}

/// The release tagged for `version`, on the host's API.
pub open spec fn release_by_tag_url(repo: Seq<char>, version: Seq<char>) -> Seq<char> {
    releases_url(repo) + "/tags/v"@ + version
}

/// The formula file of a tap, on the host's API.
pub open spec fn formula_url(tap: Seq<char>, formula_name: Seq<char>) -> Seq<char> {
    "https://api.github.com/repos/"@ + tap + "/contents/Formula/"@ + formula_name + ".rb"@
}

/// The issues of a repository, on the host's API.
pub open spec fn issues_url(repo: Seq<char>) -> Seq<char> {
    "https://api.github.com/repos/"@ + repo + "/issues"@
}

/// The source archive of the tag of `version`.
pub open spec fn source_url(repo: Seq<char>, version: Seq<char>) -> Seq<char> {
    host_url(repo) + "/archive/refs/tags/v"@ + version + ".tar.gz"@
}

/// The address of a repository's releases.
pub fn releases_address(repo: &str) -> (r: String)
    ensures
        r@ == releases_url(repo@),
{
    let mut s = "https://api.github.com/repos/".to_owned();
    s.append(repo);
    s.append("/releases");
    s
}

/// The address of the release tagged for `version`.
pub fn release_by_tag_address(repo: &str, version: &str) -> (r: String)
    ensures
        r@ == release_by_tag_url(repo@, version@),
{
    let mut s = releases_address(repo);
    s.append("/tags/v");
    s.append(version);
    s
}

/// The address of a tap's formula file.
pub fn formula_address(tap: &str, formula_name: &str) -> (r: String)
    ensures
        r@ == formula_url(tap@, formula_name@),
{
    let mut s = "https://api.github.com/repos/".to_owned();
    s.append(tap);
    s.append("/contents/Formula/");
    s.append(formula_name);
    s.append(".rb");
    s
}

/// The address of a repository's issues.
pub fn issues_address(repo: &str) -> (r: String)
    ensures
        r@ == issues_url(repo@),
{
    let mut s = "https://api.github.com/repos/".to_owned();
    s.append(repo);
    s.append("/issues");
    s
}

/// The address of the source archive of the tag of `version`.
pub fn source_address(repo: &str, version: &str) -> (r: String)
    ensures
        r@ == source_url(repo@, version@),
{
    let mut s = "https://github.com/".to_owned();
    s.append(repo);
    s.append("/archive/refs/tags/v");
    s.append(version);
    s.append(".tar.gz");
    s
}

/// The tag of a version.
pub open spec fn tag_of(version: Seq<char>) -> Seq<char> {
    "v"@ + version
}

/// The members of the request that creates a release: the tag, the name,
/// and the wish for generated notes.
pub open spec fn release_members(version: Seq<char>) -> Map<Seq<char>, Member> {
    Map::<Seq<char>, Member>::empty().insert("tag_name"@, Member::Text(tag_of(version))).insert(
        "name"@,
        Member::Text(tag_of(version)),
    ).insert("generate_release_notes"@, Member::Flag(true))
}

/// The body of the request that creates the release of `version`.
pub fn release_body(version: &str) -> (r: String)
    ensures
        r@ == rendering(release_members(version@)),
{
    let mut tag = "v".to_owned();
    tag.append(version);
    let mut m = object_new();
    object_put_text(&mut m, "tag_name", tag.as_str());
    object_put_text(&mut m, "name", tag.as_str());
    object_put_flag(&mut m, "generate_release_notes", true);
    object_text(m)
}

/// The message of the commit that updates a formula.
pub open spec fn formula_message(formula_name: Seq<char>, version: Seq<char>) -> Seq<char> {
    "Update "@ + formula_name + " to "@ + version
}

/// The members of the request that writes a formula: the commit message,
/// the document in base64, and the revision marker of the file it replaces
/// where there is one.
pub open spec fn formula_members(
    formula_name: Seq<char>,
    version: Seq<char>,
    content: Seq<char>,
    revision: Option<Seq<char>>,
) -> Map<Seq<char>, Member> {
    let base = Map::<Seq<char>, Member>::empty().insert(
        "message"@,
        Member::Text(formula_message(formula_name, version)),
    ).insert("content"@, Member::Text(content));
    match revision {
        Some(sha) => base.insert("sha"@, Member::Text(sha)),
        None => base,
    }
}

/// The body of the request that writes a formula, from the document already
/// in base64.
pub fn formula_body_of(
    formula_name: &str,
    version: &str,
    content: &str,
    revision: Option<&str>,
) -> (r: String)
    ensures
        r@ == rendering(
            formula_members(
                formula_name@,
                version@,
                content@,
                match revision {
                    Some(s) => Some(s@),
                    None => None,
                },
            ),
        ),
{
    let mut message = "Update ".to_owned();
    message.append(formula_name);
    message.append(" to ");
    message.append(version);
    let mut m = object_new();
    object_put_text(&mut m, "message", message.as_str());
    object_put_text(&mut m, "content", content);
    match revision {
        Some(sha) => {
            object_put_text(&mut m, "sha", sha);
        },
        None => {},
    }
    object_text(m)
}

/// The body of the request that writes a formula, or `None` where the
/// document is too long to be put in base64.
pub fn formula_body(formula_name: &str, version: &str, formula: &str, revision: Option<&str>)
    -> (r: Option<String>)
    ensures
        match r {
            Some(body) => encodable(formula.spec_bytes().len()) && body@ == rendering(
                formula_members(
                    formula_name@,
                    version@,
                    base64_text(formula.spec_bytes()),
                    match revision {
                        Some(s) => Some(s@),
                        None => None,
                    },
                ),
            ),
            None => !encodable(formula.spec_bytes().len()),
        },
{
    match encode_text(formula) {
        Some(content) => Some(formula_body_of(formula_name, version, content.as_str(), revision)),
        None => None,
    }
}

/// The title of an update request.
pub open spec fn issue_title(version: Seq<char>) -> Seq<char> {
    "Update to v"@ + version
}

/// The text of an update request: the version, where the source is, and
/// its hash.
pub open spec fn issue_text(version: Seq<char>, source: Seq<char>, hash: Seq<char>) -> Seq<
    char,
> {
    "New release v"@ + version + "\n\nSource: "@ + source + "\nSHA256: "@ + hash
}

/// The members of the request that files an update request.
pub open spec fn issue_members(version: Seq<char>, source: Seq<char>, hash: Seq<char>) -> Map<
    Seq<char>,
    Member,
> {
    Map::<Seq<char>, Member>::empty().insert("title"@, Member::Text(issue_title(version))).insert(
        "body"@,
        Member::Text(issue_text(version, source, hash)),
    )
}

/// The body of the request that files an update request.
pub fn issue_body(version: &str, source: &str, hash: &str) -> (r: String)
    ensures
        r@ == rendering(issue_members(version@, source@, hash@)),
{
    let mut title = "Update to v".to_owned();
    title.append(version);
    let mut text = "New release v".to_owned();
    text.append(version);
    text.append("\n\nSource: ");
    text.append(source);
    text.append("\nSHA256: ");
    text.append(hash);
    let mut m = object_new();
    object_put_text(&mut m, "title", title.as_str());
    object_put_text(&mut m, "body", text.as_str());
    object_text(m)
}

/// What an answer of the host's API holds under a key.
#[derive(Debug)]
pub enum Reply {
    /// A string.
    Text(String),
    /// No string: the answer is empty or no object, or has no such string.
    Absent,
    /// The answer is not JSON.
    Unreadable,
}

/// The string members of an answer: none for an empty answer, which stands
/// for null; `None` where the answer is not JSON.
pub open spec fn reply_members(stdout: Seq<char>) -> Option<Map<Seq<char>, Seq<char>>> {
    if trim(stdout).len() == 0 {
        Some(Map::empty())
    } else {
        parsed(trim(stdout))
    }
}

/// Reads the string under `key` out of an answer of the host's API.
pub fn reply_member(stdout: &str, key: &str) -> (r: Reply)
    ensures
        match r {
            Reply::Text(s) => reply_members(stdout@) matches Some(m) && m.contains_key(key@)
                && m[key@] == s@,
            Reply::Absent => reply_members(stdout@) matches Some(m) && !m.contains_key(key@),
            Reply::Unreadable => reply_members(stdout@) is None,
        },
{
    let text = trimmed(&to_chars(stdout));
    if text.len() == 0 {
        return Reply::Absent;
    }
    match parse(string_of(&text).as_str()) {
        Ok(value) => match text_member(&value, key) {
            Some(s) => Reply::Text(s),
            None => Reply::Absent,
        },
        Err(_) => Reply::Unreadable,
    }
}

/// The address to send assets to: the upload address of a release up to its
/// first `{`, which starts the part to be filled in.
pub open spec fn upload_base(upload_url: Seq<char>) -> Seq<char> {
    upload_url.take(first_index(upload_url, '{'))
}

/// Cuts the part to be filled in off the upload address of a release.
pub fn upload_target(upload_url: &str) -> (r: String)
    ensures
        r@ == upload_base(upload_url@),
{
    let text = to_chars(upload_url);
    let n = text.len();
    let mut k: usize = 0;
    while k < n && text[k] != '{'
        invariant
            k <= n,
            n == text.len(),
            forall|j: int| 0 <= j < k ==> text@[j] != '{',
        decreases n - k,
    {
        k = k + 1;
    }
    proof {
        lemma_first_index_is(text@, '{', k as int);
    }
    let r = slice_of(&text, 0, k);
    string_of(&r)
}

/// The header that says which answers are accepted.
pub const ACCEPT: &'static str = "Accept: application/vnd.github+json";

/// What precedes the credential in its header.
pub const BEARER: &'static str = "Authorization: Bearer ";

/// The header of a request with a JSON body.
pub const JSON_CONTENT: &'static str = "Content-Type: application/json";

/// The arguments every transfer starts with: fail on errors of the server,
/// the method, what is accepted, and the credential.
pub open spec fn transfer_head(method: Seq<char>, token: Seq<char>) -> Seq<Seq<char>> {
    seq!["-fsSL"@, "-X"@, method, "-H"@, ACCEPT@, "-H"@, BEARER@ + token]
}

/// The transfer that sends a request to the host's API with the credential
/// `token`.
pub open spec fn api_transfer(
    token: Seq<char>,
    method: Seq<char>,
    url: Seq<char>,
    body: Option<Seq<char>>,
) -> CommandLineView {
    CommandLineView {
        dir: None,
        program: "curl"@,
        args: transfer_head(method, token) + (match body {
            Some(b) => seq!["-H"@, JSON_CONTENT@, "-d"@, b],
            None => Seq::empty(),
        }) + seq![url],
    }
}

/// The transfer that sends a file to a release with the credential `token`.
pub open spec fn upload_transfer(
    token: Seq<char>,
    upload_url: Seq<char>,
    file: Seq<char>,
    name: Seq<char>,
    content_type: Seq<char>,
) -> CommandLineView {
    CommandLineView {
        dir: None,
        program: "curl"@,
        args: transfer_head("POST"@, token) + seq![
            "-H"@,
            "Content-Type: "@ + content_type,
            "--data-binary"@,
            "@"@ + file,
            upload_url + "?name="@ + name,
        ],
    }
}

fn transfer_start(method: &str, token: &str) -> (args: Vec<String>)
    ensures
        views(args@) == transfer_head(method@, token@),
{
    let mut auth = BEARER.to_owned();
    auth.append(token);
    let mut args: Vec<String> = Vec::new();
    args.push("-fsSL".to_owned());
    args.push("-X".to_owned());
    args.push(method.to_owned());
    args.push("-H".to_owned());
    args.push(ACCEPT.to_owned());
    args.push("-H".to_owned());
    args.push(auth);
    args
}

/// The process that sends `request` with the credential `token`.
pub fn api_command(token: &str, request: &ApiRequest) -> (r: CommandLine)
    ensures
        r@ == api_transfer(token@, request@.method, request@.url, request@.body),
{
    let mut args = transfer_start(request.method.as_str(), token);
    match &request.body {
        Some(b) => {
            args.push("-H".to_owned());
            args.push(JSON_CONTENT.to_owned());
            args.push("-d".to_owned());
            args.push(b.clone());
        },
        None => {},
    }
    args.push(request.url.clone());
    let r = CommandLine { dir: None, program: "curl".to_owned(), args };
    assert(r@.args =~= api_transfer(
        token@,
        request@.method,
        request@.url,
        request@.body,
    ).args);
    r
}

/// The process that sends the file of `upload` with the credential `token`.
pub fn upload_command(token: &str, upload: &UploadRequest) -> (r: CommandLine)
    ensures
        r@ == upload_transfer(
            token@,
            upload@.upload_url,
            upload@.file,
            upload@.name,
            upload@.content_type,
        ),
{
    let mut args = transfer_start("POST", token);
    let mut kind = "Content-Type: ".to_owned();
    kind.append(upload.content_type.as_str());
    let mut data = "@".to_owned();
    data.append(upload.file.as_str());
    let mut url = upload.upload_url.clone();
    url.append("?name=");
    url.append(upload.name.as_str());
    args.push("-H".to_owned());
    args.push(kind);
    args.push("--data-binary".to_owned());
    args.push(data);
    args.push(url);
    let r = CommandLine { dir: None, program: "curl".to_owned(), args };
    assert(r@.args =~= upload_transfer(
        token@,
        upload@.upload_url,
        upload@.file,
        upload@.name,
        upload@.content_type,
    ).args);
    r
}

/// The first word of a text, if it has one.
pub open spec fn first_word(text: Seq<char>) -> Option<Seq<char>> {
    if words(text).len() > 0 {
        Some(words(text)[0])
    } else {
        None
    }
}

/// The checksum in the output of the checksum tool: its first word.
pub fn checksum_of(output: &str) -> (r: Option<String>)
    ensures
        opt_view(r) == first_word(output@),
{
    let pieces = split_words(&to_chars(output));
    if pieces.len() > 0 {
        Some(string_of(&pieces[0]))
    } else {
        None
    }
}

/// Whether a target is macOS on ARM.
pub open spec fn is_mac_arm(target: Seq<char>) -> bool {
    contains_seq(target, "aarch64"@) && contains_seq(target, "apple-darwin"@)
}

/// Whether a target is macOS on Intel.
pub open spec fn is_mac_intel(target: Seq<char>) -> bool {
    !is_mac_arm(target) && contains_seq(target, "x86_64"@) && contains_seq(
        target,
        "apple-darwin"@,
    )
}

/// Whether a target is macOS on ARM.
pub fn mac_arm(target: &str) -> (b: bool)
    ensures
        b == is_mac_arm(target@),
{
    let t = to_chars(target);
    contains(&t, &to_chars("aarch64")) && contains(&t, &to_chars("apple-darwin"))
}

/// Whether a target is macOS on Intel.
pub fn mac_intel(target: &str) -> (b: bool)
    ensures
        b == is_mac_intel(target@),
{
    let t = to_chars(target);
    !mac_arm(target) && contains(&t, &to_chars("x86_64")) && contains(
        &t,
        &to_chars("apple-darwin"),
    )
}

} // verus!
