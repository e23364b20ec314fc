//! Paths and archive names, as text with `/` between components.

use crate::text::{push_range, string_of, to_chars};
use vstd::prelude::*;
use vstd::string::StringExecFns;

verus! {

/// `name` under `dir`: an absolute `name` stands for itself, as does any
/// `name` under an empty `dir`; else the two are joined by one `/`, which a
/// `dir` that ends in `/` already brings.
pub open spec fn joined_path(dir: Seq<char>, name: Seq<char>) -> Seq<char> {
    if dir.len() == 0 || (name.len() > 0 && name[0] == '/') {
        name
    } else if dir.last() == '/' {
        dir + name
    } else {
        dir + seq!['/'] + name
    }
}

/// The path of `name` under `dir`.
pub fn join_path(dir: &str, name: &str) -> (r: String)
    ensures
        r@ == joined_path(dir@, name@),
{
    let d = to_chars(dir);
    let n = to_chars(name);
    let mut out: Vec<char> = Vec::new();
    let stands_alone = d.len() == 0 || (n.len() > 0 && n[0] == '/');
    if !stands_alone {
        push_range(&mut out, &d, 0, d.len());
        if d[d.len() - 1] != '/' {
            out.push('/');
        }
    }
    push_range(&mut out, &n, 0, n.len());
    assert(d@.subrange(0, d.len() as int) == d@);
    assert(n@.subrange(0, n.len() as int) == n@);
    string_of(&out)
}

/// The name of the archive for a target: `<binary>-<version>-<target>.tar.gz`.
/// Installers rebuild this name to find the archive, so it is fixed.
pub open spec fn archive_name_of(binary: Seq<char>, version: Seq<char>, target: Seq<char>) -> Seq<
    char,
> {
    binary + "-"@ + version + "-"@ + target + ".tar.gz"@
}

/// The name of the archive of `binary` in `version` for `target`.
pub fn archive_name(binary: &str, version: &str, target: &str) -> (r: String)
    ensures
        r@ == archive_name_of(binary@, version@, target@),
{
    let mut s = binary.to_owned();
    s.append("-");
    s.append(version);
    s.append("-");
    s.append(target);
    s.append(".tar.gz");
    s
}

} // verus!
