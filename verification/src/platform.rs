//! Target platforms: what the toolchain reports about the host and the
//! installed targets, and whether building for a target on a host calls for a
//! linker that can cross platforms.

use crate::text::{
    contains, contains_seq, first_index, lemma_first_index_is, matches_at, occurs_at, replace,
    replace_all, rows, same_chars, slice_of, split, split_on, string_of, to_chars, trim, trimmed,
};
use vstd::prelude::*;

verus! {

/// What follows the first `-` of a platform identifier: vendor, system and
/// ABI. An identifier without `-` is its own suffix.
pub open spec fn platform_suffix(s: Seq<char>) -> Seq<char> {
    let k = first_index(s, '-');
    if 0 <= k < s.len() {
        s.skip(k + 1)
    } else {
        s
    }
}

/// Building for `target` on `host` needs a cross-capable linker exactly when
/// their suffixes differ.
pub open spec fn cross_linker_needed(host: Seq<char>, target: Seq<char>) -> bool {
    platform_suffix(host) != platform_suffix(target)
}

/// The suffix of `s`, as characters.
fn suffix_of(s: &Vec<char>) -> (r: Vec<char>)
    ensures
        r@ == platform_suffix(s@),
{
    let n = s.len();
    let mut k: usize = 0;
    while k < n && s[k] != '-'
        invariant
            k <= n,
            n == s.len(),
            forall|j: int| 0 <= j < k ==> s@[j] != '-',
        decreases n - k,
    {
        k = k + 1;
    }
    proof {
        lemma_first_index_is(s@, '-', k as int);
    }
    if k < n {
        slice_of(s, k + 1, n)
    } else {
        let r = slice_of(s, 0, n);
        assert(s@.subrange(0, n as int) == s@);
        r
    }
}

/// Whether building for `target` on `host` needs a cross-capable linker.
pub fn needs_cross_linker(host: &str, target: &str) -> (b: bool)
    ensures
        b == cross_linker_needed(host@, target@),
{
    let h = suffix_of(&to_chars(host));
    let t = suffix_of(&to_chars(target));
    !same_chars(&h, &t)
}

/// No platform needs a cross-capable linker to build for itself.
pub proof fn lemma_cross_linker_irreflexive(x: Seq<char>)
    ensures
        !cross_linker_needed(x, x),
{
}

/// The suffix of an architecture, a `-` and a rest is that rest.
pub proof fn lemma_suffix_of_joined(arch: Seq<char>, rest: Seq<char>)
    requires
        !arch.contains('-'),
    ensures
        platform_suffix(arch + seq!['-'] + rest) == rest,
{
    let s = arch + seq!['-'] + rest;
    assert forall|j: int| 0 <= j < arch.len() implies s[j] != '-' by {
        assert(s[j] == arch[j]);
        assert(arch.contains(arch[j]));
    }
    assert(s[arch.len() as int] == '-');
    lemma_first_index_is(s, '-', arch.len() as int);
    assert(s.skip(arch.len() as int + 1) =~= rest);
}

/// Whether a cross-capable linker is needed depends on the two suffixes
/// alone: platforms with the same suffixes give the same answer.
pub proof fn lemma_cross_linker_by_suffix(h1: Seq<char>, t1: Seq<char>, h2: Seq<char>, t2: Seq<char>)
    requires
        platform_suffix(h1) == platform_suffix(h2),
        platform_suffix(t1) == platform_suffix(t2),
    ensures
        cross_linker_needed(h1, t1) == cross_linker_needed(h2, t2),
{
}

/// For identifiers made of an architecture, a `-` and a rest, a
/// cross-capable linker is needed exactly when the rests differ, whatever the
/// architectures.
pub proof fn lemma_cross_linker_ignores_arch(
    a1: Seq<char>,
    r1: Seq<char>,
    a2: Seq<char>,
    r2: Seq<char>,
)
    requires
        !a1.contains('-'),
        !a2.contains('-'),
    ensures
        cross_linker_needed(a1 + seq!['-'] + r1, a2 + seq!['-'] + r2) == (r1 != r2),
{
    lemma_suffix_of_joined(a1, r1);
    lemma_suffix_of_joined(a2, r2);
}

/// What starts the line of the toolchain's report that names the host.
pub const HOST_PREFIX: &'static str = "host: ";

/// The host named by the first line that starts with `host: `: what follows
/// the prefix, trimmed.
pub open spec fn host_of_lines(lines: Seq<Seq<char>>) -> Option<Seq<char>>
    decreases lines.len(),
{
    if lines.len() == 0 {
        None
    } else if occurs_at(lines[0], HOST_PREFIX@, 0) {
        Some(trim(lines[0].skip(HOST_PREFIX@.len() as int)))
    } else {
        host_of_lines(lines.skip(1))
    }
}

/// The host platform in the toolchain's verbose version report.
pub open spec fn host_target_of(report: Seq<char>) -> Option<Seq<char>> {
    host_of_lines(split_on(report, '\n'))
}

/// Reads the host platform out of the toolchain's verbose version report.
pub fn parse_host_target(rustc_output: &str) -> (r: Option<String>)
    ensures
        match r {
            Some(h) => host_target_of(rustc_output@) == Some(h@),
            None => host_target_of(rustc_output@) is None,
        },
{
    let text = to_chars(rustc_output);
    let lines = split(&text, '\n');
    let prefix = to_chars(HOST_PREFIX);
    let mut i: usize = 0;
    assert(rows(lines@).skip(0) == rows(lines@));
    while i < lines.len()
        invariant
            i <= lines.len(),
            prefix@ == HOST_PREFIX@,
            host_target_of(rustc_output@) == host_of_lines(rows(lines@).skip(i as int)),
        decreases lines.len() - i,
    {
        let ghost rest = rows(lines@).skip(i as int);
        assert(rest[0] == lines@[i as int]@);
        assert(rest.skip(1) == rows(lines@).skip(i + 1));
        if matches_at(&lines[i], &prefix, 0) {
            let line = &lines[i];
            let value = slice_of(line, prefix.len(), line.len());
            assert(line@.subrange(prefix.len() as int, line.len() as int) == line@.skip(
                prefix.len() as int,
            ));
            let host = trimmed(&value);
            return Some(string_of(&host));
        }
        i = i + 1;
    }
    None
}

/// A finite set of platform identifiers.
pub struct TargetSet {
    names: Vec<Vec<char>>,
}

impl View for TargetSet {
    type V = Set<Seq<char>>;

    closed spec fn view(&self) -> Set<Seq<char>> {
        rows(self.names@).to_set()
    }
}

impl TargetSet {
    #[verifier::type_invariant]
    spec fn distinct(&self) -> bool {
        rows(self.names@).no_duplicates()
    }

    /// The empty set.
    pub fn new() -> (r: TargetSet)
        ensures
            r@ == Set::<Seq<char>>::empty(),
    {
        let r = TargetSet { names: Vec::new() };
        assert(rows(r.names@) == Seq::<Seq<char>>::empty());
        assert(r@ =~= Set::<Seq<char>>::empty());
        r
    }

    fn holds(&self, name: &Vec<char>) -> (b: bool)
        ensures
            b == self@.contains(name@),
    {
        let mut i: usize = 0;
        while i < self.names.len()
            invariant
                i <= self.names.len(),
                forall|j: int| 0 <= j < i ==> rows(self.names@)[j] != name@,
            decreases self.names.len() - i,
        {
            if same_chars(&self.names[i], name) {
                assert(rows(self.names@)[i as int] == name@);
                return true;
            }
            i = i + 1;
        }
        false
    }

    /// Whether `name` is in the set.
    pub fn contains(&self, name: &str) -> (b: bool)
        ensures
            b == self@.contains(name@),
    {
        self.holds(&to_chars(name))
    }

    /// Adds `name`; says whether it was new.
    pub fn insert(&mut self, name: &str) -> (fresh: bool)
        ensures
            final(self)@ == old(self)@.insert(name@),
            fresh == !old(self)@.contains(name@),
    {
        let chars = to_chars(name);
        self.add(chars)
    }

    fn add(&mut self, chars: Vec<char>) -> (fresh: bool)
        ensures
            final(self)@ == old(self)@.insert(chars@),
            fresh == !old(self)@.contains(chars@),
    {
        proof {
            use_type_invariant(&*self);
        }
        if self.holds(&chars) {
            assert(self@.insert(chars@) =~= self@);
            false
        } else {
            let ghost before = rows(self.names@);
            let mut names: Vec<Vec<char>> = Vec::new();
            core::mem::swap(&mut names, &mut self.names);
            names.push(chars);
            proof {
                assert(rows(names@) == before.push(chars@));
                assert(!before.contains(chars@));
                assert(rows(names@).no_duplicates());
                assert(rows(names@).to_set() =~= before.to_set().insert(chars@)) by {
                    assert forall|x: Seq<char>| #[trigger]
                        rows(names@).to_set().contains(x) <==> before.to_set().insert(
                            chars@,
                        ).contains(x) by {
                        if rows(names@).contains(x) {
                            let j = choose|j: int|
                                0 <= j < rows(names@).len() && rows(names@)[j] == x;
                            if j < before.len() {
                                assert(before[j] == x);
                            }
                        }
                        if before.contains(x) {
                            let j = choose|j: int| 0 <= j < before.len() && before[j] == x;
                            assert(rows(names@)[j] == x);
                        }
                        if x == chars@ {
                            assert(rows(names@)[before.len() as int] == x);
                        }
                    }
                }
            }
            self.names = names;
            true
        }
    }

    /// How many identifiers the set holds.
    pub fn len(&self) -> (n: usize)
        ensures
            n == self@.len(),
            self@.finite(),
    {
        proof {
            use_type_invariant(self);
            rows(self.names@).unique_seq_to_set();
        }
        self.names.len()
    }

    /// Whether the set holds nothing.
    pub fn is_empty(&self) -> (b: bool)
        ensures
            b == (self@ == Set::<Seq<char>>::empty()),
    {
        proof {
            use_type_invariant(self);
            if self.names@.len() == 0 {
                assert(self@ =~= Set::<Seq<char>>::empty());
            } else {
                assert(rows(self.names@)[0] == self.names@[0]@);
                assert(self@.contains(self.names@[0]@));
            }
        }
        self.names.len() == 0
    }
}

/// The installed targets in the toolchain manager's listing: the lines,
/// trimmed, without the empty ones.
pub open spec fn installed_of(listing: Seq<char>) -> Set<Seq<char>> {
    Set::new(
        |t: Seq<char>|
            t.len() > 0 && exists|i: int|
                0 <= i < split_on(listing, '\n').len() && trim(
                    #[trigger] split_on(listing, '\n')[i],
                ) == t,
    )
}

/// Reads the set of installed targets out of the toolchain manager's listing.
pub fn parse_installed_targets(output: &str) -> (r: TargetSet)
    ensures
        r@ == installed_of(output@),
{
    let text = to_chars(output);
    let lines = split(&text, '\n');
    let mut set = TargetSet::new();
    let mut i: usize = 0;
    while i < lines.len()
        invariant
            i <= lines.len(),
            rows(lines@) == split_on(output@, '\n'),
            forall|t: Seq<char>| #[trigger]
                set@.contains(t) <==> t.len() > 0 && exists|j: int|
                    0 <= j < i && trim(#[trigger] rows(lines@)[j]) == t,
        decreases lines.len() - i,
    {
        let name = trimmed(&lines[i]);
        let ghost before = set@;
        assert(rows(lines@)[i as int] == lines@[i as int]@);
        if name.len() > 0 {
            set.add(name);
        }
        proof {
            assert forall|t: Seq<char>| #[trigger]
                set@.contains(t) <==> t.len() > 0 && exists|j: int|
                    0 <= j < i + 1 && trim(#[trigger] rows(lines@)[j]) == t by {
                if before.contains(t) {
                    let j = choose|j: int| 0 <= j < i && trim(#[trigger] rows(lines@)[j]) == t;
                    assert(0 <= j < i + 1 && trim(rows(lines@)[j]) == t);
                }
                if t.len() > 0 && exists|j: int|
                    0 <= j < i + 1 && trim(#[trigger] rows(lines@)[j]) == t {
                    let j = choose|j: int|
                        0 <= j < i + 1 && trim(#[trigger] rows(lines@)[j]) == t;
                    if j < i {
                        assert(before.contains(t));
                    }
                }
            }
        }
        i = i + 1;
    }
    assert(set@ =~= installed_of(output@));
    set
}

/// The call of the standard build tool.
pub const CARGO_BUILD: &'static str = "cargo build";

/// The call of the cross-capable build wrapper.
pub const CARGO_ZIGBUILD: &'static str = "cargo zigbuild";

/// The command to run for `target`: where the command calls the standard
/// build tool, a cross-capable build wrapper is at hand, and the host is
/// known and differs from the target in its suffix, the wrapper takes the
/// standard tool's place at each call; otherwise the command as it is.
pub open spec fn build_invocation(
    command: Seq<char>,
    host: Option<Seq<char>>,
    target: Seq<char>,
    cross_builder_available: bool,
) -> Seq<char> {
    if contains_seq(command, CARGO_BUILD@) && cross_builder_available && host is Some
        && cross_linker_needed(host->0, target) {
        replace_all(command, CARGO_BUILD@, CARGO_ZIGBUILD@)
    } else {
        command
    }
}

/// Picks the build command for `target`. A missing wrapper is no error: the
/// command then runs unchanged. With an unknown host no cross-capable linker
/// is presumed to be needed.
pub fn select_build_invocation(
    command: &str,
    host: Option<&str>,
    target: &str,
    cross_builder_available: bool,
) -> (r: String)
    ensures
        r@ == build_invocation(
            command@,
            match host {
                Some(h) => Some(h@),
                None => None,
            },
            target@,
            cross_builder_available,
        ),
{
    let text = to_chars(command);
    let standard = to_chars(CARGO_BUILD);
    let upgrade = match host {
        Some(h) => cross_builder_available && contains(&text, &standard) && needs_cross_linker(
            h,
            target,
        ),
        None => false,
    };
    if upgrade {
        let wrapper = to_chars(CARGO_ZIGBUILD);
        string_of(&replace(&text, &standard, &wrapper))
    } else {
        string_of(&text)
    }
}

/// Without the cross-capable build wrapper, or with an unknown host, the
/// command runs as it is; and it runs as it is for a target with the host's
/// suffix, whatever is at hand.
pub proof fn lemma_no_upgrade(
    command: Seq<char>,
    host: Option<Seq<char>>,
    target: Seq<char>,
    cross_builder_available: bool,
)
    ensures
        !cross_builder_available ==> build_invocation(command, host, target, false) == command,
        build_invocation(command, None, target, cross_builder_available) == command,
        host matches Some(h) && platform_suffix(h) == platform_suffix(target)
            ==> build_invocation(command, host, target, cross_builder_available) == command,
{
}

} // verus!
