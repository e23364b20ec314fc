//! Failure triage: sorting the targets that failed by what can be done about
//! them, and the report shown before the operator decides whether to go on.

use crate::effect::opt_view;
use crate::platform::TargetSet;
use crate::text::views;
use vstd::prelude::*;
use vstd::string::StringExecFns;

verus! {

/// The question put to the operator when some targets failed.
pub const PROMPT: &'static str = "Continue with successful targets? [y/N] ";

/// The failed targets sorted for the operator.
#[derive(Debug)]
pub struct Triage {
    /// How many targets were configured.
    pub total: usize,
    /// The targets that failed, in configured order.
    pub failed: Vec<String>,
    /// The targets that were archived, in configured order.
    pub succeeded: Vec<String>,
    /// Whether the failures were sorted by what the toolchain has installed.
    pub sorted: bool,
    /// Failed targets that the toolchain has not installed.
    pub missing: Vec<String>,
    /// Failed targets that are installed, so that a linker is what lacks.
    pub unlinked: Vec<String>,
    /// The directory of pre-built artifacts, where the build uses one.
    pub pre_built_dir: Option<String>,
    /// Where the artifact of each failed target was expected.
    pub expected: Vec<String>,
}

/// A [`Triage`] as plain values.
pub ghost struct TriageView {
    pub total: nat,
    pub failed: Seq<Seq<char>>,
    pub succeeded: Seq<Seq<char>>,
    pub sorted: bool,
    pub missing: Seq<Seq<char>>,
    pub unlinked: Seq<Seq<char>>,
    pub pre_built_dir: Option<Seq<char>>,
    pub expected: Seq<Seq<char>>,
}

impl View for Triage {
    type V = TriageView;

    open spec fn view(&self) -> TriageView {
        TriageView {
            total: self.total as nat,
            failed: views(self.failed@),
            succeeded: views(self.succeeded@),
            sorted: self.sorted,
            missing: views(self.missing@),
            unlinked: views(self.unlinked@),
            pre_built_dir: opt_view(self.pre_built_dir),
            expected: views(self.expected@),
        }
    }
}

/// The items that are in `set`, or those that are not, as `inside` says, in
/// their order.
pub open spec fn keep(items: Seq<Seq<char>>, set: Set<Seq<char>>, inside: bool) -> Seq<Seq<char>>
    decreases items.len(),
{
    if items.len() == 0 {
        Seq::empty()
    } else {
        let before = keep(items.drop_last(), set, inside);
        if set.contains(items.last()) == inside {
            before.push(items.last())
        } else {
            before
        }
    }
}

/// The triage of a pipeline's failures: where they are sorted, the failed
/// targets that are not installed are missing, and those that are installed
/// lack a linker.
pub open spec fn report_of(
    total: nat,
    failed: Seq<Seq<char>>,
    succeeded: Seq<Seq<char>>,
    sorted: bool,
    installed: Set<Seq<char>>,
    pre_built_dir: Option<Seq<char>>,
    expected: Seq<Seq<char>>,
) -> TriageView {
    TriageView {
        total,
        failed,
        succeeded,
        sorted,
        missing: if sorted {
            keep(failed, installed, false)
        } else {
            Seq::empty()
        },
        unlinked: if sorted {
            keep(failed, installed, true)
        } else {
            Seq::empty()
        },
        pre_built_dir,
        expected,
    }
}

/// The character of a decimal digit.
pub open spec fn digit(d: nat) -> char {
    if d == 0 {
        '0'
    } else if d == 1 {
        '1'
    } else if d == 2 {
        '2'
    } else if d == 3 {
        '3'
    } else if d == 4 {
        '4'
    } else if d == 5 {
        '5'
    } else if d == 6 {
        '6'
    } else if d == 7 {
        '7'
    } else if d == 8 {
        '8'
    } else {
        '9'
    }
}

/// A number in decimal notation.
pub open spec fn decimal_text(n: nat) -> Seq<char>
    decreases n,
{
    if n < 10 {
        seq![digit(n)]
    } else {
        decimal_text(n / 10).push(digit(n % 10))
    }
}

/// One line per item: the prefix, the item, a line end.
pub open spec fn bullets(prefix: Seq<char>, items: Seq<Seq<char>>) -> Seq<char>
    decreases items.len(),
{
    if items.len() == 0 {
        Seq::empty()
    } else {
        bullets(prefix, items.drop_last()) + prefix + items.last() + "\n"@
    }
}

/// The items with `, ` between them.
pub open spec fn listed(items: Seq<Seq<char>>) -> Seq<char>
    decreases items.len(),
{
    if items.len() == 0 {
        Seq::empty()
    } else if items.len() == 1 {
        items[0]
    } else {
        listed(items.drop_last()) + ", "@ + items.last()
    }
}

/// What follows the count of failures.
pub const HEAD_FAILED: &'static str = " targets failed:\n";

/// The heading of the targets that are not installed.
pub const HEAD_MISSING: &'static str = "\nMissing targets (install with rustup):\n";

/// The heading of the targets that lack a linker.
pub const HEAD_UNLINKED: &'static str =
    "\nInstalled but failed to build (missing cross-compilation linker):\n";

/// What to do about a missing linker.
pub const TIP_UNLINKED: &'static str =
    "  Tip: install `cross` (uses Docker) or `cargo-zigbuild` (uses zig) for cross-compilation\n";

/// The heading of the pre-built artifacts that were not found.
pub const HEAD_EXPECTED: &'static str = "\nExpected pre-built artifacts in ";

/// The heading of the targets that succeeded.
pub const HEAD_SUCCEEDED: &'static str = "\nSucceeded: ";

/// The part of the report on targets that are not installed.
pub open spec fn missing_text(t: TriageView) -> Seq<char> {
    if t.sorted && t.missing.len() > 0 {
        HEAD_MISSING@ + bullets("  rustup target add "@, t.missing)
    } else {
        Seq::empty()
    }
}

/// The part of the report on targets that lack a linker.
pub open spec fn unlinked_text(t: TriageView) -> Seq<char> {
    if t.sorted && t.unlinked.len() > 0 {
        HEAD_UNLINKED@ + bullets("  - "@, t.unlinked) + TIP_UNLINKED@
    } else {
        Seq::empty()
    }
}

/// The part of the report on pre-built artifacts that were not found.
pub open spec fn expected_text(t: TriageView) -> Seq<char> {
    match t.pre_built_dir {
        Some(dir) => HEAD_EXPECTED@ + dir + ":\n"@ + bullets("  "@, t.expected),
        None => Seq::empty(),
    }
}

/// The head of the report: how many targets failed, and which.
pub open spec fn head_text(t: TriageView) -> Seq<char> {
    "\n"@ + decimal_text(t.failed.len()) + "/"@ + decimal_text(t.total) + HEAD_FAILED@ + bullets(
        "  - "@,
        t.failed,
    )
}

/// The end of the report: the targets that succeeded.
pub open spec fn tail_text(t: TriageView) -> Seq<char> {
    HEAD_SUCCEEDED@ + listed(t.succeeded) + "\n"@
}

/// The report: how many targets failed and which, what to do about them, and
/// which targets succeeded.
pub open spec fn triage_text(t: TriageView) -> Seq<char> {
    head_text(t) + missing_text(t) + unlinked_text(t) + expected_text(t) + tail_text(t)
}

fn digit_char(d: usize) -> (c: char)
    requires
        d < 10,
    ensures
        c == digit(d as nat),
{
    if d == 0 {
        '0'
    } else if d == 1 {
        '1'
    } else if d == 2 {
        '2'
    } else if d == 3 {
        '3'
    } else if d == 4 {
        '4'
    } else if d == 5 {
        '5'
    } else if d == 6 {
        '6'
    } else if d == 7 {
        '7'
    } else if d == 8 {
        '8'
    } else {
        '9'
    }
}

fn push_decimal(out: &mut String, n: usize)
    ensures
        final(out)@ == old(out)@ + decimal_text(n as nat),
    decreases n,
{
    if n >= 10 {
        push_decimal(out, n / 10);
    }
    out.push(digit_char(n % 10));
    assert(final(out)@ =~= old(out)@ + decimal_text(n as nat));
}

/// `n` in decimal notation.
pub fn decimal(n: usize) -> (r: String)
    ensures
        r@ == decimal_text(n as nat),
{
    let mut s = String::new();
    push_decimal(&mut s, n);
    assert(s@ =~= decimal_text(n as nat));
    s
}

fn push_bullets(out: &mut String, prefix: &str, items: &Vec<String>)
    ensures
        final(out)@ == old(out)@ + bullets(prefix@, views(items@)),
{
    let mut i: usize = 0;
    assert(views(items@).take(0) =~= Seq::<Seq<char>>::empty());
    while i < items.len()
        invariant
            i <= items.len(),
            out@ == old(out)@ + bullets(prefix@, views(items@).take(i as int)),
        decreases items.len() - i,
    {
        proof {
            let all = views(items@);
            assert(all.take(i + 1).drop_last() == all.take(i as int));
            assert(all.take(i + 1).last() == items@[i as int]@);
        }
        out.append(prefix);
        out.append(items[i].as_str());
        out.append("\n");
        assert(out@ =~= old(out)@ + bullets(prefix@, views(items@).take(i + 1)));
        i = i + 1;
    }
    assert(views(items@).take(items.len() as int) == views(items@));
}

fn push_listed(out: &mut String, items: &Vec<String>)
    ensures
        final(out)@ == old(out)@ + listed(views(items@)),
{
    let mut i: usize = 0;
    assert(views(items@).take(0) =~= Seq::<Seq<char>>::empty());
    while i < items.len()
        invariant
            i <= items.len(),
            out@ == old(out)@ + listed(views(items@).take(i as int)),
        decreases items.len() - i,
    {
        proof {
            let all = views(items@);
            assert(all.take(i + 1).drop_last() == all.take(i as int));
            assert(all.take(i + 1).last() == items@[i as int]@);
            assert(all.take(i + 1)[0] == all[0]);
        }
        if i > 0 {
            out.append(", ");
        }
        out.append(items[i].as_str());
        assert(out@ =~= old(out)@ + listed(views(items@).take(i + 1)));
        i = i + 1;
    }
    assert(views(items@).take(items.len() as int) == views(items@));
}

impl Triage {
    fn push_head(&self, out: &mut String)
        ensures
            final(out)@ == old(out)@ + head_text(self@),
    {
        out.append("\n");
        push_decimal(out, self.failed.len());
        out.append("/");
        push_decimal(out, self.total);
        out.append(HEAD_FAILED);
        push_bullets(out, "  - ", &self.failed);
        assert(out@ =~= old(out)@ + head_text(self@));
    }

    fn push_missing(&self, out: &mut String)
        ensures
            final(out)@ == old(out)@ + missing_text(self@),
    {
        if self.sorted && self.missing.len() > 0 {
            out.append(HEAD_MISSING);
            push_bullets(out, "  rustup target add ", &self.missing);
        }
        assert(out@ =~= old(out)@ + missing_text(self@));
    }

    fn push_unlinked(&self, out: &mut String)
        ensures
            final(out)@ == old(out)@ + unlinked_text(self@),
    {
        if self.sorted && self.unlinked.len() > 0 {
            out.append(HEAD_UNLINKED);
            push_bullets(out, "  - ", &self.unlinked);
            out.append(TIP_UNLINKED);
        }
        assert(out@ =~= old(out)@ + unlinked_text(self@));
    }

    fn push_expected(&self, out: &mut String)
        ensures
            final(out)@ == old(out)@ + expected_text(self@),
    {
        match &self.pre_built_dir {
            Some(dir) => {
                out.append(HEAD_EXPECTED);
                out.append(dir.as_str());
                out.append(":\n");
                push_bullets(out, "  ", &self.expected);
            },
            None => {},
        }
        assert(out@ =~= old(out)@ + expected_text(self@));
    }

    fn push_tail(&self, out: &mut String)
        ensures
            final(out)@ == old(out)@ + tail_text(self@),
    {
        out.append(HEAD_SUCCEEDED);
        push_listed(out, &self.succeeded);
        out.append("\n");
        assert(out@ =~= old(out)@ + tail_text(self@));
    }

    /// The report as text.
    pub fn render(&self) -> (r: String)
        ensures
            r@ == triage_text(self@),
    {
        let mut s = String::new();
        self.push_head(&mut s);
        self.push_missing(&mut s);
        self.push_unlinked(&mut s);
        self.push_expected(&mut s);
        self.push_tail(&mut s);
        assert(s@ =~= triage_text(self@));
        s
    }
}

/// Sorts the failures of a pipeline. `sorted` says whether the targets that
/// failed are to be told apart by what the toolchain has installed.
pub fn triage(
    total: usize,
    failed: Vec<String>,
    succeeded: Vec<String>,
    sorted: bool,
    installed: &TargetSet,
    pre_built_dir: Option<String>,
    expected: Vec<String>,
) -> (r: Triage)
    ensures
        r@ == report_of(
            total as nat,
            views(failed@),
            views(succeeded@),
            sorted,
            installed@,
            opt_view(pre_built_dir),
            views(expected@),
        ),
{
    let mut missing: Vec<String> = Vec::new();
    let mut unlinked: Vec<String> = Vec::new();
    if sorted {
        let mut i: usize = 0;
        assert(views(failed@).take(0) =~= Seq::<Seq<char>>::empty());
        assert(views(missing@) =~= Seq::<Seq<char>>::empty());
        assert(views(unlinked@) =~= Seq::<Seq<char>>::empty());
        while i < failed.len()
            invariant
                i <= failed.len(),
                views(missing@) == keep(views(failed@).take(i as int), installed@, false),
                views(unlinked@) == keep(views(failed@).take(i as int), installed@, true),
            decreases failed.len() - i,
        {
            proof {
                let all = views(failed@);
                assert(all.take(i + 1).drop_last() == all.take(i as int));
                assert(all.take(i + 1).last() == failed@[i as int]@);
            }
            let ghost missing_before = views(missing@);
            let ghost unlinked_before = views(unlinked@);
            let name = failed[i].clone();
            if installed.contains(failed[i].as_str()) {
                unlinked.push(name);
                assert(views(unlinked@) =~= unlinked_before.push(failed@[i as int]@));
            } else {
                missing.push(name);
                assert(views(missing@) =~= missing_before.push(failed@[i as int]@));
            }
            i = i + 1;
        }
        assert(views(failed@).take(failed.len() as int) == views(failed@));
    } else {
        assert(views(missing@) =~= Seq::<Seq<char>>::empty());
        assert(views(unlinked@) =~= Seq::<Seq<char>>::empty());
    }
    Triage { total, failed, succeeded, sorted, missing, unlinked, pre_built_dir, expected }
}

/// Sorting is a partition: each failed target is either missing or lacks a
/// linker, never both, and it is missing exactly when it is not installed.
pub proof fn lemma_sorting_partitions(items: Seq<Seq<char>>, installed: Set<Seq<char>>)
    ensures
        keep(items, installed, true).len() + keep(items, installed, false).len() == items.len(),
        forall|x: Seq<char>|
            keep(items, installed, true).contains(x) <==> items.contains(x) && installed.contains(
                x,
            ),
        forall|x: Seq<char>|
            keep(items, installed, false).contains(x) <==> items.contains(x)
                && !installed.contains(x),
    decreases items.len(),
{
    if items.len() > 0 {
        let init = items.drop_last();
        let last = items.last();
        lemma_sorting_partitions(init, installed);
        lemma_kept(items, installed, true);
        lemma_kept(items, installed, false);
    }
}

proof fn lemma_kept(items: Seq<Seq<char>>, installed: Set<Seq<char>>, inside: bool)
    requires
        items.len() > 0,
        forall|x: Seq<char>|
            #![trigger keep(items.drop_last(), installed, inside).contains(x)]
            #![trigger items.drop_last().contains(x)]
            keep(items.drop_last(), installed, inside).contains(x) <==> items.drop_last().contains(
                x,
            ) && installed.contains(x) == inside,
    ensures
        forall|x: Seq<char>|
            keep(items, installed, inside).contains(x) <==> items.contains(x) && installed.contains(
                x,
            ) == inside,
{
    let init = items.drop_last();
    let last = items.last();
    let before = keep(init, installed, inside);
    let all = keep(items, installed, inside);
    assert forall|x: Seq<char>| all.contains(x) <==> items.contains(x) && installed.contains(x)
        == inside by {
        if all.contains(x) {
            let j = choose|j: int| 0 <= j < all.len() && all[j] == x;
            if j < before.len() {
                assert(before[j] == x);
                assert(before.contains(x));
                let k = choose|k: int| 0 <= k < init.len() && init[k] == x;
                assert(items[k] == x);
            } else {
                assert(items[items.len() - 1] == x);
            }
        }
        if items.contains(x) && installed.contains(x) == inside {
            let k = choose|k: int| 0 <= k < items.len() && items[k] == x;
            if k < init.len() {
                assert(init[k] == x);
                assert(init.contains(x));
                let j = choose|j: int| 0 <= j < before.len() && before[j] == x;
                assert(all[j] == x);
            } else {
                assert(all[before.len() as int] == x);
            }
        }
    }
}

} // verus!
