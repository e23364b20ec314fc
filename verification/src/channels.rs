//! Which channels a release goes to, and in which order.

use crate::config::{ChannelName, Config};
use crate::error::{ReleaseError, ReleaseErrorView};
use crate::text::{same_chars, to_chars, views};
use vstd::prelude::*;

verus! {

/// The channel with the given name, if there is one.
pub open spec fn channel_of(name: Seq<char>) -> Option<ChannelName> {
    if name == "github"@ {
        Some(ChannelName::GitHub)
    } else if name == "homebrew"@ {
        Some(ChannelName::Homebrew)
    } else if name == "cargo"@ {
        Some(ChannelName::Cargo)
    } else if name == "curl"@ {
        Some(ChannelName::Curl)
    } else if name == "nix"@ {
        Some(ChannelName::Nix)
    } else {
        None
    }
}

/// Reads a channel's name.
pub fn parse_channel(name: &str) -> (r: Option<ChannelName>)
    ensures
        r == channel_of(name@),
{
    let n = to_chars(name);
    if same_chars(&n, &to_chars("github")) {
        Some(ChannelName::GitHub)
    } else if same_chars(&n, &to_chars("homebrew")) {
        Some(ChannelName::Homebrew)
    } else if same_chars(&n, &to_chars("cargo")) {
        Some(ChannelName::Cargo)
    } else if same_chars(&n, &to_chars("curl")) {
        Some(ChannelName::Curl)
    } else if same_chars(&n, &to_chars("nix")) {
        Some(ChannelName::Nix)
    } else {
        None
    }
}

/// Every channel is the channel with its own name.
pub proof fn lemma_channel_of_text(c: ChannelName)
    ensures
        channel_of(c.text()) == Some(c),
{
    reveal_strlit("github");
    reveal_strlit("homebrew");
    reveal_strlit("cargo");
    reveal_strlit("curl");
    reveal_strlit("nix");
    assert("github"@.len() == 6);
    assert("homebrew"@.len() == 8);
    assert("cargo"@.len() == 5);
    assert("curl"@.len() == 4);
    assert("nix"@.len() == 3);
    assert("cargo"@[1] == 'a' && "nix"@[1] == 'i' && "curl"@[1] == 'u');
}

/// Why a requested name is refused, if it is: it names no channel, or it
/// names one that the configuration does not enable.
pub open spec fn refusal(config: Config, name: Seq<char>) -> Option<ReleaseErrorView> {
    match channel_of(name) {
        None => Some(ReleaseErrorView::UnknownChannel { name }),
        Some(c) => if config.channels.has(c) {
            None
        } else {
            Some(ReleaseErrorView::ChannelNotEnabled { name })
        },
    }
}

/// The refusal of the first requested name that is refused.
pub open spec fn first_refusal(config: Config, requested: Seq<Seq<char>>) -> Option<
    ReleaseErrorView,
>
    decreases requested.len(),
{
    if requested.len() == 0 {
        None
    } else {
        match refusal(config, requested[0]) {
            Some(e) => Some(e),
            None => first_refusal(config, requested.skip(1)),
        }
    }
}

/// The channels that the names stand for.
pub open spec fn channels_of(names: Seq<Seq<char>>) -> Seq<ChannelName> {
    Seq::new(names.len(), |i: int| channel_of(names[i])->0)
}

/// The channels a release goes to: every enabled channel where none is
/// requested; else the requested ones, provided each is known and enabled.
pub open spec fn selection(config: Config, requested: Option<Seq<Seq<char>>>) -> Result<
    Seq<ChannelName>,
    ReleaseErrorView,
> {
    match requested {
        Some(names) => if names.len() == 0 {
            Ok(config.enabled())
        } else {
            match first_refusal(config, names) {
                Some(e) => Err(e),
                None => Ok(channels_of(names)),
            }
        },
        None => Ok(config.enabled()),
    }
}

/// The view of an optional list of requested names.
pub open spec fn requested_view(requested: Option<&[String]>) -> Option<Seq<Seq<char>>> {
    match requested {
        Some(names) => Some(views(names@)),
        None => None,
    }
}

/// The view of a selection.
pub open spec fn selection_view(r: Result<Vec<ChannelName>, ReleaseError>) -> Result<
    Seq<ChannelName>,
    ReleaseErrorView,
> {
    match r {
        Ok(v) => Ok(v@),
        Err(e) => Err(e@),
    }
}

/// Settles which channels a release goes to. A request that cannot be met
/// is refused as a whole, before anything is done.
pub fn select_channels(config: &Config, requested: Option<&[String]>) -> (r: Result<
    Vec<ChannelName>,
    ReleaseError,
>)
    ensures
        selection_view(r) == selection(*config, requested_view(requested)),
{
    let names = match requested {
        Some(names) => names,
        None => {
            return Ok(config.enabled_set());
        },
    };
    assert(requested_view(requested) == Some(views(names@)));
    if names.len() == 0 {
        return Ok(config.enabled_set());
    }
    let mut out: Vec<ChannelName> = Vec::new();
    let mut i: usize = 0;
    assert(views(names@).skip(0) == views(names@));
    while i < names.len()
        invariant
            i <= names.len(),
            names@.len() > 0,
            requested_view(requested) == Some(views(names@)),
            out@.len() == i,
            first_refusal(*config, views(names@)) == first_refusal(
                *config,
                views(names@).skip(i as int),
            ),
            forall|j: int| 0 <= j < i ==> out@[j] == channels_of(views(names@))[j],
        decreases names.len() - i,
    {
        let ghost rest = views(names@).skip(i as int);
        assert(rest[0] == names@[i as int]@);
        assert(rest.skip(1) == views(names@).skip(i + 1));
        match parse_channel(names[i].as_str()) {
            None => {
                return Err(ReleaseError::UnknownChannel { name: names[i].clone() });
            },
            Some(c) => {
                if !config.channels.is_enabled(c) {
                    return Err(ReleaseError::ChannelNotEnabled { name: names[i].clone() });
                }
                out.push(c);
            },
        }
        i = i + 1;
    }
    assert(out@ =~= channels_of(views(names@)));
    Ok(out)
}

/// The selected channels other than the host channel, in their order.
pub open spec fn others(selected: Seq<ChannelName>) -> Seq<ChannelName>
    decreases selected.len(),
{
    if selected.len() == 0 {
        Seq::empty()
    } else if selected.last() == ChannelName::GitHub {
        others(selected.drop_last())
    } else {
        others(selected.drop_last()).push(selected.last())
    }
}

/// The order in which the selected channels run: the host channel first,
/// once, where it is selected; then the others in the order of the
/// selection. The other publishers may look up the release that the host
/// channel has just made.
pub open spec fn run_order(selected: Seq<ChannelName>) -> Seq<ChannelName> {
    if selected.contains(ChannelName::GitHub) {
        seq![ChannelName::GitHub] + others(selected)
    } else {
        others(selected)
    }
}

/// Puts the selected channels in the order in which they run.
pub fn order_channels(selected: &Vec<ChannelName>) -> (r: Vec<ChannelName>)
    ensures
        r@ == run_order(selected@),
{
    let mut has_host = false;
    let mut rest: Vec<ChannelName> = Vec::new();
    let mut i: usize = 0;
    assert(selected@.take(0) =~= Seq::<ChannelName>::empty());
    while i < selected.len()
        invariant
            i <= selected.len(),
            has_host == selected@.take(i as int).contains(ChannelName::GitHub),
            rest@ == others(selected@.take(i as int)),
        decreases selected.len() - i,
    {
        let ghost before = selected@.take(i as int);
        let ghost now = selected@.take(i + 1);
        proof {
            assert(now.drop_last() == before);
            assert(now.last() == selected@[i as int]);
            if before.contains(ChannelName::GitHub) {
                let j = choose|j: int| 0 <= j < before.len() && before[j] == ChannelName::GitHub;
                assert(now[j] == ChannelName::GitHub);
            }
            if now.contains(ChannelName::GitHub) && selected@[i as int] != ChannelName::GitHub {
                let j = choose|j: int| 0 <= j < now.len() && now[j] == ChannelName::GitHub;
                assert(before[j] == ChannelName::GitHub);
            }
        }
        if selected[i] == ChannelName::GitHub {
            has_host = true;
        } else {
            rest.push(selected[i]);
        }
        i = i + 1;
    }
    assert(selected@.take(selected.len() as int) == selected@);
    let mut out: Vec<ChannelName> = Vec::new();
    if has_host {
        out.push(ChannelName::GitHub);
    }
    let mut k: usize = 0;
    let ghost head = out@;
    while k < rest.len()
        invariant
            k <= rest.len(),
            out@ == head + rest@.take(k as int),
        decreases rest.len() - k,
    {
        out.push(rest[k]);
        assert(out@ =~= head + rest@.take(k + 1));
        k = k + 1;
    }
    assert(rest@.take(rest.len() as int) == rest@);
    assert(out@ =~= run_order(selected@));
    out
}

/// The others hold no host channel, and they hold every other channel of
/// the selection.
pub proof fn lemma_others(selected: Seq<ChannelName>)
    ensures
        !others(selected).contains(ChannelName::GitHub),
        forall|c: ChannelName|
            #![trigger others(selected).contains(c)]
            #![trigger selected.contains(c)]
            c != ChannelName::GitHub ==> (others(selected).contains(c) <==> selected.contains(c)),
        others(selected).len() <= selected.len(),
    decreases selected.len(),
{
    if selected.len() > 0 {
        let init = selected.drop_last();
        lemma_others(init);
        let o = others(selected);
        let oi = others(init);
        if o.contains(ChannelName::GitHub) {
            let j = choose|j: int| 0 <= j < o.len() && o[j] == ChannelName::GitHub;
            if j < oi.len() {
                assert(oi[j] == ChannelName::GitHub);
            }
        }
        assert forall|c: ChannelName| c != ChannelName::GitHub implies (o.contains(c)
            <==> selected.contains(c)) by {
            if o.contains(c) {
                let j = choose|j: int| 0 <= j < o.len() && o[j] == c;
                if j < oi.len() {
                    assert(oi[j] == c);
                    assert(oi.contains(c));
                    let k = choose|k: int| 0 <= k < init.len() && init[k] == c;
                    assert(selected[k] == c);
                } else {
                    assert(selected[selected.len() - 1] == c);
                }
            }
            if selected.contains(c) {
                let k = choose|k: int| 0 <= k < selected.len() && selected[k] == c;
                if k < init.len() {
                    assert(init[k] == c);
                    assert(init.contains(c));
                    let j = choose|j: int| 0 <= j < oi.len() && oi[j] == c;
                    assert(o[j] == c);
                } else {
                    assert(o[oi.len() as int] == c);
                }
            }
        }
    }
}

/// Where the host channel is selected it runs first and only once, wherever
/// it stands in the selection; every selected channel runs; and nothing
/// runs that was not selected.
pub proof fn lemma_host_runs_first(selected: Seq<ChannelName>)
    ensures
        selected.contains(ChannelName::GitHub) ==> run_order(selected).len() > 0 && run_order(
            selected,
        )[0] == ChannelName::GitHub,
        forall|k: int|
            1 <= k < run_order(selected).len() ==> #[trigger] run_order(selected)[k]
                != ChannelName::GitHub,
        forall|c: ChannelName| run_order(selected).contains(c) <==> selected.contains(c),
{
    lemma_others(selected);
    let o = others(selected);
    let r = run_order(selected);
    assert forall|k: int| 1 <= k < r.len() implies #[trigger] r[k] != ChannelName::GitHub by {
        if selected.contains(ChannelName::GitHub) {
            assert(r[k] == o[k - 1]);
            assert(o.contains(o[k - 1]));
        } else {
            assert(o.contains(o[k]));
        }
    }
    assert forall|c: ChannelName| r.contains(c) <==> selected.contains(c) by {
        if r.contains(c) {
            let j = choose|j: int| 0 <= j < r.len() && r[j] == c;
            if selected.contains(ChannelName::GitHub) {
                if j > 0 {
                    assert(o[j - 1] == c);
                    assert(o.contains(c));
                }
            } else {
                assert(o.contains(c));
            }
        }
        if selected.contains(c) {
            if c == ChannelName::GitHub {
                assert(r[0] == c);
            } else {
                assert(o.contains(c));
                let j = choose|j: int| 0 <= j < o.len() && o[j] == c;
                if selected.contains(ChannelName::GitHub) {
                    assert(r[j + 1] == c);
                } else {
                    assert(r[j] == c);
                }
            }
        }
    }
}

/// The channels other than the host channel run in the order in which they
/// were selected: taking the host channel out of the run order and out of
/// the selection leaves the same sequence.
pub proof fn lemma_others_keep_order(selected: Seq<ChannelName>)
    ensures
        others(run_order(selected)) == others(selected),
{
    lemma_others_of_others(selected);
    let o = others(selected);
    if selected.contains(ChannelName::GitHub) {
        lemma_others_skip_host(o);
    }
}

proof fn lemma_others_of_others(selected: Seq<ChannelName>)
    ensures
        others(others(selected)) == others(selected),
    decreases selected.len(),
{
    if selected.len() > 0 {
        lemma_others_of_others(selected.drop_last());
        if selected.last() != ChannelName::GitHub {
            let o = others(selected.drop_last()).push(selected.last());
            assert(o.drop_last() == others(selected.drop_last()));
        }
    }
}

proof fn lemma_others_skip_host(s: Seq<ChannelName>)
    ensures
        others(seq![ChannelName::GitHub] + s) == others(s),
    decreases s.len(),
{
    let t = seq![ChannelName::GitHub] + s;
    if s.len() == 0 {
        assert(t.drop_last() =~= Seq::<ChannelName>::empty());
        assert(others(t.drop_last()) =~= Seq::<ChannelName>::empty());
    } else {
        lemma_others_skip_host(s.drop_last());
        assert(t.drop_last() =~= seq![ChannelName::GitHub] + s.drop_last());
        assert(t.last() == s.last());
    }
}

/// A request that names a channel which the configuration does not enable
/// is refused as a whole. Where every name before it is known and enabled,
/// the refusal names that channel as not enabled.
pub proof fn lemma_not_enabled_is_refused(config: Config, requested: Seq<Seq<char>>, i: int)
    requires
        0 <= i < requested.len(),
        channel_of(requested[i]) matches Some(c) && !config.channels.has(c),
    ensures
        selection(config, Some(requested)) is Err,
        (forall|j: int| 0 <= j < i ==> refusal(config, #[trigger] requested[j]) is None)
            ==> selection(config, Some(requested)) == Err::<Seq<ChannelName>, ReleaseErrorView>(
            ReleaseErrorView::ChannelNotEnabled { name: requested[i] },
        ),
{
    lemma_first_refusal(config, requested, i);
}

proof fn lemma_first_refusal(config: Config, requested: Seq<Seq<char>>, i: int)
    requires
        0 <= i < requested.len(),
        refusal(config, requested[i]) is Some,
    ensures
        first_refusal(config, requested) is Some,
        (forall|j: int| 0 <= j < i ==> refusal(config, #[trigger] requested[j]) is None)
            ==> first_refusal(config, requested) == refusal(config, requested[i]),
    decreases requested.len(),
{
    if i > 0 {
        let rest = requested.skip(1);
        assert(rest[i - 1] == requested[i]);
        lemma_first_refusal(config, rest, i - 1);
        if forall|j: int| 0 <= j < i ==> refusal(config, #[trigger] requested[j]) is None {
            assert(refusal(config, requested[0]) is None);
            assert forall|j: int| 0 <= j < i - 1 implies refusal(
                config,
                #[trigger] rest[j],
            ) is None by {
                assert(rest[j] == requested[j + 1]);
            }
        }
    }
}

/// Where no requested name is refused, each names a channel that the
/// configuration enables.
pub proof fn lemma_no_refusal(config: Config, requested: Seq<Seq<char>>, i: int)
    requires
        first_refusal(config, requested) is None,
        0 <= i < requested.len(),
    ensures
        channel_of(requested[i]) matches Some(c) && config.channels.has(c),
    decreases requested.len(),
{
    if i > 0 {
        assert(requested.skip(1)[i - 1] == requested[i]);
        lemma_no_refusal(config, requested.skip(1), i - 1);
    }
}

} // verus!
