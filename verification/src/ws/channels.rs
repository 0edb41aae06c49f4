//! Lists of channels.

use super::model::{Channel, ChannelView};
use super::session::{first_inactive, first_private, merged, removed};
use vstd::prelude::*;

verus! {

/// The views of a list of channels, in its order.
pub open spec fn channel_views(channels: Seq<Channel>) -> Seq<ChannelView> {
    channels.map_values(|channel: Channel| channel@)
}

/// Adding one more channel to a merge adds it unless it is there already.
pub(crate) proof fn lemma_merged_next(active: Seq<ChannelView>, channels: Seq<ChannelView>, i: int)
    requires
        0 <= i < channels.len(),
    ensures
        merged(active, channels.take(i + 1)) == if merged(active, channels.take(i)).contains(
            channels[i],
        ) {
            merged(active, channels.take(i))
        } else {
            merged(active, channels.take(i)).push(channels[i])
        },
{
    assert(channels.take(i + 1).drop_last() =~= channels.take(i));
}

/// A merge holds what was active and what was added, and nothing else.
pub proof fn lemma_merged_contains(active: Seq<ChannelView>, channels: Seq<ChannelView>)
    ensures
        forall|c: ChannelView| #[trigger]
            merged(active, channels).contains(c) <==> active.contains(c) || channels.contains(c),
    decreases channels.len(),
{
    if channels.len() > 0 {
        let before = merged(active, channels.drop_last());
        lemma_merged_contains(active, channels.drop_last());
        assert forall|c: ChannelView| #[trigger]
            merged(active, channels).contains(c) <==> active.contains(c) || channels.contains(
                c,
            ) by {
            if channels.contains(c) {
                let j = choose|j: int| 0 <= j < channels.len() && channels[j] == c;
                if j < channels.len() - 1 {
                    assert(channels.drop_last()[j] == c);
                }
            }
            if channels.drop_last().contains(c) {
                let j = choose|j: int|
                    0 <= j < channels.drop_last().len() && channels.drop_last()[j] == c;
                assert(channels[j] == c);
            }
            if !before.contains(channels.last()) {
                let after = before.push(channels.last());
                assert(after[after.len() - 1] == channels.last());
                if before.contains(c) {
                    let j = choose|j: int| 0 <= j < before.len() && before[j] == c;
                    assert(after[j] == c);
                }
            }
            assert(channels[channels.len() - 1] == channels.last());
        }
    }
}

/// A merge into a list without duplicates is without duplicates.
pub proof fn lemma_merged_no_duplicates(active: Seq<ChannelView>, channels: Seq<ChannelView>)
    requires
        active.no_duplicates(),
    ensures
        merged(active, channels).no_duplicates(),
    decreases channels.len(),
{
    if channels.len() > 0 {
        lemma_merged_no_duplicates(active, channels.drop_last());
    }
}

/// Taking one more active channel into account keeps it unless it is named.
pub(crate) proof fn lemma_removed_next(active: Seq<ChannelView>, channels: Seq<ChannelView>, i: int)
    requires
        0 <= i < active.len(),
    ensures
        removed(active.take(i + 1), channels) == if channels.contains(active[i]) {
            removed(active.take(i), channels)
        } else {
            removed(active.take(i), channels).push(active[i])
        },
{
    assert(active.take(i + 1).drop_last() =~= active.take(i));
}

/// What is left after a removal is what was active and is not named.
pub proof fn lemma_removed_contains(active: Seq<ChannelView>, channels: Seq<ChannelView>)
    ensures
        forall|c: ChannelView| #[trigger]
            removed(active, channels).contains(c) <==> active.contains(c) && !channels.contains(c),
    decreases active.len(),
{
    if active.len() > 0 {
        let before = removed(active.drop_last(), channels);
        lemma_removed_contains(active.drop_last(), channels);
        assert forall|c: ChannelView| #[trigger]
            removed(active, channels).contains(c) <==> active.contains(c) && !channels.contains(
                c,
            ) by {
            if active.contains(c) {
                let j = choose|j: int| 0 <= j < active.len() && active[j] == c;
                if j < active.len() - 1 {
                    assert(active.drop_last()[j] == c);
                }
            }
            if active.drop_last().contains(c) {
                let j = choose|j: int|
                    0 <= j < active.drop_last().len() && active.drop_last()[j] == c;
                assert(active[j] == c);
            }
            if !channels.contains(active.last()) {
                let after = before.push(active.last());
                assert(after[after.len() - 1] == active.last());
                if before.contains(c) {
                    let j = choose|j: int| 0 <= j < before.len() && before[j] == c;
                    assert(after[j] == c);
                }
            }
            assert(active[active.len() - 1] == active.last());
        }
    }
}

/// What is left of a list without duplicates is without duplicates.
pub proof fn lemma_removed_no_duplicates(active: Seq<ChannelView>, channels: Seq<ChannelView>)
    requires
        active.no_duplicates(),
    ensures
        removed(active, channels).no_duplicates(),
    decreases active.len(),
{
    if active.len() > 0 {
        lemma_removed_no_duplicates(active.drop_last(), channels);
        lemma_removed_contains(active.drop_last(), channels);
        let before = removed(active.drop_last(), channels);
        if before.contains(active.last()) {
            let j = choose|j: int|
                0 <= j < active.drop_last().len() && active.drop_last()[j] == active.last();
            assert(active[j] == active[active.len() - 1]);
        }
    }
}

/// The first account channel stands where `first_private` says: none stands
/// before it.
pub proof fn lemma_first_private(channels: Seq<ChannelView>)
    ensures
        0 <= first_private(channels) <= channels.len(),
        forall|j: int| 0 <= j < first_private(channels) ==> !(#[trigger] channels[j]).is_private(),
        first_private(channels) < channels.len() ==> channels[first_private(
            channels,
        )].is_private(),
    decreases channels.len(),
{
    if channels.len() > 0 && !channels.first().is_private() {
        let rest = channels.drop_first();
        lemma_first_private(rest);
        assert forall|j: int| 0 <= j < first_private(channels) implies !(
        #[trigger] channels[j]).is_private() by {
            if j > 0 {
                assert(channels[j] == rest[j - 1]);
            }
        }
    }
}

/// The first channel that is not active stands where `first_inactive` says:
/// all before it are active.
pub proof fn lemma_first_inactive(active: Seq<ChannelView>, channels: Seq<ChannelView>)
    ensures
        0 <= first_inactive(active, channels) <= channels.len(),
        forall|j: int|
            0 <= j < first_inactive(active, channels) ==> active.contains(#[trigger] channels[j]),
        first_inactive(active, channels) < channels.len() ==> !active.contains(
            channels[first_inactive(active, channels)],
        ),
    decreases channels.len(),
{
    if channels.len() > 0 && active.contains(channels.first()) {
        let rest = channels.drop_first();
        lemma_first_inactive(active, rest);
        assert forall|j: int| 0 <= j < first_inactive(active, channels) implies active.contains(
            #[trigger] channels[j],
        ) by {
            if j > 0 {
                assert(channels[j] == rest[j - 1]);
            }
        }
    }
}

/// Whether `channel` is among `channels`.
pub fn contains(channels: &Vec<Channel>, channel: &Channel) -> (found: bool)
    ensures
        found == channel_views(channels@).contains(channel@),
{
    let mut i: usize = 0;
    while i < channels.len()
        invariant
            0 <= i <= channels.len(),
            forall|j: int| 0 <= j < i ==> channel_views(channels@)[j] != channel@,
        decreases channels.len() - i,
    {
        if channels[i] == *channel {
            assert(channel_views(channels@)[i as int] == channel@);
            return true;
        }
        i += 1;
    }
    false
}

/// A copy of a list of channels.
pub fn clone_channels(channels: &Vec<Channel>) -> (copy: Vec<Channel>)
    ensures
        channel_views(copy@) == channel_views(channels@),
{
    let mut copy: Vec<Channel> = Vec::new();
    let mut i: usize = 0;
    while i < channels.len()
        invariant
            0 <= i <= channels.len(),
            channel_views(copy@) == channel_views(channels@).take(i as int),
        decreases channels.len() - i,
    {
        let ghost before = channel_views(copy@);
        copy.push(channels[i].clone());
        assert(channel_views(copy@) =~= before.push(channel_views(channels@)[i as int]));
        assert(channel_views(channels@).take(i + 1) =~= before.push(
            channel_views(channels@)[i as int],
        ));
        i += 1;
    }
    assert(channel_views(channels@).take(channels@.len() as int) =~= channel_views(channels@));
    copy
}

/// The active channels that `channels` does not name, in their order.
pub fn without(active: &Vec<Channel>, channels: &Vec<Channel>) -> (kept: Vec<Channel>)
    ensures
        channel_views(kept@) == removed(channel_views(active@), channel_views(channels@)),
{
    let mut kept: Vec<Channel> = Vec::new();
    let mut i: usize = 0;
    while i < active.len()
        invariant
            0 <= i <= active.len(),
            channel_views(kept@) == removed(
                channel_views(active@).take(i as int),
                channel_views(channels@),
            ),
        decreases active.len() - i,
    {
        proof {
            lemma_removed_next(channel_views(active@), channel_views(channels@), i as int);
        }
        if !contains(channels, &active[i]) {
            let ghost before = channel_views(kept@);
            kept.push(active[i].clone());
            assert(channel_views(kept@) =~= before.push(channel_views(active@)[i as int]));
        }
        i += 1;
    }
    assert(channel_views(active@).take(active@.len() as int) =~= channel_views(active@));
    kept
}

} // verus!
