//! Cutting a text at its colons.

use vstd::prelude::*;

verus! {

/// The groups that `text` falls into when it is cut at every colon. There is
/// always at least one group, and a group may be empty: the empty text is one
/// empty group, and `"a:"` is `"a"` followed by an empty group.
pub open spec fn colon_groups(text: Seq<char>) -> Seq<Seq<char>>
    decreases text.len(),
{
    if text.len() == 0 {
        seq![Seq::<char>::empty()]
    } else {
        let before = colon_groups(text.drop_last());
        if text.last() == ':' {
            before.push(Seq::<char>::empty())
        } else {
            before.update(before.len() - 1, before.last().push(text.last()))
        }
    }
}

/// The groups written one after another with a colon between neighbours.
pub open spec fn joined(groups: Seq<Seq<char>>) -> Seq<char>
    decreases groups.len(),
{
    if groups.len() == 0 {
        Seq::<char>::empty()
    } else if groups.len() == 1 {
        groups[0]
    } else {
        joined(groups.drop_last()) + seq![':'] + groups.last()
    }
}

/// Cutting a beginning of `text` gives the groups of `text` itself, up to the
/// last of them, which is a beginning of the group that stands in its place.
pub proof fn lemma_groups_of_prefix(text: Seq<char>, n: int)
    requires
        0 <= n <= text.len(),
    ensures
        1 <= colon_groups(text.take(n)).len() <= colon_groups(text).len(),
        forall|k: int|
            0 <= k < colon_groups(text.take(n)).len() - 1 ==> #[trigger] colon_groups(
                text.take(n),
            )[k] == colon_groups(text)[k],
        colon_groups(text.take(n)).last().is_prefix_of(
            colon_groups(text)[colon_groups(text.take(n)).len() - 1],
        ),
    decreases text.len(),
{
    if n == text.len() {
        assert(text.take(n) =~= text);
        lemma_groups_nonempty(text);
    } else {
        let shorter = text.drop_last();
        assert(shorter.take(n) =~= text.take(n));
        lemma_groups_of_prefix(shorter, n);
    }
}

/// Cutting a text always gives at least one group.
pub proof fn lemma_groups_nonempty(text: Seq<char>)
    ensures
        colon_groups(text).len() >= 1,
    decreases text.len(),
{
    if text.len() > 0 {
        lemma_groups_nonempty(text.drop_last());
    }
}

/// Cutting at the colons loses nothing: the groups, joined with colons, are
/// the text again.
pub proof fn lemma_joined_groups(text: Seq<char>)
    ensures
        joined(colon_groups(text)) == text,
    decreases text.len(),
{
    if text.len() == 0 {
        assert(joined(colon_groups(text)) =~= text);
    } else {
        let before = colon_groups(text.drop_last());
        let groups = colon_groups(text);
        lemma_joined_groups(text.drop_last());
        lemma_groups_nonempty(text.drop_last());
        if text.last() == ':' {
            assert(groups.drop_last() =~= before);
            assert(joined(groups) =~= text);
        } else if before.len() == 1 {
            assert(joined(groups) =~= text);
        } else {
            assert(groups.drop_last() =~= before.drop_last());
            assert(groups.last() == before.last().push(text.last()));
            assert(joined(before) == joined(before.drop_last()) + seq![':'] + before.last());
            assert(joined(groups) == joined(groups.drop_last()) + seq![':'] + groups.last());
            assert(joined(groups) =~= joined(before).push(text.last()));
            assert(joined(groups) =~= text);
        }
    }
}

/// No group holds a colon.
pub proof fn lemma_groups_hold_no_colon(text: Seq<char>)
    ensures
        forall|k: int, i: int|
            0 <= k < colon_groups(text).len() && 0 <= i < colon_groups(text)[k].len()
                ==> #[trigger] colon_groups(text)[k][i] != ':',
    decreases text.len(),
{
    if text.len() > 0 {
        lemma_groups_hold_no_colon(text.drop_last());
        lemma_groups_nonempty(text.drop_last());
    }
}

/// Joining loses nothing either: groups that hold no colon, joined with
/// colons and cut again, are the same groups.
pub proof fn lemma_groups_of_joined(groups: Seq<Seq<char>>)
    requires
        groups.len() >= 1,
        forall|k: int, i: int|
            0 <= k < groups.len() && 0 <= i < groups[k].len() ==> #[trigger] groups[k][i] != ':',
    ensures
        colon_groups(joined(groups)) == groups,
    decreases groups.len(), groups.last().len(),
{
    let last = groups.last();
    let text = joined(groups);
    if last.len() > 0 {
        let shorter = groups.update(groups.len() - 1, last.drop_last());
        assert forall|k: int, i: int| 0 <= k < shorter.len() && 0 <= i < shorter[k].len() implies
            #[trigger] shorter[k][i] != ':' by {
            assert(groups[k][i] != ':');
        }
        lemma_groups_of_joined(shorter);
        assert(last[last.len() - 1] != ':');
        if groups.len() > 1 {
            assert(shorter.drop_last() =~= groups.drop_last());
        }
        assert(text.drop_last() =~= joined(shorter));
        assert(text.last() == last.last());
        assert(last.drop_last().push(last.last()) =~= last);
        assert(colon_groups(text) =~= groups);
    } else if groups.len() > 1 {
        let fewer = groups.drop_last();
        assert forall|k: int, i: int| 0 <= k < fewer.len() && 0 <= i < fewer[k].len() implies
            #[trigger] fewer[k][i] != ':' by {
            assert(groups[k][i] != ':');
        }
        lemma_groups_of_joined(fewer);
        assert(text.drop_last() =~= joined(fewer));
        assert(text.last() == ':');
        assert(last =~= Seq::<char>::empty());
        assert(colon_groups(text) =~= groups);
    } else {
        assert(last =~= Seq::<char>::empty());
        assert(colon_groups(text) =~= groups);
    }
}

} // verus!
