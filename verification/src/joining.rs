//! What holds of a joined text: where the parts and the separators stand in
//! it, and how many separators there are.

use vstd::prelude::*;
use crate::text::{join, occurs_at};

verus! {

/// The place right behind part `i` in the join of `parts`: the length of the
/// join of the parts up to and with part `i`.
pub open spec fn joint(parts: Seq<Seq<char>>, sep: Seq<char>, i: int) -> int {
    join(parts.take(i + 1), sep).len() as int
}

/// The places in the join of `parts` at which a separator was put: right
/// behind every part but the last.
pub open spec fn separator_places(parts: Seq<Seq<char>>, sep: Seq<char>) -> Set<int> {
    places_before(parts, sep, parts.len() - 1)
}

/// The places right behind the parts before part `m`.
pub open spec fn places_before(parts: Seq<Seq<char>>, sep: Seq<char>, m: int) -> Set<int> {
    Set::new(|p: int| exists|i: int| 0 <= i < m && p == joint(parts, sep, i))
}

/// All places at which `needle` stands in `hay`.
pub open spec fn occurrences(hay: Seq<char>, needle: Seq<char>) -> Set<int> {
    Set::new(|p: int| occurs_at(hay, needle, p))
}

/// Joining one part more puts the separator and that part behind the join
/// of the parts before it.
pub proof fn lemma_join_step(parts: Seq<Seq<char>>, sep: Seq<char>, m: int)
    requires
        1 <= m < parts.len(),
    ensures
        join(parts.take(m + 1), sep) == join(parts.take(m), sep) + sep + parts[m],
        joint(parts, sep, m) == joint(parts, sep, m - 1) + sep.len() + parts[m].len(),
{
    let t = parts.take(m + 1);
    assert(t.drop_last() =~= parts.take(m));
    assert(t.last() == parts[m]);
    assert(parts.take(m - 1 + 1) =~= parts.take(m));
}

/// The join of the first `m` parts is the beginning of the join of all.
pub proof fn lemma_join_begins_with_shorter_join(parts: Seq<Seq<char>>, sep: Seq<char>, m: int)
    requires
        1 <= m <= parts.len(),
    ensures
        join(parts.take(m), sep).is_prefix_of(join(parts, sep)),
    decreases parts.len() - m,
{
    if m == parts.len() {
        assert(parts.take(m) =~= parts);
    } else {
        lemma_join_step(parts, sep, m);
        lemma_join_begins_with_shorter_join(parts, sep, m + 1);
        let shorter = join(parts.take(m), sep);
        let longer = join(parts.take(m + 1), sep);
        let all = join(parts, sep);
        assert(shorter =~= longer.subrange(0, shorter.len() as int));
        assert(shorter =~= all.subrange(0, shorter.len() as int));
    }
}

/// Every part stands in the join, ending at its joint; the parts stand in
/// their order, each behind the one before it with one separator between
/// them; and the join ends with the last part.
pub proof fn lemma_join_keeps_parts_in_order(parts: Seq<Seq<char>>, sep: Seq<char>, i: int)
    requires
        0 <= i < parts.len(),
    ensures
        occurs_at(join(parts, sep), parts[i], joint(parts, sep, i) - parts[i].len()),
        i == 0 ==> joint(parts, sep, i) == parts[0].len(),
        i + 1 < parts.len() ==> occurs_at(join(parts, sep), sep, joint(parts, sep, i)),
        i + 1 < parts.len() ==> joint(parts, sep, i + 1) == joint(parts, sep, i) + sep.len()
            + parts[i + 1].len(),
        i + 1 == parts.len() ==> joint(parts, sep, i) == join(parts, sep).len(),
{
    let all = join(parts, sep);
    let upto = join(parts.take(i + 1), sep);
    let end = joint(parts, sep, i);
    lemma_join_begins_with_shorter_join(parts, sep, i + 1);
    if i == 0 {
        assert(parts.take(1).len() == 1);
        assert(parts.take(1)[0] == parts[0]);
        assert(upto == parts[0]);
    } else {
        lemma_join_step(parts, sep, i);
    }
    assert(upto.subrange(end - parts[i].len(), end) =~= parts[i]);
    assert(all.subrange(end - parts[i].len(), end) =~= parts[i]);
    if i + 1 < parts.len() {
        lemma_join_step(parts, sep, i + 1);
        lemma_join_begins_with_shorter_join(parts, sep, i + 2);
        let next = join(parts.take(i + 2), sep);
        assert(next.subrange(end, end + sep.len()) =~= sep);
        assert(all.subrange(end, end + sep.len()) =~= sep);
    } else {
        assert(parts.take(i + 1) =~= parts);
    }
}

/// With a separator that is not empty, a later part's joint lies behind an
/// earlier one's.
pub proof fn lemma_joints_ascend(parts: Seq<Seq<char>>, sep: Seq<char>, i: int, j: int)
    requires
        0 <= i < j < parts.len(),
        sep.len() > 0,
    ensures
        joint(parts, sep, i) < joint(parts, sep, j),
    decreases j - i,
{
    lemma_join_step(parts, sep, j);
    if i < j - 1 {
        lemma_joints_ascend(parts, sep, i, j - 1);
    }
}

/// There are as many places behind the parts before part `m` as there are
/// such parts.
pub proof fn lemma_places_before(parts: Seq<Seq<char>>, sep: Seq<char>, m: int)
    requires
        0 <= m < parts.len(),
        sep.len() > 0,
    ensures
        places_before(parts, sep, m).finite(),
        places_before(parts, sep, m).len() == m,
    decreases m,
{
    if m == 0 {
        assert(places_before(parts, sep, 0) =~= Set::<int>::empty());
    } else {
        lemma_places_before(parts, sep, m - 1);
        let fewer = places_before(parts, sep, m - 1);
        let added = joint(parts, sep, m - 1);
        assert(!fewer.contains(added)) by {
            if fewer.contains(added) {
                let i = choose|i: int| 0 <= i < m - 1 && added == joint(parts, sep, i);
                lemma_joints_ascend(parts, sep, i, m - 1);
            }
        }
        assert(places_before(parts, sep, m) =~= fewer.insert(added));
    }
}

/// The join of `k` parts, `k` at least 1, holds `k - 1` separators that the
/// joining put there, each between two neighbours.
pub proof fn lemma_join_puts_one_separator_less_than_parts(parts: Seq<Seq<char>>, sep: Seq<char>)
    requires
        parts.len() >= 1,
        sep.len() > 0,
    ensures
        separator_places(parts, sep).finite(),
        separator_places(parts, sep).len() == parts.len() - 1,
        separator_places(parts, sep).subset_of(occurrences(join(parts, sep), sep)),
{
    lemma_places_before(parts, sep, parts.len() - 1);
    assert forall|p: int| separator_places(parts, sep).contains(p) implies occurrences(
        join(parts, sep),
        sep,
    ).contains(p) by {
        let i = choose|i: int| 0 <= i < parts.len() - 1 && p == joint(parts, sep, i);
        lemma_join_keeps_parts_in_order(parts, sep, i);
    }
}

/// Where the separator stands nowhere in the join but between neighbours,
/// the join of `k` parts, `k` at least 1, holds it exactly `k - 1` times. (A
/// part that holds the separator, or forms it together with the separator
/// beside it, adds occurrences; the join of no parts holds none.)
pub proof fn lemma_join_holds_one_separator_less_than_parts(parts: Seq<Seq<char>>, sep: Seq<char>)
    requires
        parts.len() >= 1,
        sep.len() > 0,
        occurrences(join(parts, sep), sep).subset_of(separator_places(parts, sep)),
    ensures
        occurrences(join(parts, sep), sep).finite(),
        occurrences(join(parts, sep), sep).len() == parts.len() - 1,
{
    lemma_join_puts_one_separator_less_than_parts(parts, sep);
    assert(occurrences(join(parts, sep), sep) =~= separator_places(parts, sep));
}

/// The authors of a record are joined by ` and `: `k` authors, `k` at least
/// 1, with `k - 1` separators between them, in the order of the list, each
/// author 5 places behind the end of the one before. Where ` and ` stands
/// nowhere else in the join, it stands there exactly `k - 1` times.
pub proof fn lemma_author_join(authors: Seq<Seq<char>>)
    requires
        authors.len() >= 1,
    ensures
        separator_places(authors, " and "@).finite(),
        separator_places(authors, " and "@).len() == authors.len() - 1,
        separator_places(authors, " and "@).subset_of(
            occurrences(join(authors, " and "@), " and "@),
        ),
        occurrences(join(authors, " and "@), " and "@).subset_of(
            separator_places(authors, " and "@),
        ) ==> occurrences(join(authors, " and "@), " and "@).len() == authors.len() - 1,
        forall|i: int|
            0 <= i < authors.len() ==> occurs_at(
                join(authors, " and "@),
                #[trigger] authors[i],
                joint(authors, " and "@, i) - authors[i].len(),
            ),
        forall|i: int|
            0 <= i < authors.len() - 1 ==> #[trigger] joint(authors, " and "@, i) + 5 == joint(
                authors,
                " and "@,
                i + 1,
            ) - authors[i + 1].len(),
{
    reveal_strlit(" and ");
    let sep = " and "@;
    lemma_join_puts_one_separator_less_than_parts(authors, sep);
    if occurrences(join(authors, sep), sep).subset_of(separator_places(authors, sep)) {
        lemma_join_holds_one_separator_less_than_parts(authors, sep);
    }
    assert forall|i: int| 0 <= i < authors.len() implies occurs_at(
        join(authors, sep),
        #[trigger] authors[i],
        joint(authors, sep, i) - authors[i].len(),
    ) by {
        lemma_join_keeps_parts_in_order(authors, sep, i);
    }
    assert forall|i: int| 0 <= i < authors.len() - 1 implies #[trigger] joint(authors, sep, i)
        + 5 == joint(authors, sep, i + 1) - authors[i + 1].len() by {
        lemma_join_step(authors, sep, i + 1);
    }
}

} // verus!
