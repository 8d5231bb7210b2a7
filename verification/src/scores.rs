//! Scoreboards as association lists from player name to points.
//!
//! Both the per-round scoreboard and the cumulative scoreboard of a session
//! are ordered lists of `(name, points)` rows with unique names; the order of
//! the cumulative board is the join order of the players, which is what breaks
//! ties in the final leaderboard.

use vstd::prelude::*;
use vstd::multiset::Multiset;
use crate::models::{Player, rows_view};

verus! {

/// One scoreboard row at the specification level: a player name and points.
pub type RowV = (Seq<char>, u64);

/// Saturating addition on points.
pub open spec fn sat_add(a: u64, b: u64) -> u64 {
    if a + b > u64::MAX {
        u64::MAX
    } else {
        (a + b) as u64
    }
}

/// No name occurs twice.
pub open spec fn unique_names(names: Seq<Seq<char>>) -> bool {
    forall|i: int, j: int| 0 <= i < j < names.len() ==> names[i] != names[j]
}

/// No row name occurs twice.
pub open spec fn unique_keys(rows: Seq<RowV>) -> bool {
    forall|i: int, j: int| 0 <= i < j < rows.len() ==> rows[i].0 != rows[j].0
}

/// Some row carries the name `n`.
pub open spec fn has_key(rows: Seq<RowV>, n: Seq<char>) -> bool {
    exists|i: int| 0 <= i < rows.len() && rows[i].0 == n
}

/// The points recorded for `n`, or 0 where no row carries the name.
pub open spec fn points_of(rows: Seq<RowV>, n: Seq<char>) -> u64
    decreases rows.len(),
{
    if rows.len() == 0 {
        0
    } else if rows[0].0 == n {
        rows[0].1
    } else {
        points_of(rows.drop_first(), n)
    }
}

/// The rows with the row for `n` bumped by `d` (saturating), or a fresh
/// `(n, d)` row appended where no row carries the name.
pub open spec fn bump_points(rows: Seq<RowV>, n: Seq<char>, d: u64) -> Seq<RowV>
    decreases rows.len(),
{
    if rows.len() == 0 {
        seq![(n, d)]
    } else if rows[0].0 == n {
        seq![(rows[0].0, sat_add(rows[0].1, d))] + rows.drop_first()
    } else {
        seq![rows[0]] + bump_points(rows.drop_first(), n, d)
    }
}

/// `names` with every occurrence of `n` removed.
pub open spec fn remove_name(names: Seq<Seq<char>>, n: Seq<char>) -> Seq<Seq<char>>
    decreases names.len(),
{
    if names.len() == 0 {
        Seq::empty()
    } else {
        let pre = remove_name(names.drop_last(), n);
        if names.last() == n {
            pre
        } else {
            pre.push(names.last())
        }
    }
}

/// `e` inserted into a points-descending list, after any rows of equal
/// points, so that rows listed earlier keep winning ties.
pub open spec fn insert_desc(e: RowV, s: Seq<RowV>) -> Seq<RowV>
    decreases s.len(),
{
    if s.len() == 0 {
        seq![e]
    } else if s[0].1 >= e.1 {
        seq![s[0]] + insert_desc(e, s.drop_first())
    } else {
        seq![e] + s
    }
}

/// Stable sort by points, descending: rows listed earlier win ties, so a
/// join-ordered cumulative board sorts into a leaderboard whose ties stand
/// in join order.
pub open spec fn sort_desc(s: Seq<RowV>) -> Seq<RowV>
    decreases s.len(),
{
    if s.len() == 0 {
        Seq::empty()
    } else {
        insert_desc(s.last(), sort_desc(s.drop_last()))
    }
}

/// Points are descending along `s`.
pub open spec fn is_sorted_desc(s: Seq<RowV>) -> bool {
    forall|i: int, j: int| 0 <= i < j < s.len() ==> s[i].1 >= s[j].1
}

/// Looking a name up is unaffected by dropping a prefix that does not
/// carry it.
proof fn lemma_points_of_skip(rows: Seq<RowV>, n: Seq<char>, i: int)
    requires
        0 <= i <= rows.len(),
        forall|j: int| 0 <= j < i ==> rows[j].0 != n,
    ensures
        points_of(rows, n) == points_of(rows.skip(i), n),
    decreases i,
{
    if i > 0 {
        assert(rows.drop_first() =~= rows.skip(1));
        lemma_points_of_skip(rows.skip(1), n, i - 1);
        assert(rows.skip(1).skip(i - 1) =~= rows.skip(i));
    } else {
        assert(rows.skip(0) =~= rows);
    }
}

/// Bumping the row found at the first index that carries the name is a
/// point update of that row.
proof fn lemma_bump_found(rows: Seq<RowV>, n: Seq<char>, d: u64, i: int)
    requires
        0 <= i < rows.len(),
        rows[i].0 == n,
        forall|j: int| 0 <= j < i ==> rows[j].0 != n,
    ensures
        bump_points(rows, n, d) =~= rows.update(i, (rows[i].0, sat_add(rows[i].1, d))),
    decreases i,
{
    if i == 0 {
        assert(bump_points(rows, n, d) =~= rows.update(0, (rows[0].0, sat_add(rows[0].1, d))));
    } else {
        lemma_bump_found(rows.drop_first(), n, d, i - 1);
        assert(bump_points(rows, n, d) =~= rows.update(i, (rows[i].0, sat_add(rows[i].1, d))));
    }
}

/// Bumping a name no row carries appends a fresh row.
proof fn lemma_bump_absent(rows: Seq<RowV>, n: Seq<char>, d: u64)
    requires
        forall|j: int| 0 <= j < rows.len() ==> rows[j].0 != n,
    ensures
        bump_points(rows, n, d) =~= rows.push((n, d)),
    decreases rows.len(),
{
    if rows.len() > 0 {
        lemma_bump_absent(rows.drop_first(), n, d);
        assert(bump_points(rows, n, d) =~= rows.push((n, d)));
    }
}

/// Finds the first row carrying `name`, if any.
pub fn rows_find(rows: &Vec<(Player, u64)>, name: &String) -> (r: Option<usize>)
    ensures
        match r {
            Some(i) => {
                &&& i < rows@.len()
                &&& rows_view(rows@)[i as int].0 == name@
                &&& forall|j: int| 0 <= j < i ==> rows_view(rows@)[j].0 != name@
            },
            None => !has_key(rows_view(rows@), name@),
        },
{
    let ghost rv = rows_view(rows@);
    let n: usize = rows.len();
    for i in 0..n
        invariant
            n == rows@.len(),
            rv == rows_view(rows@),
            rv.len() == rows@.len(),
            forall|j: int| 0 <= j < i ==> rv[j].0 != name@,
    {
        if rows[i].0.name == *name {
            assert(rv[i as int].0 == name@);
            return Some(i);
        }
        assert(rv[i as int].0 != name@);
    }
    None
}

/// Whether some row carries `name`.
pub fn rows_has_key(rows: &Vec<(Player, u64)>, name: &String) -> (r: bool)
    ensures
        r == has_key(rows_view(rows@), name@),
{
    let found = rows_find(rows, name);
    match found {
        Some(i) => {
            assert(has_key(rows_view(rows@), name@));
            true
        },
        None => false,
    }
}

/// The points recorded for `name`, 0 where no row carries it.
pub fn rows_points(rows: &Vec<(Player, u64)>, name: &String) -> (r: u64)
    ensures
        r == points_of(rows_view(rows@), name@),
{
    let ghost rv = rows_view(rows@);
    let found = rows_find(rows, name);
    match found {
        Some(i) => {
            proof {
                lemma_points_of_skip(rv, name@, i as int);
                assert(rv.skip(i as int)[0] == rv[i as int]);
            }
            rows[i].1
        },
        None => {
            proof {
                lemma_points_of_skip(rv, name@, rv.len() as int);
                assert(rv.skip(rv.len() as int).len() == 0);
            }
            0
        },
    }
}

/// Adds `d` points (saturating) to the row carrying `name`, or appends a
/// fresh row where none does.
pub fn rows_bump(rows: &mut Vec<(Player, u64)>, name: &String, d: u64)
    ensures
        rows_view(final(rows)@) == bump_points(rows_view(old(rows)@), name@, d),
{
    let ghost rv = rows_view(rows@);
    let found = rows_find(rows, name);
    match found {
        Some(i) => {
            let p = rows[i].0.clone();
            let pts: u64 = rows[i].1;
            let npts: u64 = if pts > u64::MAX - d {
                u64::MAX
            } else {
                pts + d
            };
            rows.set(i, (p, npts));
            proof {
                lemma_bump_found(rv, name@, d, i as int);
                assert(rows_view(rows@) =~= bump_points(rv, name@, d));
            }
        },
        None => {
            rows.push((Player { name: name.clone() }, d));
            proof {
                lemma_bump_absent(rv, name@, d);
                assert(rows_view(rows@) =~= bump_points(rv, name@, d));
            }
        },
    }
}

/// A name without a row has zero points.
pub proof fn lemma_points_of_absent(rows: Seq<RowV>, m: Seq<char>)
    requires
        !has_key(rows, m),
    ensures
        points_of(rows, m) == 0,
    decreases rows.len(),
{
    if rows.len() > 0 {
        assert(rows[0].0 != m);
        assert(!has_key(rows.drop_first(), m)) by {
            if has_key(rows.drop_first(), m) {
                let i = choose|i: int|
                    0 <= i < rows.drop_first().len() && rows.drop_first()[i].0 == m;
                assert(rows[i + 1].0 == m);
            }
        }
        lemma_points_of_absent(rows.drop_first(), m);
    }
}

/// Appending a row leaves every earlier name's points alone; a name that
/// had no row reads the new row's points, or stays at zero.
pub proof fn lemma_points_of_push(rows: Seq<RowV>, r: RowV, m: Seq<char>)
    ensures
        points_of(rows.push(r), m) == if has_key(rows, m) {
            points_of(rows, m)
        } else if m == r.0 {
            r.1
        } else {
            0u64
        },
    decreases rows.len(),
{
    let b = rows.push(r);
    if rows.len() == 0 {
        assert(!has_key(rows, m));
        assert(b[0] == r);
        if m != r.0 {
            assert(b.drop_first().len() == 0);
            assert(points_of(b.drop_first(), m) == 0);
            assert(points_of(b, m) == 0);
        } else {
            assert(points_of(b, m) == r.1);
        }
    } else {
        assert(b[0] == rows[0]);
        if rows[0].0 == m {
            assert(has_key(rows, m));
        } else {
            assert(b.drop_first() =~= rows.drop_first().push(r));
            lemma_points_of_push(rows.drop_first(), r, m);
            assert(has_key(rows, m) == has_key(rows.drop_first(), m)) by {
                if has_key(rows, m) {
                    let i = choose|i: int| 0 <= i < rows.len() && rows[i].0 == m;
                    assert(rows.drop_first()[i - 1].0 == m);
                }
                if has_key(rows.drop_first(), m) {
                    let i = choose|i: int|
                        0 <= i < rows.drop_first().len() && rows.drop_first()[i].0 == m;
                    assert(rows[i + 1].0 == m);
                }
            }
        }
    }
}

/// Bumping a name never lowers any points, and touches no other name's.
pub proof fn lemma_bump_points_of(rows: Seq<RowV>, n: Seq<char>, d: u64, m: Seq<char>)
    ensures
        points_of(bump_points(rows, n, d), m) >= points_of(rows, m),
        m != n ==> points_of(bump_points(rows, n, d), m) == points_of(rows, m),
    decreases rows.len(),
{
    let b = bump_points(rows, n, d);
    if rows.len() == 0 {
        assert(b[0] == (n, d));
        if m != n {
            assert(b.drop_first().len() == 0);
            assert(points_of(b.drop_first(), m) == 0);
            assert(points_of(b, m) == 0);
            assert(points_of(rows, m) == 0);
        }
    } else if rows[0].0 == n {
        assert(b[0] == (rows[0].0, sat_add(rows[0].1, d)));
        assert(b.drop_first() =~= rows.drop_first());
        if m != n {
            assert(points_of(b, m) == points_of(rows.drop_first(), m));
            assert(points_of(rows, m) == points_of(rows.drop_first(), m));
        }
    } else {
        assert(b[0] == rows[0]);
        assert(b.drop_first() =~= bump_points(rows.drop_first(), n, d));
        lemma_bump_points_of(rows.drop_first(), n, d, m);
        if m != n {
            if m == rows[0].0 {
                assert(points_of(b, m) == rows[0].1);
                assert(points_of(rows, m) == rows[0].1);
            } else {
                assert(points_of(b, m) == points_of(bump_points(rows.drop_first(), n, d), m));
                assert(points_of(rows, m) == points_of(rows.drop_first(), m));
            }
        }
    }
}

/// How bumping acts on the key set: the bumped name gains or keeps a row,
/// every present name keeps one, no name appears from nowhere, and unique
/// keys stay unique.
pub proof fn lemma_bump_keys(rows: Seq<RowV>, n: Seq<char>, d: u64)
    ensures
        has_key(bump_points(rows, n, d), n),
        forall|m: Seq<char>| #[trigger] has_key(rows, m) ==> has_key(bump_points(rows, n, d), m),
        forall|i: int|
            0 <= i < bump_points(rows, n, d).len() ==> (#[trigger] bump_points(rows, n, d)[i].0
                == n || has_key(rows, bump_points(rows, n, d)[i].0)),
        unique_keys(rows) ==> unique_keys(bump_points(rows, n, d)),
    decreases rows.len(),
{
    let b = bump_points(rows, n, d);
    if rows.len() == 0 {
        assert(b[0].0 == n);
    } else if rows[0].0 == n {
        assert(b.len() == rows.len());
        assert forall|k: int| 0 <= k < b.len() implies #[trigger] b[k].0 == rows[k].0 by {
            if k > 0 {
                assert(b[k] == rows[k]);
            }
        }
        assert(b[0].0 == n);
        assert forall|m: Seq<char>| #[trigger] has_key(rows, m) implies has_key(b, m) by {
            let i = choose|i: int| 0 <= i < rows.len() && rows[i].0 == m;
            assert(b[i].0 == m);
        }
        assert forall|i: int|
            0 <= i < b.len() implies (#[trigger] b[i].0 == n || has_key(rows, b[i].0)) by {
            assert(rows[i].0 == b[i].0);
        }
    } else {
        lemma_bump_keys(rows.drop_first(), n, d);
        let ib = bump_points(rows.drop_first(), n, d);
        assert(b =~= seq![rows[0]] + ib);
        assert(b[0] == rows[0]);
        assert forall|k: int| 1 <= k < b.len() implies b[k] == ib[k - 1] by {}
        // the bumped name keeps a row
        assert(has_key(b, n)) by {
            let i = choose|i: int| 0 <= i < ib.len() && ib[i].0 == n;
            assert(b[i + 1].0 == n);
        }
        // every present name keeps a row
        assert forall|m: Seq<char>| #[trigger] has_key(rows, m) implies has_key(b, m) by {
            let i = choose|i: int| 0 <= i < rows.len() && rows[i].0 == m;
            if i == 0 {
                assert(b[0].0 == m);
            } else {
                assert(rows.drop_first()[i - 1].0 == m);
                assert(has_key(rows.drop_first(), m));
                let j = choose|j: int| 0 <= j < ib.len() && ib[j].0 == m;
                assert(b[j + 1].0 == m);
            }
        }
        // no name appears from nowhere
        assert forall|i: int|
            0 <= i < b.len() implies (#[trigger] b[i].0 == n || has_key(rows, b[i].0)) by {
            if i == 0 {
                assert(rows[0].0 == b[0].0);
            } else {
                assert(b[i] == ib[i - 1]);
                if ib[i - 1].0 != n {
                    assert(has_key(rows.drop_first(), ib[i - 1].0));
                    let j = choose|j: int|
                        0 <= j < rows.drop_first().len() && rows.drop_first()[j].0 == ib[i - 1].0;
                    assert(rows[j + 1].0 == ib[i - 1].0);
                }
            }
        }
        // unique keys stay unique
        if unique_keys(rows) {
            assert(unique_keys(rows.drop_first())) by {
                assert forall|x: int, y: int|
                    0 <= x < y < rows.drop_first().len() implies rows.drop_first()[x].0
                    != rows.drop_first()[y].0 by {
                    assert(rows[x + 1].0 != rows[y + 1].0);
                }
            }
            assert(!has_key(rows.drop_first(), rows[0].0)) by {
                if has_key(rows.drop_first(), rows[0].0) {
                    let i = choose|i: int|
                        0 <= i < rows.drop_first().len() && rows.drop_first()[i].0 == rows[0].0;
                    assert(rows[i + 1].0 == rows[0].0);
                }
            }
            assert forall|x: int, y: int| 0 <= x < y < b.len() implies b[x].0 != b[y].0 by {
                if x == 0 {
                    assert(b[y] == ib[y - 1]);
                    if ib[y - 1].0 == b[0].0 {
                        assert(ib[y - 1].0 == n || has_key(rows.drop_first(), ib[y - 1].0));
                    }
                } else {
                    assert(b[x] == ib[x - 1]);
                    assert(b[y] == ib[y - 1]);
                }
            }
        }
    }
}

/// What removing a name leaves behind: only rows of other names that were
/// already present, unique names stay unique, and a missing name means
/// nothing changes.
pub proof fn lemma_remove_name_props(names: Seq<Seq<char>>, n: Seq<char>)
    ensures
        forall|i: int|
            0 <= i < remove_name(names, n).len() ==> names.contains(
                #[trigger] remove_name(names, n)[i],
            ) && remove_name(names, n)[i] != n,
        unique_names(names) ==> unique_names(remove_name(names, n)),
        !names.contains(n) ==> remove_name(names, n) =~= names,
    decreases names.len(),
{
    let r = remove_name(names, n);
    if names.len() == 0 {
    } else {
        let pre = remove_name(names.drop_last(), n);
        lemma_remove_name_props(names.drop_last(), n);
        assert forall|i: int| 0 <= i < r.len() implies names.contains(#[trigger] r[i]) && r[i]
            != n by {
            if i < pre.len() {
                assert(pre[i] == r[i]);
                let j = choose|j: int| 0 <= j < names.drop_last().len() && names.drop_last()[j] == pre[i];
                assert(names[j] == pre[i]);
            } else {
                assert(r[i] == names.last());
                assert(names[names.len() - 1] == names.last());
            }
        }
        if unique_names(names) {
            assert(unique_names(names.drop_last())) by {
                assert forall|x: int, y: int|
                    0 <= x < y < names.drop_last().len() implies names.drop_last()[x]
                    != names.drop_last()[y] by {
                    assert(names[x] != names[y]);
                }
            }
            if names.last() != n {
                assert(!names.drop_last().contains(names.last())) by {
                    if names.drop_last().contains(names.last()) {
                        let j = choose|j: int|
                            0 <= j < names.drop_last().len() && names.drop_last()[j]
                                == names.last();
                        assert(names[j] == names[names.len() - 1]);
                    }
                }
                assert forall|x: int, y: int| 0 <= x < y < r.len() implies r[x] != r[y] by {
                    if y < pre.len() {
                        assert(pre[x] != pre[y]);
                    } else {
                        assert(r[y] == names.last());
                        assert(pre[x] == r[x]);
                        assert(names.drop_last().contains(pre[x]));
                    }
                }
            }
        }
        if !names.contains(n) {
            assert(names.last() != n) by {
                assert(names[names.len() - 1] == names.last());
            }
            assert(!names.drop_last().contains(n)) by {
                if names.drop_last().contains(n) {
                    let j = choose|j: int|
                        0 <= j < names.drop_last().len() && names.drop_last()[j] == n;
                    assert(names[j] == n);
                }
            }
            assert(r =~= names);
        }
    }
}

/// `insert_desc` at the first position whose points are below the new
/// row's is one list insertion.
proof fn lemma_insert_desc_at(s: Seq<RowV>, e: RowV, j: int)
    requires
        0 <= j <= s.len(),
        forall|k: int| 0 <= k < j ==> s[k].1 >= e.1,
        j < s.len() ==> s[j].1 < e.1,
    ensures
        insert_desc(e, s) =~= s.insert(j, e),
    decreases j,
{
    if j == 0 {
        assert(insert_desc(e, s) =~= s.insert(0, e));
    } else {
        lemma_insert_desc_at(s.drop_first(), e, j - 1);
        assert(insert_desc(e, s) =~= s.insert(j, e));
    }
}

/// Inserting into a descending list keeps it descending.
proof fn lemma_insert_desc_sorted(e: RowV, s: Seq<RowV>)
    requires
        is_sorted_desc(s),
    ensures
        is_sorted_desc(insert_desc(e, s)),
    decreases s.len(),
{
    if s.len() == 0 {
    } else if s[0].1 >= e.1 {
        assert(is_sorted_desc(s.drop_first()));
        lemma_insert_desc_sorted(e, s.drop_first());
        let r = seq![s[0]] + insert_desc(e, s.drop_first());
        assert forall|i: int, j: int| 0 <= i < j < r.len() implies r[i].1 >= r[j].1 by {
            lemma_insert_desc_ge(e, s.drop_first());
            if i > 0 {
                assert(r[i] == insert_desc(e, s.drop_first())[i - 1]);
            }
        }
    } else {
    }
}

/// Every row of `insert_desc(e, s)` carries at least the least points of
/// `s` and `e` — stated as: each row either equals `e` or stands in `s`.
proof fn lemma_insert_desc_ge(e: RowV, s: Seq<RowV>)
    ensures
        forall|i: int|
            0 <= i < insert_desc(e, s).len() ==> (#[trigger] insert_desc(e, s)[i] == e
                || s.contains(insert_desc(e, s)[i])),
    decreases s.len(),
{
    if s.len() == 0 {
    } else if s[0].1 >= e.1 {
        lemma_insert_desc_ge(e, s.drop_first());
        let r = seq![s[0]] + insert_desc(e, s.drop_first());
        assert forall|i: int|
            0 <= i < r.len() implies (#[trigger] r[i] == e || s.contains(r[i])) by {
            if i == 0 {
                assert(s.contains(s[0]));
            } else {
                let inner = insert_desc(e, s.drop_first());
                assert(r[i] == inner[i - 1]);
                if inner[i - 1] == e {
                } else {
                    let k = choose|k: int|
                        0 <= k < s.drop_first().len() && s.drop_first()[k] == inner[i - 1];
                    assert(s[k + 1] == inner[i - 1]);
                }
            }
        }
    } else {
        assert forall|i: int|
            0 <= i < insert_desc(e, s).len() implies (#[trigger] insert_desc(e, s)[i] == e
                || s.contains(insert_desc(e, s)[i])) by {
            if i > 0 {
                assert(insert_desc(e, s)[i] == s[i - 1]);
            }
        }
    }
}

/// `insert_desc` is a permutation: it adds exactly the new row.
proof fn lemma_insert_desc_multiset(e: RowV, s: Seq<RowV>)
    ensures
        insert_desc(e, s).to_multiset() == s.to_multiset().insert(e),
    decreases s.len(),
{
    broadcast use vstd::seq_lib::group_to_multiset_ensures;
    broadcast use vstd::seq_lib::lemma_multiset_commutative;

    if s.len() == 0 {
        assert(insert_desc(e, s) =~= Seq::empty().push(e));
        assert(Seq::<RowV>::empty().push(e).to_multiset() =~= Seq::<
            RowV,
        >::empty().to_multiset().insert(e));
    } else if s[0].1 >= e.1 {
        lemma_insert_desc_multiset(e, s.drop_first());
        let inner = insert_desc(e, s.drop_first());
        assert((seq![s[0]] + inner).to_multiset() == seq![s[0]].to_multiset().add(
            inner.to_multiset(),
        ));
        assert(seq![s[0]].to_multiset() =~= Multiset::empty().insert(s[0]));
        assert(s.to_multiset() == seq![s[0]].to_multiset().add(s.drop_first().to_multiset())) by {
            assert(s =~= seq![s[0]] + s.drop_first());
        }
        assert((seq![s[0]] + inner).to_multiset() =~= s.to_multiset().insert(e));
    } else {
        assert((seq![e] + s).to_multiset() == seq![e].to_multiset().add(s.to_multiset()));
        assert(seq![e].to_multiset() =~= Multiset::empty().insert(e));
        assert((seq![e] + s).to_multiset() =~= s.to_multiset().insert(e));
    }
}

/// The leaderboard order is descending by points.
pub proof fn lemma_sort_desc_sorted(s: Seq<RowV>)
    ensures
        is_sorted_desc(sort_desc(s)),
    decreases s.len(),
{
    if s.len() > 0 {
        lemma_sort_desc_sorted(s.drop_last());
        lemma_insert_desc_sorted(s.last(), sort_desc(s.drop_last()));
    }
}

/// The leaderboard is a permutation of the cumulative board: no row is
/// lost, none is invented.
pub proof fn lemma_sort_desc_permutes(s: Seq<RowV>)
    ensures
        sort_desc(s).to_multiset() == s.to_multiset(),
    decreases s.len(),
{
    broadcast use vstd::seq_lib::group_to_multiset_ensures;

    if s.len() > 0 {
        lemma_sort_desc_permutes(s.drop_last());
        lemma_insert_desc_multiset(s.last(), sort_desc(s.drop_last()));
        assert(s =~= s.drop_last().push(s.last()));
        assert(s.drop_last().push(s.last()).to_multiset() =~= s.drop_last().to_multiset().insert(
            s.last(),
        ));
    }
}

/// The rows worth exactly `p` points.
pub open spec fn with_points(p: u64) -> spec_fn(RowV) -> bool {
    |r: RowV| r.1 == p
}

/// A list none of whose rows satisfies the predicate filters to nothing.
proof fn lemma_filter_none(s: Seq<RowV>, pred: spec_fn(RowV) -> bool)
    requires
        forall|k: int| 0 <= k < s.len() ==> !pred(#[trigger] s[k]),
    ensures
        s.filter(pred) == Seq::<RowV>::empty(),
    decreases s.len(),
{
    reveal_with_fuel(Seq::<RowV>::filter, 4);
    if s.len() > 0 {
        lemma_filter_none(s.drop_last(), pred);
    }
}

/// How inserting acts on the rows of each points value: the new row joins
/// the end of its own value's run, and every other value's run is
/// untouched.
proof fn lemma_insert_desc_filter(e: RowV, t: Seq<RowV>, p: u64)
    requires
        is_sorted_desc(t),
    ensures
        e.1 == p ==> insert_desc(e, t).filter(with_points(p)) == t.filter(with_points(p)).push(e),
        e.1 != p ==> insert_desc(e, t).filter(with_points(p)) == t.filter(with_points(p)),
    decreases t.len(),
{
    broadcast use vstd::seq_lib::group_filter_ensures;

    reveal_with_fuel(Seq::<RowV>::filter, 4);
    let pred = with_points(p);
    if t.len() == 0 {
        assert(insert_desc(e, t) =~= Seq::<RowV>::empty().push(e));
        assert(Seq::<RowV>::empty().push(e).drop_last() =~= Seq::<RowV>::empty());
        if e.1 == p {
            assert(pred(e));
            assert(insert_desc(e, t).filter(pred) =~= t.filter(pred).push(e));
        } else {
            assert(!pred(e));
            assert(insert_desc(e, t).filter(pred) =~= Seq::<RowV>::empty());
        }
    } else if t[0].1 >= e.1 {
        assert(is_sorted_desc(t.drop_first()));
        lemma_insert_desc_filter(e, t.drop_first(), p);
        let inner = insert_desc(e, t.drop_first());
        assert(insert_desc(e, t) == seq![t[0]] + inner);
        assert((seq![t[0]] + inner).filter(pred) == seq![t[0]].filter(pred) + inner.filter(pred));
        assert(t =~= seq![t[0]] + t.drop_first());
        assert(t.filter(pred) == seq![t[0]].filter(pred) + t.drop_first().filter(pred));
        if e.1 == p {
            assert(seq![t[0]].filter(pred) + t.drop_first().filter(pred).push(e) =~= (seq![
                t[0],
            ].filter(pred) + t.drop_first().filter(pred)).push(e));
        }
    } else {
        assert(insert_desc(e, t) == seq![e] + t);
        assert((seq![e] + t).filter(pred) == seq![e].filter(pred) + t.filter(pred));
        assert(seq![e].drop_last() =~= Seq::<RowV>::empty());
        if e.1 == p {
            assert(pred(e));
            assert(seq![e].filter(pred) =~= Seq::<RowV>::empty().push(e));
            assert forall|k: int| 0 <= k < t.len() implies !pred(#[trigger] t[k]) by {
                assert(t[k].1 <= t[0].1);
            }
            lemma_filter_none(t, pred);
            assert(seq![e].filter(pred) + t.filter(pred) =~= t.filter(pred).push(e));
        } else {
            assert(!pred(e));
            assert(seq![e].filter(pred) =~= Seq::<RowV>::empty());
            assert(seq![e].filter(pred) + t.filter(pred) =~= t.filter(pred));
        }
    }
}

/// The sort is stable: the rows worth any given points stand in the
/// leaderboard in exactly the order the cumulative board lists them — and
/// the cumulative board lists players in join order.
pub proof fn lemma_sort_desc_stable(s: Seq<RowV>, p: u64)
    ensures
        sort_desc(s).filter(with_points(p)) == s.filter(with_points(p)),
    decreases s.len(),
{
    reveal_with_fuel(Seq::<RowV>::filter, 4);
    let pred = with_points(p);
    if s.len() > 0 {
        lemma_sort_desc_stable(s.drop_last(), p);
        lemma_sort_desc_sorted(s.drop_last());
        lemma_insert_desc_filter(s.last(), sort_desc(s.drop_last()), p);
        if s.last().1 == p {
            assert(s.filter(pred) == s.drop_last().filter(pred).push(s.last()));
        } else {
            assert(s.filter(pred) == s.drop_last().filter(pred));
        }
    }
}

/// The first position whose row's points fall below `pts`; rows of equal
/// points are passed over, so a new row lands after its ties.
fn find_insert_pos(acc: &Vec<(Player, u64)>, pts: u64) -> (j: usize)
    ensures
        j <= acc@.len(),
        forall|k: int| 0 <= k < j ==> rows_view(acc@)[k].1 >= pts,
        j < acc@.len() ==> rows_view(acc@)[j as int].1 < pts,
{
    let ghost s = rows_view(acc@);
    let n: usize = acc.len();
    let mut j: usize = 0;
    while j < n
        invariant
            j <= n,
            n == acc@.len(),
            s == rows_view(acc@),
            s.len() == acc@.len(),
            forall|k: int| 0 <= k < j ==> s[k].1 >= pts,
        decreases n - j,
    {
        if acc[j].1 < pts {
            proof {
                assert(s[j as int].1 == acc@[j as int].1);
            }
            return j;
        }
        proof {
            assert(s[j as int].1 == acc@[j as int].1);
        }
        j += 1;
    }
    j
}

/// Inserts one row into a points-descending list, after any rows of equal
/// points.
pub fn rows_insert_desc(acc: &mut Vec<(Player, u64)>, e: (Player, u64))
    ensures
        rows_view(final(acc)@) == insert_desc((e.0.name@, e.1), rows_view(old(acc)@)),
{
    let ghost s = rows_view(acc@);
    let ghost ev = (e.0.name@, e.1);
    let j = find_insert_pos(acc, e.1);
    proof {
        lemma_insert_desc_at(s, ev, j as int);
    }
    acc.insert(j, e);
    proof {
        assert(rows_view(acc@) =~= s.insert(j as int, ev));
    }
}

/// The cumulative board sorted into a leaderboard: points descending,
/// rows listed earlier (players joined earlier) winning ties.
pub fn rows_sort_desc(rows: &Vec<(Player, u64)>) -> (r: Vec<(Player, u64)>)
    ensures
        rows_view(r@) == sort_desc(rows_view(rows@)),
{
    let ghost rv = rows_view(rows@);
    let n: usize = rows.len();
    let mut out: Vec<(Player, u64)> = Vec::new();
    for i in 0..n
        invariant
            n == rows@.len(),
            rv == rows_view(rows@),
            rv.len() == rows@.len(),
            rows_view(out@) =~= sort_desc(rv.take(i as int)),
    {
        let e = (rows[i].0.clone(), rows[i].1);
        proof {
            assert((e.0.name@, e.1) == rv[i as int]);
        }
        rows_insert_desc(&mut out, e);
        proof {
            assert(rv.take(i + 1).drop_last() =~= rv.take(i as int));
            assert(rv.take(i + 1).last() == rv[i as int]);
        }
    }
    proof {
        assert(rv.take(n as int) =~= rv);
    }
    out
}

/// A value-equal copy of a row list.
pub fn copy_rows(rows: &Vec<(Player, u64)>) -> (r: Vec<(Player, u64)>)
    ensures
        r@ == rows@,
{
    let n: usize = rows.len();
    let mut out: Vec<(Player, u64)> = Vec::new();
    for i in 0..n
        invariant
            n == rows@.len(),
            out@ =~= rows@.take(i as int),
    {
        out.push((rows[i].0.clone(), rows[i].1));
        proof {
            assert(out@ =~= rows@.take(i + 1));
        }
    }
    proof {
        assert(rows@.take(n as int) =~= rows@);
    }
    out
}

} // verus!
