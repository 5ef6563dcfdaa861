//! Tables as lists of rows, with the few relational operations that the
//! repositories need: look a row up, change rows, delete rows, copy rows out
//! and put them in order.
use crate::text::{lemma_text_order, lemma_text_transitive, text_before};
use vstd::prelude::*;

verus! {

/// A row of a table, with a model and a copy of equal model.
pub trait Record: View + Sized {
    fn duplicate(&self) -> (copy: Self)
        ensures
            copy@ == self@,
    ;
}

/// The model of a table: the view of each row, in order.
pub open spec fn model<R: View>(rows: Seq<R>) -> Seq<R::V> {
    Seq::new(rows.len(), |i: int| rows[i]@)
}

/// `rows` with `change` applied to each row that `hit` selects.
pub open spec fn updated<V>(
    rows: Seq<V>,
    hit: spec_fn(V) -> bool,
    change: spec_fn(V) -> V,
) -> Seq<V> {
    Seq::new(rows.len(), |i: int| if hit(rows[i]) { change(rows[i]) } else { rows[i] })
}

/// The rows that `hit` selects, in order.
pub open spec fn selected<V>(rows: Seq<V>, hit: spec_fn(V) -> bool) -> Seq<V>
    decreases rows.len(),
{
    if rows.len() == 0 {
        Seq::empty()
    } else if hit(rows.last()) {
        selected(rows.drop_last(), hit).push(rows.last())
    } else {
        selected(rows.drop_last(), hit)
    }
}

/// The rows that `hit` does not select, in order.
pub open spec fn removed<V>(rows: Seq<V>, hit: spec_fn(V) -> bool) -> Seq<V>
    decreases rows.len(),
{
    if rows.len() == 0 {
        Seq::empty()
    } else if hit(rows.last()) {
        removed(rows.drop_last(), hit)
    } else {
        removed(rows.drop_last(), hit).push(rows.last())
    }
}

/// Whether `hit` selects any row.
pub open spec fn exists_in<V>(rows: Seq<V>, hit: spec_fn(V) -> bool) -> bool {
    exists|i: int| 0 <= i < rows.len() && hit(#[trigger] rows[i])
}

/// Whether row `at` is the first that `hit` selects.
pub open spec fn first_at<V>(rows: Seq<V>, hit: spec_fn(V) -> bool, at: int) -> bool {
    &&& 0 <= at < rows.len()
    &&& hit(rows[at])
    &&& forall|k: int| 0 <= k < at ==> !hit(#[trigger] rows[k])
}

/// The first row that `hit` selects.
pub open spec fn lookup<V>(rows: Seq<V>, hit: spec_fn(V) -> bool) -> Option<V> {
    if exists|at: int| #[trigger] first_at(rows, hit, at) {
        Some(rows[choose|at: int| #[trigger] first_at(rows, hit, at)])
    } else {
        None
    }
}

/// The first row, in the order `less`, among those that `hit` selects.
pub open spec fn least<V>(
    rows: Seq<V>,
    hit: spec_fn(V) -> bool,
    less: spec_fn(V, V) -> bool,
) -> Option<V>
    decreases rows.len(),
{
    if rows.len() == 0 {
        None
    } else {
        let best = least(rows.drop_last(), hit, less);
        let last = rows.last();
        if !hit(last) {
            best
        } else {
            match best {
                None => Some(last),
                Some(row) => if less(last, row) {
                    Some(last)
                } else {
                    best
                },
            }
        }
    }
}

/// `row` put into `rows` before the first row that it precedes.
pub open spec fn placed<V>(rows: Seq<V>, row: V, less: spec_fn(V, V) -> bool) -> Seq<V>
    decreases rows.len(),
{
    if rows.len() == 0 {
        seq![row]
    } else if less(row, rows.last()) {
        placed(rows.drop_last(), row, less).push(rows.last())
    } else {
        rows.push(row)
    }
}

/// `rows` in the order `less`, rows that it does not tell apart as they stood.
pub open spec fn ordered<V>(rows: Seq<V>, less: spec_fn(V, V) -> bool) -> Seq<V>
    decreases rows.len(),
{
    if rows.len() == 0 {
        Seq::empty()
    } else {
        placed(ordered(rows.drop_last(), less), rows.last(), less)
    }
}

/// Whether no row of `rows` precedes an earlier one.
pub open spec fn is_ordered<V>(rows: Seq<V>, less: spec_fn(V, V) -> bool) -> bool {
    forall|i: int, j: int| 0 <= i < j < rows.len() ==> !less(#[trigger] rows[j], #[trigger] rows[i])
}

/// At most `limit` rows of `rows`, from number `offset` on.
pub open spec fn page<V>(rows: Seq<V>, offset: nat, limit: nat) -> Seq<V> {
    if offset >= rows.len() {
        Seq::empty()
    } else if offset + limit <= rows.len() {
        rows.subrange(offset as int, (offset + limit) as int)
    } else {
        rows.skip(offset as int)
    }
}

/// A row that is the first selected one is what a lookup finds.
pub proof fn lemma_lookup_first<V>(rows: Seq<V>, hit: spec_fn(V) -> bool, at: int)
    requires
        first_at(rows, hit, at),
    ensures
        lookup(rows, hit) == Some(rows[at]),
        exists_in(rows, hit),
{
    let chosen = choose|k: int| #[trigger] first_at(rows, hit, k);
    assert(first_at(rows, hit, chosen));
    if chosen < at {
        assert(hit(rows[chosen]));
    }
    if at < chosen {
        assert(hit(rows[at]));
    }
}

/// A lookup finds a row exactly when one is selected, and the row it finds is.
pub proof fn lemma_lookup<V>(rows: Seq<V>, hit: spec_fn(V) -> bool)
    ensures
        lookup(rows, hit) is Some == exists_in(rows, hit),
        lookup(rows, hit) matches Some(row) ==> hit(row) && rows.contains(row),
    decreases rows.len(),
{
    if exists_in(rows, hit) {
        let some = choose|i: int| 0 <= i < rows.len() && hit(#[trigger] rows[i]);
        lemma_first_exists(rows, hit, some);
    }
    if exists|at: int| #[trigger] first_at(rows, hit, at) {
        let at = choose|k: int| #[trigger] first_at(rows, hit, k);
        assert(hit(rows[at]));
    }
}

proof fn lemma_first_exists<V>(rows: Seq<V>, hit: spec_fn(V) -> bool, some: int)
    requires
        0 <= some < rows.len(),
        hit(rows[some]),
    ensures
        exists|at: int| #[trigger] first_at(rows, hit, at),
    decreases some,
{
    if forall|k: int| 0 <= k < some ==> !hit(#[trigger] rows[k]) {
        assert(first_at(rows, hit, some));
    } else {
        let earlier = choose|k: int| 0 <= k < some && hit(#[trigger] rows[k]);
        lemma_first_exists(rows, hit, earlier);
    }
}

/// Nothing is looked up where nothing is selected.
pub proof fn lemma_lookup_none<V>(rows: Seq<V>, hit: spec_fn(V) -> bool)
    requires
        forall|i: int| 0 <= i < rows.len() ==> !hit(#[trigger] rows[i]),
    ensures
        lookup(rows, hit) is None,
        !exists_in(rows, hit),
{
}

/// A lookup of changed rows finds the change of what it found before, where the
/// change leaves a row selected.
pub proof fn lemma_lookup_updated<V>(
    rows: Seq<V>,
    hit: spec_fn(V) -> bool,
    change: spec_fn(V) -> V,
)
    requires
        forall|row: V| #[trigger] hit(row) ==> hit(change(row)),
    ensures
        lookup(updated(rows, hit, change), hit) == (match lookup(rows, hit) {
            Some(row) => Some(change(row)),
            None => None,
        }),
{
    let after = updated(rows, hit, change);
    lemma_lookup(rows, hit);
    if exists|at: int| #[trigger] first_at(rows, hit, at) {
        let at = choose|at: int| #[trigger] first_at(rows, hit, at);
        lemma_lookup_first(rows, hit, at);
        assert(hit(rows[at]));
        assert(after[at] == change(rows[at]));
        assert forall|k: int| 0 <= k < at implies !hit(#[trigger] after[k]) by {
            assert(!hit(rows[k]));
        }
        assert(first_at(after, hit, at));
        lemma_lookup_first(after, hit, at);
    } else {
        assert forall|k: int| 0 <= k < after.len() implies !hit(#[trigger] after[k]) by {
            assert(!hit(rows[k]));
        }
        lemma_lookup_none(after, hit);
    }
}

/// A lookup finds a row that was added where it found none before.
pub proof fn lemma_lookup_added<V>(rows: Seq<V>, hit: spec_fn(V) -> bool, row: V)
    requires
        lookup(rows, hit) is None,
        hit(row),
    ensures
        lookup(rows.push(row), hit) == Some(row),
{
    lemma_lookup(rows, hit);
    let after = rows.push(row);
    assert forall|k: int| 0 <= k < rows.len() implies !hit(#[trigger] after[k]) by {
        assert(after[k] == rows[k]);
    }
    assert(first_at(after, hit, rows.len() as int));
    lemma_lookup_first(after, hit, rows.len() as int);
}

/// A lookup finds the same in a longer table that agrees on every row it can
/// find.
pub proof fn lemma_lookup_kept<V>(before: Seq<V>, after: Seq<V>, hit: spec_fn(V) -> bool)
    requires
        before.len() <= after.len(),
        forall|i: int| 0 <= i < before.len() && hit(#[trigger] before[i]) ==> after[i] == before[i],
        forall|i: int| 0 <= i < before.len() && hit(#[trigger] after[i]) ==> hit(before[i]),
        forall|i: int| before.len() <= i < after.len() ==> !hit(#[trigger] after[i]),
    ensures
        lookup(after, hit) == lookup(before, hit),
{
    lemma_lookup(before, hit);
    if exists|at: int| #[trigger] first_at(before, hit, at) {
        let at = choose|at: int| #[trigger] first_at(before, hit, at);
        lemma_lookup_first(before, hit, at);
        assert forall|k: int| 0 <= k < at implies !hit(#[trigger] after[k]) by {
            assert(!hit(before[k]));
        }
        assert(hit(before[at]));
        assert(first_at(after, hit, at));
        lemma_lookup_first(after, hit, at);
    } else {
        assert forall|k: int| 0 <= k < after.len() implies !hit(#[trigger] after[k]) by {
            if k < before.len() {
                assert(!hit(before[k]));
            }
        }
        lemma_lookup_none(after, hit);
    }
}

/// The least selected row is a selected row of the table.
pub proof fn lemma_least_selected<V>(
    rows: Seq<V>,
    hit: spec_fn(V) -> bool,
    less: spec_fn(V, V) -> bool,
)
    ensures
        least(rows, hit, less) matches Some(row) ==> hit(row) && rows.contains(row),
    decreases rows.len(),
{
    if rows.len() > 0 {
        let head = rows.drop_last();
        lemma_least_selected(head, hit, less);
        assert(rows[rows.len() - 1] == rows.last());
        match least(head, hit, less) {
            Some(row) => {
                let k = choose|k: int| 0 <= k < head.len() && head[k] == row;
                assert(rows[k] == row);
            },
            None => {},
        }
    }
}

/// Where a row is selected there is a least one.
pub proof fn lemma_least_found<V>(
    rows: Seq<V>,
    hit: spec_fn(V) -> bool,
    less: spec_fn(V, V) -> bool,
    at: int,
)
    requires
        0 <= at < rows.len(),
        hit(rows[at]),
    ensures
        least(rows, hit, less) is Some,
    decreases rows.len(),
{
    if at < rows.len() - 1 {
        lemma_least_found(rows.drop_last(), hit, less, at);
    }
}

/// Deleting rows leaves fewer where one is selected.
pub proof fn lemma_removed_shrinks<V>(rows: Seq<V>, hit: spec_fn(V) -> bool)
    ensures
        removed(rows, hit).len() <= rows.len(),
        exists_in(rows, hit) ==> removed(rows, hit).len() < rows.len(),
    decreases rows.len(),
{
    if rows.len() > 0 {
        let head = rows.drop_last();
        lemma_removed_shrinks(head, hit);
        if exists_in(rows, hit) && !hit(rows.last()) {
            let i = choose|i: int| 0 <= i < rows.len() && hit(#[trigger] rows[i]);
            assert(head[i] == rows[i]);
        }
    }
}

/// Deleting rows leaves exactly those that are not selected.
pub proof fn law_removed<V>(rows: Seq<V>, hit: spec_fn(V) -> bool)
    ensures
        forall|row: V| #[trigger]
            removed(rows, hit).contains(row) == (rows.contains(row) && !hit(row)),
    decreases rows.len(),
{
    if rows.len() > 0 {
        let head = rows.drop_last();
        law_removed(head, hit);
        let left = removed(rows, hit);
        assert forall|row: V| #[trigger] left.contains(row) == (
            rows.contains(row) && !hit(row)
        ) by {
            assert(rows[rows.len() - 1] == rows.last());
            if rows.contains(row) && row != rows.last() {
                let k = choose|k: int| 0 <= k < rows.len() && rows[k] == row;
                assert(head[k] == row);
            }
            if head.contains(row) {
                let k = choose|k: int| 0 <= k < head.len() && head[k] == row;
                assert(rows[k] == row);
            }
            let rest = removed(head, hit);
            assert(rest.contains(row) == (head.contains(row) && !hit(row)));
            if rest.contains(row) && !hit(rows.last()) {
                let k = choose|k: int| 0 <= k < rest.len() && rest[k] == row;
                assert(left[k] == row);
            }
            if left.contains(row) && !hit(rows.last()) {
                let k = choose|k: int| 0 <= k < left.len() && left[k] == row;
                if k < rest.len() {
                    assert(rest[k] == row);
                }
            }
            if row == rows.last() && !hit(row) {
                assert(left[left.len() - 1] == row);
            }
        }
    }
}

/// Selecting rows gives exactly those that are selected, and no more than there
/// are.
pub proof fn law_selected<V>(rows: Seq<V>, hit: spec_fn(V) -> bool)
    ensures
        forall|row: V| #[trigger]
            selected(rows, hit).contains(row) == (rows.contains(row) && hit(row)),
        selected(rows, hit).len() <= rows.len(),
    decreases rows.len(),
{
    if rows.len() > 0 {
        let head = rows.drop_last();
        law_selected(head, hit);
        let all = selected(rows, hit);
        let rest = selected(head, hit);
        assert forall|row: V| #[trigger] all.contains(row) == (rows.contains(row) && hit(row)) by {
            assert(rows[rows.len() - 1] == rows.last());
            assert(rest.contains(row) == (head.contains(row) && hit(row)));
            if rows.contains(row) && row != rows.last() {
                let k = choose|k: int| 0 <= k < rows.len() && rows[k] == row;
                assert(head[k] == row);
            }
            if head.contains(row) {
                let k = choose|k: int| 0 <= k < head.len() && head[k] == row;
                assert(rows[k] == row);
            }
            if rest.contains(row) && hit(rows.last()) {
                let k = choose|k: int| 0 <= k < rest.len() && rest[k] == row;
                assert(all[k] == row);
            }
            if all.contains(row) && hit(rows.last()) {
                let k = choose|k: int| 0 <= k < all.len() && all[k] == row;
                if k < rest.len() {
                    assert(rest[k] == row);
                }
            }
            if row == rows.last() && hit(row) {
                assert(all[all.len() - 1] == row);
            }
        }
    }
}

/// Changing rows leaves those that are not selected as they were.
pub proof fn law_updated_elsewhere<V>(
    rows: Seq<V>,
    hit: spec_fn(V) -> bool,
    change: spec_fn(V) -> V,
)
    ensures
        updated(rows, hit, change).len() == rows.len(),
        forall|i: int|
            0 <= i < rows.len() && !hit(#[trigger] rows[i]) ==> updated(rows, hit, change)[i]
                == rows[i],
{
}

/// A change of rows that are not kept, and that are not kept afterwards, leaves
/// the kept ones as they were, and so does deleting rows that are not kept.
pub proof fn law_kept_apart<V>(
    rows: Seq<V>,
    hit: spec_fn(V) -> bool,
    change: spec_fn(V) -> V,
    kept: spec_fn(V) -> bool,
)
    requires
        forall|row: V| #[trigger] hit(row) ==> !kept(row) && !kept(change(row)),
    ensures
        selected(updated(rows, hit, change), kept) == selected(rows, kept),
        selected(removed(rows, hit), kept) == selected(rows, kept),
    decreases rows.len(),
{
    let after = updated(rows, hit, change);
    if rows.len() == 0 {
        assert(after =~= rows);
    } else {
        let head = rows.drop_last();
        law_kept_apart(head, hit, change, kept);
        assert(after.drop_last() =~= updated(head, hit, change));
        let left = removed(rows, hit);
        if !hit(rows.last()) {
            assert(left.drop_last() =~= removed(head, hit));
            assert(left.last() == rows.last());
        }
    }
}

/// A new row that is not kept leaves the kept ones as they were.
pub proof fn law_added_apart<V>(rows: Seq<V>, row: V, kept: spec_fn(V) -> bool)
    requires
        !kept(row),
    ensures
        selected(rows.push(row), kept) == selected(rows, kept),
{
    assert(rows.push(row).drop_last() =~= rows);
}

/// The first selected row: its number, if there is one.
pub fn find_where<R: View, H: Fn(&R) -> bool>(
    rows: &Vec<R>,
    hit: H,
    Ghost(hit_spec): Ghost<spec_fn(R::V) -> bool>,
) -> (found: Option<usize>)
    requires
        forall|r: R| hit.requires((&r,)),
        forall|r: R, b: bool| hit.ensures((&r,), b) ==> b == hit_spec(r@),
    ensures
        match found {
            Some(at) => {
                &&& at < rows.len()
                &&& first_at(model(rows@), hit_spec, at as int)
                &&& hit_spec(rows[at as int]@)
                &&& lookup(model(rows@), hit_spec) == Some(rows[at as int]@)
                &&& exists_in(model(rows@), hit_spec)
            },
            None => {
                &&& lookup(model(rows@), hit_spec) is None
                &&& !exists_in(model(rows@), hit_spec)
            },
        },
{
    let mut i: usize = 0;
    while i < rows.len()
        invariant
            i <= rows.len(),
            forall|r: R| hit.requires((&r,)),
            forall|r: R, b: bool| hit.ensures((&r,), b) ==> b == hit_spec(r@),
            forall|k: int| 0 <= k < i ==> !hit_spec(#[trigger] model(rows@)[k]),
        decreases rows.len() - i,
    {
        if hit(&rows[i]) {
            proof {
                assert(model(rows@)[i as int] == rows[i as int]@);
                lemma_lookup_first(model(rows@), hit_spec, i as int);
            }
            return Some(i);
        }
        assert(model(rows@)[i as int] == rows[i as int]@);
        i = i + 1;
    }
    proof {
        lemma_lookup_none(model(rows@), hit_spec);
    }
    None
}

/// Whether any row is selected.
pub fn any_where<R: View, H: Fn(&R) -> bool>(
    rows: &Vec<R>,
    hit: H,
    Ghost(hit_spec): Ghost<spec_fn(R::V) -> bool>,
) -> (found: bool)
    requires
        forall|r: R| hit.requires((&r,)),
        forall|r: R, b: bool| hit.ensures((&r,), b) ==> b == hit_spec(r@),
    ensures
        found == exists_in(model(rows@), hit_spec),
{
    find_where(rows, hit, Ghost(hit_spec)).is_some()
}

/// Changes each selected row and counts them.
pub fn update_where<R: View, H: Fn(&R) -> bool, C: Fn(&R) -> R>(
    rows: &mut Vec<R>,
    hit: H,
    change: C,
    Ghost(hit_spec): Ghost<spec_fn(R::V) -> bool>,
    Ghost(change_spec): Ghost<spec_fn(R::V) -> R::V>,
) -> (count: u64)
    requires
        forall|r: R| hit.requires((&r,)),
        forall|r: R, b: bool| hit.ensures((&r,), b) ==> b == hit_spec(r@),
        forall|i: int|
            0 <= i < old(rows).len() && hit_spec((#[trigger] old(rows)[i])@) ==> change.requires(
                (&old(rows)[i],),
            ),
        forall|r: R, n: R| change.ensures((&r,), n) ==> n@ == change_spec(r@),
    ensures
        model(final(rows)@) == updated(model(old(rows)@), hit_spec, change_spec),
        count == selected(model(old(rows)@), hit_spec).len(),
{
    let mut count: u64 = 0;
    let mut i: usize = 0;
    let ghost before = rows@;
    while i < rows.len()
        invariant
            i <= rows.len(),
            rows.len() == before.len(),
            count <= i,
            count == selected(model(before).take(i as int), hit_spec).len(),
            forall|r: R| hit.requires((&r,)),
            forall|r: R, b: bool| hit.ensures((&r,), b) ==> b == hit_spec(r@),
            forall|k: int|
                0 <= k < before.len() && hit_spec((#[trigger] before[k])@) ==> change.requires(
                    (&before[k],),
                ),
            forall|r: R, n: R| change.ensures((&r,), n) ==> n@ == change_spec(r@),
            forall|k: int| i <= k < before.len() ==> rows[k] == before[k],
            forall|k: int|
                0 <= k < i ==> (#[trigger] rows[k])@ == (if hit_spec(before[k]@) {
                    change_spec(before[k]@)
                } else {
                    before[k]@
                }),
        decreases rows.len() - i,
    {
        assert(rows[i as int] == before[i as int]);
        proof {
            let next = model(before).take(i as int + 1);
            assert(next.drop_last() =~= model(before).take(i as int));
            assert(next.last() == before[i as int]@);
        }
        if hit(&rows[i]) {
            let next = change(&rows[i]);
            rows.set(i, next);
            count = count + 1;
        }
        i = i + 1;
    }
    proof {
        assert(model(before).take(i as int) =~= model(before));
        assert(model(rows@) =~= updated(model(before), hit_spec, change_spec));
    }
    count
}

/// Deletes each selected row and counts them.
pub fn delete_where<R: View, H: Fn(&R) -> bool>(
    rows: &mut Vec<R>,
    hit: H,
    Ghost(hit_spec): Ghost<spec_fn(R::V) -> bool>,
) -> (count: u64)
    requires
        forall|r: R| hit.requires((&r,)),
        forall|r: R, b: bool| hit.ensures((&r,), b) ==> b == hit_spec(r@),
    ensures
        model(final(rows)@) == removed(model(old(rows)@), hit_spec),
        count == selected(model(old(rows)@), hit_spec).len(),
{
    let ghost before = model(rows@);
    let total: usize = rows.len();
    let mut count: u64 = 0;
    let mut i: usize = 0;
    let ghost mut seen: int = 0;
    while i < rows.len()
        invariant
            i <= rows.len(),
            0 <= seen <= before.len(),
            count == selected(before.take(seen), hit_spec).len(),
            count <= seen,
            before.len() == total,
            i == removed(before.take(seen), hit_spec).len(),
            model(rows@) =~= removed(before.take(seen), hit_spec) + before.skip(seen),
            forall|r: R| hit.requires((&r,)),
            forall|r: R, b: bool| hit.ensures((&r,), b) ==> b == hit_spec(r@),
        decreases rows.len() - i,
    {
        proof {
            let next = before.take(seen + 1);
            assert(model(rows@)[i as int] == before.skip(seen)[0]);
            assert(next.drop_last() =~= before.take(seen));
            assert(next.last() == rows[i as int]@);
            assert(before.skip(seen) =~= seq![before[seen]] + before.skip(seen + 1));
        }
        let ghost old_rows = rows@;
        if hit(&rows[i]) {
            let _gone = rows.remove(i);
            count = count + 1;
            assert(model(rows@) =~= model(old_rows).remove(i as int));
        } else {
            i = i + 1;
        }
        proof {
            seen = seen + 1;
        }
    }
    proof {
        assert(before.skip(seen).len() == 0);
        assert(before.take(seen) =~= before);
    }
    count
}

/// Copies of the selected rows, in order.
pub fn select_where<R: Record, H: Fn(&R) -> bool>(
    rows: &Vec<R>,
    hit: H,
    Ghost(hit_spec): Ghost<spec_fn(R::V) -> bool>,
) -> (list: Vec<R>)
    requires
        forall|r: R| hit.requires((&r,)),
        forall|r: R, b: bool| hit.ensures((&r,), b) ==> b == hit_spec(r@),
    ensures
        model(list@) == selected(model(rows@), hit_spec),
{
    let mut list: Vec<R> = Vec::new();
    let mut i: usize = 0;
    while i < rows.len()
        invariant
            i <= rows.len(),
            model(list@) =~= selected(model(rows@).take(i as int), hit_spec),
            forall|r: R| hit.requires((&r,)),
            forall|r: R, b: bool| hit.ensures((&r,), b) ==> b == hit_spec(r@),
        decreases rows.len() - i,
    {
        proof {
            let next = model(rows@).take(i as int + 1);
            assert(next.drop_last() =~= model(rows@).take(i as int));
            assert(next.last() == rows[i as int]@);
        }
        if hit(&rows[i]) {
            list.push(rows[i].duplicate());
        }
        i = i + 1;
    }
    assert(model(rows@).take(i as int) =~= model(rows@));
    list
}

/// Copies of all rows, in order.
pub fn copy_rows<R: Record>(rows: &Vec<R>) -> (list: Vec<R>)
    ensures
        model(list@) == model(rows@),
{
    let mut list: Vec<R> = Vec::new();
    let mut i: usize = 0;
    while i < rows.len()
        invariant
            i <= rows.len(),
            list.len() == i,
            forall|k: int| 0 <= k < i ==> (#[trigger] list[k])@ == rows[k]@,
        decreases rows.len() - i,
    {
        let copy = rows[i].duplicate();
        assert(copy@ == rows[i as int]@);
        list.push(copy);
        i = i + 1;
    }
    assert(model(list@) =~= model(rows@));
    list
}

/// The number of the first row, in the order `less`, among the selected ones.
pub fn least_where<R: View, H: Fn(&R) -> bool, L: Fn(&R, &R) -> bool>(
    rows: &Vec<R>,
    hit: H,
    less: L,
    Ghost(hit_spec): Ghost<spec_fn(R::V) -> bool>,
    Ghost(less_spec): Ghost<spec_fn(R::V, R::V) -> bool>,
) -> (found: Option<usize>)
    requires
        forall|r: R| hit.requires((&r,)),
        forall|r: R, b: bool| hit.ensures((&r,), b) ==> b == hit_spec(r@),
        forall|r: R, s: R| less.requires((&r, &s)),
        forall|r: R, s: R, b: bool| less.ensures((&r, &s), b) ==> b == less_spec(r@, s@),
    ensures
        match found {
            Some(at) => {
                &&& at < rows.len()
                &&& hit_spec(rows[at as int]@)
                &&& least(model(rows@), hit_spec, less_spec) == Some(rows[at as int]@)
            },
            None => least(model(rows@), hit_spec, less_spec) is None,
        },
{
    let mut best: Option<usize> = None;
    let mut i: usize = 0;
    while i < rows.len()
        invariant
            i <= rows.len(),
            forall|r: R| hit.requires((&r,)),
            forall|r: R, b: bool| hit.ensures((&r,), b) ==> b == hit_spec(r@),
            forall|r: R, s: R| less.requires((&r, &s)),
            forall|r: R, s: R, b: bool| less.ensures((&r, &s), b) ==> b == less_spec(r@, s@),
            match best {
                Some(at) => {
                    &&& at < i
                    &&& hit_spec(rows[at as int]@)
                    &&& least(model(rows@).take(i as int), hit_spec, less_spec) == Some(
                        rows[at as int]@,
                    )
                },
                None => least(model(rows@).take(i as int), hit_spec, less_spec) is None,
            },
        decreases rows.len() - i,
    {
        proof {
            let next = model(rows@).take(i as int + 1);
            assert(next.drop_last() =~= model(rows@).take(i as int));
            assert(next.last() == rows[i as int]@);
        }
        if hit(&rows[i]) {
            match best {
                None => {
                    best = Some(i);
                },
                Some(at) => {
                    if less(&rows[i], &rows[at]) {
                        best = Some(i);
                    }
                },
            }
        }
        i = i + 1;
    }
    assert(model(rows@).take(i as int) =~= model(rows@));
    best
}

/// Puts `row` into `rows` before the first row that it precedes.
fn place<R: View, L: Fn(&R, &R) -> bool>(
    rows: &mut Vec<R>,
    row: R,
    less: &L,
    Ghost(less_spec): Ghost<spec_fn(R::V, R::V) -> bool>,
)
    requires
        forall|r: R, s: R| less.requires((&r, &s)),
        forall|r: R, s: R, b: bool| less.ensures((&r, &s), b) ==> b == less_spec(r@, s@),
    ensures
        model(final(rows)@) == placed(model(old(rows)@), row@, less_spec),
{
    let ghost before = model(rows@);
    let mut at: usize = rows.len();
    assert(before.take(at as int) =~= before);
    assert(before.skip(at as int) =~= Seq::<R::V>::empty());
    assert(placed(before, row@, less_spec) =~= placed(before.take(at as int), row@, less_spec)
        + before.skip(at as int));
    while at > 0 && less(&row, &rows[at - 1])
        invariant
            at <= rows.len(),
            before == model(rows@),
            forall|r: R, s: R| less.requires((&r, &s)),
            forall|r: R, s: R, b: bool| less.ensures((&r, &s), b) ==> b == less_spec(r@, s@),
            placed(before, row@, less_spec) == placed(before.take(at as int), row@, less_spec)
                + before.skip(at as int),
        decreases at,
    {
        proof {
            let head = before.take(at as int);
            assert(head.drop_last() =~= before.take(at - 1));
            assert(head.last() == rows[at - 1]@);
            assert(placed(head.drop_last(), row@, less_spec).push(head.last()) + before.skip(
                at as int,
            ) =~= placed(head.drop_last(), row@, less_spec) + before.skip(at - 1));
        }
        at = at - 1;
    }
    let ghost rows_before = rows@;
    rows.insert(at, row);
    proof {
        let head = before.take(at as int);
        if at > 0 {
            assert(head.last() == rows_before[at - 1]@);
        }
        assert(placed(head, row@, less_spec) =~= head.push(row@));
        assert(model(rows@) =~= head.push(row@) + before.skip(at as int));
    }
}

/// The rows in the order `less`, rows that it does not tell apart as they stood.
pub fn sort_rows<R: View, L: Fn(&R, &R) -> bool>(
    rows: Vec<R>,
    less: L,
    Ghost(less_spec): Ghost<spec_fn(R::V, R::V) -> bool>,
) -> (list: Vec<R>)
    requires
        forall|r: R, s: R| less.requires((&r, &s)),
        forall|r: R, s: R, b: bool| less.ensures((&r, &s), b) ==> b == less_spec(r@, s@),
    ensures
        model(list@) == ordered(model(rows@), less_spec),
{
    let ghost all = model(rows@);
    let mut rest = rows;
    let mut reversed: Vec<R> = Vec::new();
    while rest.len() > 0
        invariant
            model(rest@).len() + model(reversed@).len() == all.len(),
            model(rest@) =~= all.take(rest@.len() as int),
            forall|k: int|
                0 <= k < reversed@.len() ==> (#[trigger] reversed@[k])@ == all[all.len() - 1 - k],
        decreases rest.len(),
    {
        let ghost old_rest = rest@;
        match rest.pop() {
            Some(row) => {
                assert(model(old_rest)[old_rest.len() - 1] == row@);
                assert(model(rest@) =~= model(old_rest).drop_last());
                reversed.push(row);
            },
            None => {},
        }
    }
    let mut list: Vec<R> = Vec::new();
    let ghost mut done: int = 0;
    assert(model(list@) =~= ordered(all.take(0), less_spec));
    while reversed.len() > 0
        invariant
            0 <= done <= all.len(),
            done + reversed@.len() == all.len(),
            forall|k: int|
                0 <= k < reversed@.len() ==> (#[trigger] reversed@[k])@ == all[all.len() - 1 - k],
            model(list@) == ordered(all.take(done), less_spec),
            forall|r: R, s: R| less.requires((&r, &s)),
            forall|r: R, s: R, b: bool| less.ensures((&r, &s), b) ==> b == less_spec(r@, s@),
        decreases reversed.len(),
    {
        match reversed.pop() {
            Some(row) => {
                proof {
                    assert(row@ == all[done]);
                    assert(all.take(done + 1).drop_last() =~= all.take(done));
                    done = done + 1;
                }
                place(&mut list, row, &less, Ghost(less_spec));
            },
            None => {},
        }
    }
    assert(all.take(done) =~= all);
    list
}

/// At most `limit` rows, from number `offset` on.
pub fn take_page<R: Record>(rows: &Vec<R>, offset: usize, limit: usize) -> (list: Vec<R>)
    ensures
        model(list@) == page(model(rows@), offset as nat, limit as nat),
{
    let mut list: Vec<R> = Vec::new();
    if offset >= rows.len() {
        assert(model(list@) =~= Seq::empty());
        return list;
    }
    let mut i: usize = offset;
    while i < rows.len() && list.len() < limit
        invariant
            offset <= i <= rows.len(),
            list.len() == i - offset,
            list.len() <= limit,
            model(list@) =~= model(rows@).subrange(offset as int, i as int),
        decreases rows.len() - i,
    {
        list.push(rows[i].duplicate());
        i = i + 1;
    }
    assert(model(list@) =~= page(model(rows@), offset as nat, limit as nat));
    list
}

/// The rows from number `offset` on, at most `limit`; a negative limit is none,
/// a negative offset is zero.
pub open spec fn limited<V>(rows: Seq<V>, limit: i64, offset: i64) -> Seq<V> {
    page(
        rows,
        if offset < 0 {
            0
        } else {
            offset as nat
        },
        if limit < 0 {
            rows.len()
        } else {
            limit as nat
        },
    )
}

/// Copies the rows from number `offset` on, at most `limit`.
pub fn take_limited<R: Record>(rows: &Vec<R>, limit: i64, offset: i64) -> (list: Vec<R>)
    ensures
        model(list@) == limited(model(rows@), limit, offset),
{
    let size: usize = rows.len();
    let start: usize = if offset <= 0 {
        0
    } else if offset as u64 >= size as u64 {
        size
    } else {
        offset as usize
    };
    let most: usize = if limit < 0 || limit as u64 >= size as u64 {
        size
    } else {
        limit as usize
    };
    let list = take_page(rows, start, most);
    proof {
        let all = model(rows@);
        assert(page(all, start as nat, most as nat) =~= limited(all, limit, offset));
    }
    list
}

/// The model of what was found.
pub open spec fn found<R: View>(row: Option<R>) -> Option<R::V> {
    match row {
        Some(row) => Some(row@),
        None => None,
    }
}

/// A copy of the first selected row, if there is one.
pub fn fetch_where<R: Record, H: Fn(&R) -> bool>(
    rows: &Vec<R>,
    hit: H,
    Ghost(hit_spec): Ghost<spec_fn(R::V) -> bool>,
) -> (row: Option<R>)
    requires
        forall|r: R| hit.requires((&r,)),
        forall|r: R, b: bool| hit.ensures((&r,), b) ==> b == hit_spec(r@),
    ensures
        found(row) == lookup(model(rows@), hit_spec),
{
    match find_where(rows, hit, Ghost(hit_spec)) {
        Some(at) => Some(rows[at].duplicate()),
        None => None,
    }
}

/// A copy of the first selected row in the order `less`, if there is one.
pub fn fetch_least<R: Record, H: Fn(&R) -> bool, L: Fn(&R, &R) -> bool>(
    rows: &Vec<R>,
    hit: H,
    less: L,
    Ghost(hit_spec): Ghost<spec_fn(R::V) -> bool>,
    Ghost(less_spec): Ghost<spec_fn(R::V, R::V) -> bool>,
) -> (row: Option<R>)
    requires
        forall|r: R| hit.requires((&r,)),
        forall|r: R, b: bool| hit.ensures((&r,), b) ==> b == hit_spec(r@),
        forall|r: R, s: R| less.requires((&r, &s)),
        forall|r: R, s: R, b: bool| less.ensures((&r, &s), b) ==> b == less_spec(r@, s@),
    ensures
        found(row) == least(model(rows@), hit_spec, less_spec),
{
    match least_where(rows, hit, less, Ghost(hit_spec), Ghost(less_spec)) {
        Some(at) => Some(rows[at].duplicate()),
        None => None,
    }
}

/// Copies of the selected rows, in the order `less`.
pub fn list_where<R: Record, H: Fn(&R) -> bool, L: Fn(&R, &R) -> bool>(
    rows: &Vec<R>,
    hit: H,
    less: L,
    Ghost(hit_spec): Ghost<spec_fn(R::V) -> bool>,
    Ghost(less_spec): Ghost<spec_fn(R::V, R::V) -> bool>,
) -> (list: Vec<R>)
    requires
        forall|r: R| hit.requires((&r,)),
        forall|r: R, b: bool| hit.ensures((&r,), b) ==> b == hit_spec(r@),
        forall|r: R, s: R| less.requires((&r, &s)),
        forall|r: R, s: R, b: bool| less.ensures((&r, &s), b) ==> b == less_spec(r@, s@),
    ensures
        model(list@) == ordered(selected(model(rows@), hit_spec), less_spec),
{
    sort_rows(select_where(rows, hit, Ghost(hit_spec)), less, Ghost(less_spec))
}

/// Changes each selected row, and gives a copy of the first of them as it is then.
pub fn update_returning<R: Record, H: Fn(&R) -> bool, C: Fn(&R) -> R>(
    rows: &mut Vec<R>,
    hit: H,
    change: C,
    Ghost(hit_spec): Ghost<spec_fn(R::V) -> bool>,
    Ghost(change_spec): Ghost<spec_fn(R::V) -> R::V>,
) -> (row: Option<R>)
    requires
        forall|r: R| hit.requires((&r,)),
        forall|r: R, b: bool| hit.ensures((&r,), b) ==> b == hit_spec(r@),
        forall|i: int|
            0 <= i < old(rows).len() && hit_spec((#[trigger] old(rows)[i])@) ==> change.requires(
                (&old(rows)[i],),
            ),
        forall|r: R, n: R| change.ensures((&r,), n) ==> n@ == change_spec(r@),
    ensures
        model(final(rows)@) == updated(model(old(rows)@), hit_spec, change_spec),
        found(row) == (match lookup(model(old(rows)@), hit_spec) {
            Some(known) => Some(change_spec(known)),
            None => None,
        }),
{
    let first = find_where(rows, &hit, Ghost(hit_spec));
    let ghost start = rows@;
    let _count: u64 = update_where(rows, hit, change, Ghost(hit_spec), Ghost(change_spec));
    match first {
        Some(at) => {
            assert(model(rows@).len() == model(start).len());
            assert(model(rows@)[at as int] == change_spec(model(start)[at as int]));
            Some(rows[at].duplicate())
        },
        None => None,
    }
}

/// `rows` with `change` applied to each row that `hit` selects, or with `row`
/// behind them where it selects none.
pub open spec fn put<V>(
    rows: Seq<V>,
    hit: spec_fn(V) -> bool,
    change: spec_fn(V) -> V,
    row: V,
) -> Seq<V> {
    if exists_in(rows, hit) {
        updated(rows, hit, change)
    } else {
        rows.push(row)
    }
}

/// Changes each selected row, or adds a row where none is selected.
pub fn put_row<R: View, H: Fn(&R) -> bool, C: Fn(&R) -> R>(
    rows: &mut Vec<R>,
    hit: H,
    change: C,
    row: R,
    Ghost(hit_spec): Ghost<spec_fn(R::V) -> bool>,
    Ghost(change_spec): Ghost<spec_fn(R::V) -> R::V>,
)
    requires
        forall|r: R| hit.requires((&r,)),
        forall|r: R, b: bool| hit.ensures((&r,), b) ==> b == hit_spec(r@),
        forall|r: R| change.requires((&r,)),
        forall|r: R, n: R| change.ensures((&r,), n) ==> n@ == change_spec(r@),
    ensures
        model(final(rows)@) == put(model(old(rows)@), hit_spec, change_spec, row@),
{
    if any_where(rows, &hit, Ghost(hit_spec)) {
        let _count: u64 = update_where(rows, hit, change, Ghost(hit_spec), Ghost(change_spec));
    } else {
        let ghost start = rows@;
        rows.push(row);
        assert(model(rows@) =~= model(start).push(row@));
    }
}

/// A lookup by the key of a written row finds the row as it was written.
pub proof fn law_put_is_found<V>(
    rows: Seq<V>,
    hit: spec_fn(V) -> bool,
    change: spec_fn(V) -> V,
    row: V,
)
    requires
        forall|r: V| #[trigger] hit(r) ==> hit(change(r)),
        hit(row),
    ensures
        lookup(put(rows, hit, change, row), hit) == (match lookup(rows, hit) {
            Some(known) => Some(change(known)),
            None => Some(row),
        }),
{
    lemma_lookup(rows, hit);
    if exists_in(rows, hit) {
        lemma_lookup_updated(rows, hit, change);
    } else {
        lemma_lookup_added(rows, hit, row);
    }
}

// ----------------------------------------------------------------------------
// What the ordering promises
// ----------------------------------------------------------------------------

/// Whether `less` is a strict order in which rows that it does not tell apart
/// are interchangeable.
pub open spec fn orders<V>(less: spec_fn(V, V) -> bool) -> bool {
    &&& forall|a: V, b: V| #[trigger] less(a, b) ==> !less(b, a)
    &&& forall|a: V, b: V, c: V| #[trigger] less(a, c) && !less(b, c) ==> #[trigger] less(a, b)
}

proof fn lemma_placed<V>(rows: Seq<V>, row: V, less: spec_fn(V, V) -> bool)
    requires
        orders(less),
        is_ordered(rows, less),
    ensures
        is_ordered(placed(rows, row, less), less),
        placed(rows, row, less).len() == rows.len() + 1,
        placed(rows, row, less).to_multiset() == rows.to_multiset().insert(row),
        forall|i: int|
            0 <= i < rows.len() + 1
                ==> #[trigger] placed(rows, row, less)[i] == row || exists|k: int|
                0 <= k < rows.len() && placed(rows, row, less)[i] == #[trigger] rows[k],
    decreases rows.len(),
{
    broadcast use vstd::seq_lib::group_to_multiset_ensures;

    let whole = placed(rows, row, less);
    if rows.len() == 0 {
        assert(seq![row] =~= rows.push(row));
    } else if less(row, rows.last()) {
        let head = rows.drop_last();
        lemma_placed(head, row, less);
        let inner = placed(head, row, less);
        assert(rows =~= head.push(rows.last()));
        assert(whole.to_multiset() =~= rows.to_multiset().insert(row));
        assert forall|i: int, j: int| 0 <= i < j < whole.len() implies !less(
            #[trigger] whole[j],
            #[trigger] whole[i],
        ) by {
            if j < inner.len() {
                assert(inner[i] == whole[i] && inner[j] == whole[j]);
            } else {
                assert(inner[i] == whole[i]);
                if inner[i] != row {
                    let k = choose|k: int| 0 <= k < head.len() && inner[i] == #[trigger] head[k];
                    assert(rows[k] == whole[i]);
                    assert(!less(rows[rows.len() - 1], rows[k]));
                }
            }
        }
        assert forall|i: int| 0 <= i < whole.len()
            implies #[trigger] whole[i] == row || exists|k: int|
            0 <= k < rows.len() && whole[i] == #[trigger] rows[k] by {
            if i < inner.len() {
                assert(inner[i] == whole[i]);
                if inner[i] != row {
                    let k = choose|k: int| 0 <= k < head.len() && inner[i] == #[trigger] head[k];
                    assert(rows[k] == whole[i]);
                }
            } else {
                assert(rows[rows.len() - 1] == whole[i]);
            }
        }
    } else {
        assert forall|i: int, j: int| 0 <= i < j < whole.len() implies !less(
            #[trigger] whole[j],
            #[trigger] whole[i],
        ) by {
            if j < rows.len() {
                assert(rows[i] == whole[i] && rows[j] == whole[j]);
            } else if less(row, rows[i]) {
                let last = rows[rows.len() - 1];
                if i < rows.len() - 1 {
                    assert(!less(last, rows[i]));
                    assert(less(row, last));
                }
            }
        }
    }
}

/// Sorting keeps every row, neither adds nor loses one, and puts no row behind
/// one that it precedes.
pub proof fn law_ordered<V>(rows: Seq<V>, less: spec_fn(V, V) -> bool)
    requires
        orders(less),
    ensures
        is_ordered(ordered(rows, less), less),
        ordered(rows, less).to_multiset() == rows.to_multiset(),
        ordered(rows, less).len() == rows.len(),
        forall|row: V| #[trigger] ordered(rows, less).contains(row) == rows.contains(row),
    decreases rows.len(),
{
    broadcast use vstd::seq_lib::group_to_multiset_ensures;

    let all = ordered(rows, less);
    if rows.len() > 0 {
        law_ordered(rows.drop_last(), less);
        lemma_placed(ordered(rows.drop_last(), less), rows.last(), less);
        assert(rows =~= rows.drop_last().push(rows.last()));
        assert(all.to_multiset() =~= rows.to_multiset());
    } else {
        assert(all =~= rows);
    }
    assert forall|row: V| #[trigger] all.contains(row) == rows.contains(row) by {
        assert(all.contains(row) == (all.to_multiset().count(row) > 0));
        assert(rows.contains(row) == (rows.to_multiset().count(row) > 0));
    }
}

/// The least selected row is selected, and no selected row precedes it.
pub proof fn law_least<V>(rows: Seq<V>, hit: spec_fn(V) -> bool, less: spec_fn(V, V) -> bool)
    requires
        orders(less),
    ensures
        least(rows, hit, less) is Some == exists_in(rows, hit),
        least(rows, hit, less) matches Some(row)
            ==> hit(row) && rows.contains(row) && forall|i: int|
            0 <= i < rows.len() && hit(#[trigger] rows[i]) ==> !less(rows[i], row),
    decreases rows.len(),
{
    if rows.len() > 0 {
        let head = rows.drop_last();
        law_least(head, hit, less);
        let last = rows.last();
        assert(rows[rows.len() - 1] == last);
        if exists_in(head, hit) {
            let i = choose|i: int| 0 <= i < head.len() && hit(#[trigger] head[i]);
            assert(rows[i] == head[i]);
        }
        if exists_in(rows, hit) && !hit(last) {
            let i = choose|i: int| 0 <= i < rows.len() && hit(#[trigger] rows[i]);
            assert(head[i] == rows[i]);
        }
        match least(rows, hit, less) {
            None => {},
            Some(row) => {
                if row != last {
                    let k = choose|k: int| 0 <= k < head.len() && head[k] == row;
                    assert(rows[k] == row);
                }
                assert forall|i: int| 0 <= i < rows.len() && hit(#[trigger] rows[i]) implies !less(
                    rows[i],
                    row,
                ) by {
                    if i < head.len() {
                        assert(head[i] == rows[i]);
                        match least(head, hit, less) {
                            None => {},
                            Some(best) => {
                                assert(!less(head[i], best));
                                if less(rows[i], row) && row != best {
                                    assert(less(row, best));
                                }
                            },
                        }
                    }
                }
            },
        }
    }
}

/// Whether each row precedes every later one.
pub open spec fn in_strict_order<V>(rows: Seq<V>, less: spec_fn(V, V) -> bool) -> bool {
    forall|i: int, j: int| 0 <= i < j < rows.len() ==> less(#[trigger] rows[i], #[trigger] rows[j])
}

/// Rows of which each precedes every later one are determined by which rows
/// they are.
pub proof fn law_strict_order_is_unique<V>(
    rows: Seq<V>,
    others: Seq<V>,
    less: spec_fn(V, V) -> bool,
)
    requires
        orders(less),
        in_strict_order(rows, less),
        in_strict_order(others, less),
        forall|row: V| #[trigger] rows.contains(row) == others.contains(row),
    ensures
        rows == others,
    decreases rows.len(),
{
    if rows.len() == 0 {
        if others.len() > 0 {
            assert(others.contains(others[0]));
            assert(rows.contains(others[0]));
        }
        assert(rows =~= others);
    } else {
        assert(rows.contains(rows.last()));
        assert(others.contains(rows.last()));
        let at = choose|k: int| 0 <= k < others.len() && others[k] == rows.last();
        if at < others.len() - 1 {
            assert(less(others[at], others[others.len() - 1]));
            assert(others.contains(others.last()));
            assert(rows.contains(others.last()));
            let m = choose|k: int| 0 <= k < rows.len() && rows[k] == others.last();
            if m < rows.len() - 1 {
                assert(less(rows[m], rows[rows.len() - 1]));
            }
        }
        let head = rows.drop_last();
        let rest = others.drop_last();
        assert(rows.last() == others.last());
        assert forall|row: V| #[trigger] head.contains(row) == rest.contains(row) by {
            if head.contains(row) {
                let k = choose|k: int| 0 <= k < head.len() && head[k] == row;
                assert(rows[k] == row && less(rows[k], rows[rows.len() - 1]));
                assert(rows.contains(row));
                assert(others.contains(row));
                let m = choose|m: int| 0 <= m < others.len() && others[m] == row;
                assert(rest[m] == row);
            }
            if rest.contains(row) {
                let k = choose|k: int| 0 <= k < rest.len() && rest[k] == row;
                assert(others[k] == row && less(others[k], others[others.len() - 1]));
                assert(others.contains(row));
                assert(rows.contains(row));
                let m = choose|m: int| 0 <= m < rows.len() && rows[m] == row;
                assert(head[m] == row);
            }
        }
        law_strict_order_is_unique(head, rest, less);
        assert(rows =~= head.push(rows.last()));
        assert(others =~= rest.push(others.last()));
    }
}

/// Of rows that come once each, selecting gives each once.
pub proof fn law_selected_once<V>(rows: Seq<V>, hit: spec_fn(V) -> bool)
    requires
        rows.no_duplicates(),
    ensures
        selected(rows, hit).no_duplicates(),
    decreases rows.len(),
{
    if rows.len() > 0 {
        let head = rows.drop_last();
        law_selected_once(head, hit);
        law_selected(head, hit);
        if selected(head, hit).contains(rows.last()) {
            assert(head.contains(rows.last()));
            let k = choose|k: int| 0 <= k < head.len() && head[k] == rows.last();
            assert(rows[k] == rows[rows.len() - 1]);
        }
        let rest = selected(head, hit);
        assert forall|i: int, j: int|
            0 <= i < selected(rows, hit).len() && 0 <= j < selected(rows, hit).len() && i
                != j implies selected(rows, hit)[i] != selected(rows, hit)[j] by {
            if i < rest.len() {
                assert(rest.contains(rest[i]));
            }
            if j < rest.len() {
                assert(rest.contains(rest[j]));
            }
        }
    }
}

/// A page of the rows that are selected, in order: it is no longer than the
/// limit, holds only such rows, none before one that it precedes, and no row that
/// is left out, of the first page, precedes one on it. A first page that is not
/// full holds all of them.
pub proof fn law_listing<V>(
    rows: Seq<V>,
    hit: spec_fn(V) -> bool,
    less: spec_fn(V, V) -> bool,
    offset: nat,
    limit: nat,
)
    requires
        orders(less),
    ensures
        ({
            let list = page(ordered(selected(rows, hit), less), offset, limit);
            &&& list.len() <= limit
            &&& is_ordered(list, less)
            &&& forall|i: int|
                0 <= i < list.len() ==> rows.contains(#[trigger] list[i]) && hit(list[i])
            &&& offset == 0 && list.len() < limit ==> forall|row: V|
                rows.contains(row) && hit(row) ==> #[trigger] list.contains(row)
            &&& offset == 0 ==> forall|row: V, i: int|
                rows.contains(row) && hit(row) && !list.contains(row) && 0 <= i < list.len()
                    ==> !(#[trigger] less(row, list[i]))
        }),
{
    let some = selected(rows, hit);
    let all = ordered(some, less);
    let list = page(all, offset, limit);
    law_selected(rows, hit);
    law_ordered(some, less);
    assert forall|i: int| 0 <= i < list.len() implies rows.contains(#[trigger] list[i]) && hit(
        list[i],
    ) by {
        assert(list[i] == all[i + offset]);
        assert(all.contains(all[i + offset]));
        assert(some.contains(list[i]));
    }
    assert forall|i: int, j: int| 0 <= i < j < list.len() implies !less(
        #[trigger] list[j],
        #[trigger] list[i],
    ) by {
        assert(list[i] == all[i + offset] && list[j] == all[j + offset]);
    }
    if offset == 0 {
        if list.len() < limit {
            assert(list =~= all);
            assert forall|row: V| rows.contains(row) && hit(row) implies #[trigger] list.contains(
                row,
            ) by {
                assert(some.contains(row));
            }
        }
        assert forall|row: V, i: int|
            rows.contains(row) && hit(row) && !list.contains(row) && 0 <= i
                < list.len() implies !(#[trigger] less(row, list[i])) by {
            assert(some.contains(row));
            assert(all.contains(row));
            let k = choose|k: int| 0 <= k < all.len() && all[k] == row;
            if k < list.len() {
                assert(list[k] == row);
            }
            assert(list[i] == all[i]);
        }
    }
}

/// The same of a page with the limits of a query, where a negative limit is none
/// and a negative offset is the start.
pub proof fn law_limited_listing<V>(
    rows: Seq<V>,
    hit: spec_fn(V) -> bool,
    less: spec_fn(V, V) -> bool,
    limit: i64,
    offset: i64,
)
    requires
        orders(less),
    ensures
        ({
            let list = limited(ordered(selected(rows, hit), less), limit, offset);
            &&& limit >= 0 ==> list.len() <= limit
            &&& is_ordered(list, less)
            &&& forall|i: int|
                0 <= i < list.len() ==> rows.contains(#[trigger] list[i]) && hit(list[i])
            &&& offset <= 0 && (limit < 0 || list.len() < limit) ==> forall|row: V|
                rows.contains(row) && hit(row) ==> #[trigger] list.contains(row)
            &&& offset <= 0 ==> forall|row: V, i: int|
                rows.contains(row) && hit(row) && !list.contains(row) && 0 <= i < list.len()
                    ==> !(#[trigger] less(row, list[i]))
        }),
{
    let all = ordered(selected(rows, hit), less);
    let list = limited(all, limit, offset);
    let from = if offset < 0 {
        0nat
    } else {
        offset as nat
    };
    let size = if limit < 0 {
        all.len()
    } else {
        limit as nat
    };
    law_listing(rows, hit, less, from, size);
    if offset <= 0 && limit < 0 {
        assert(list =~= all);
        law_selected(rows, hit);
        law_ordered(selected(rows, hit), less);
        assert forall|row: V| rows.contains(row) && hit(row) implies #[trigger] list.contains(
            row,
        ) by {
            assert(selected(rows, hit).contains(row));
        }
    }
}

/// A whole list of the rows that are selected, in order, holds these rows and no
/// others, none before one that it precedes.
pub proof fn law_full_listing<V>(
    rows: Seq<V>,
    hit: spec_fn(V) -> bool,
    less: spec_fn(V, V) -> bool,
)
    requires
        orders(less),
    ensures
        is_ordered(ordered(selected(rows, hit), less), less),
        forall|row: V| #[trigger]
            ordered(selected(rows, hit), less).contains(row) <==> rows.contains(row) && hit(row),
{
    law_selected(rows, hit);
    law_ordered(selected(rows, hit), less);
    let all = ordered(selected(rows, hit), less);
    assert forall|row: V| #[trigger] all.contains(row) <==> rows.contains(row) && hit(row) by {
        assert(all.contains(row) == selected(rows, hit).contains(row));
    }
}

/// Ordering rows by a number, and those of the same number by a text, forwards or
/// backwards, is an order.
pub proof fn lemma_orders_by<V>(
    less: spec_fn(V, V) -> bool,
    number: spec_fn(V) -> int,
    name: spec_fn(V) -> Seq<char>,
    backwards: bool,
)
    requires
        forall|a: V, b: V| #[trigger]
            less(a, b) == (number(a) < number(b) || (number(a) == number(b) && (if backwards {
                text_before(name(b), name(a))
            } else {
                text_before(name(a), name(b))
            }))),
    ensures
        orders(less),
{
    assert forall|a: V, b: V| #[trigger] less(a, b) implies !less(b, a) by {
        lemma_text_order(name(a), name(b));
    }
    assert forall|a: V, b: V, c: V| #[trigger] less(a, c) && !less(b, c) implies #[trigger] less(
        a,
        b,
    ) by {
        let x = name(a);
        let y = name(b);
        let z = name(c);
        lemma_text_order(x, y);
        lemma_text_order(x, z);
        lemma_text_order(y, z);
        if text_before(x, z) && text_before(z, y) {
            lemma_text_transitive(x, z, y);
        }
        if text_before(z, x) && text_before(y, z) {
            lemma_text_transitive(y, z, x);
        }
    }
}

/// A row that is put in place changes the rows of its place and no others; it is
/// added where there are none.
pub proof fn law_put<V>(
    rows: Seq<V>,
    hit: spec_fn(V) -> bool,
    change: spec_fn(V) -> V,
    row: V,
)
    ensures
        ({
            let after = put(rows, hit, change, row);
            &&& rows.len() <= after.len() <= rows.len() + 1
            &&& forall|i: int|
                0 <= i < rows.len() && hit(rows[i]) ==> #[trigger] after[i] == change(rows[i])
                    && after.len() == rows.len()
            &&& forall|i: int|
                0 <= i < rows.len() && !hit(rows[i]) ==> #[trigger] after[i] == rows[i]
            &&& (forall|i: int| 0 <= i < rows.len() ==> !hit(#[trigger] rows[i])) ==> after
                == rows.push(row)
        }),
{
    let after = put(rows, hit, change, row);
    assert forall|i: int| 0 <= i < rows.len() && hit(rows[i]) implies #[trigger] after[i] == change(
        rows[i],
    ) && after.len() == rows.len() by {
        assert(exists_in(rows, hit));
    }
}

} // verus!
