//! Writes that the storage engine can turn down.
use crate::error::DbError;
use crate::table::{any_where, exists_in, model, put, put_row};
use crate::text::{borrow_opt, opt_text, same};
use vstd::prelude::*;

verus! {

/// What the storage engine said to a write.
#[derive(Debug, Clone, PartialEq, Eq)]
pub enum Verdict<T = String> {
    /// The write went through.
    Accepted,
    /// The write was turned down, with the engine's code and its message.
    Refused { code: Option<T>, message: T },
}

impl View for Verdict<String> {
    type V = Verdict<Seq<char>>;

    open spec fn view(&self) -> Verdict<Seq<char>> {
        match self {
            Verdict::Accepted => Verdict::Accepted,
            Verdict::Refused { code, message } => Verdict::Refused {
                code: opt_text(*code),
                message: message@,
            },
        }
    }
}

/// Whether a code reports that a unique index or a primary key would break.
pub open spec fn reports_duplicate(code: Option<Seq<char>>) -> bool {
    code == Some("2067"@) || code == Some("1555"@)
}

/// Whether a code reports that a unique index would break.
pub open spec fn reports_taken(code: Option<Seq<char>>) -> bool {
    code == Some("2067"@)
}

/// Whether a code reports a reference to a missing row.
pub open spec fn reports_missing_reference(code: Option<Seq<char>>) -> bool {
    code == Some("787"@)
}

/// Whether a code reports a value that a check does not allow.
pub open spec fn reports_bad_value(code: Option<Seq<char>>) -> bool {
    code == Some("275"@)
}

fn has_code(code: &Option<String>, wanted: &str) -> (yes: bool)
    ensures
        yes == (opt_text(*code) == Some(wanted@)),
{
    match borrow_opt(code) {
        Some(text) => same(text, wanted),
        None => false,
    }
}

/// Whether the engine reports that a unique index or a primary key would break.
pub fn is_duplicate(code: &Option<String>) -> (yes: bool)
    ensures
        yes == reports_duplicate(opt_text(*code)),
{
    has_code(code, "2067") || has_code(code, "1555")
}

/// Whether the engine reports that a unique index would break.
pub fn is_taken(code: &Option<String>) -> (yes: bool)
    ensures
        yes == reports_taken(opt_text(*code)),
{
    has_code(code, "2067")
}

/// Whether the engine reports a reference to a missing row.
pub fn is_missing_reference(code: &Option<String>) -> (yes: bool)
    ensures
        yes == reports_missing_reference(opt_text(*code)),
{
    has_code(code, "787")
}

/// Whether the engine reports a value that a check does not allow.
pub fn is_bad_value(code: &Option<String>) -> (yes: bool)
    ensures
        yes == reports_bad_value(opt_text(*code)),
{
    has_code(code, "275")
}

/// Whether a table was changed as `expected` says.
pub open spec fn rows_changed<V>(
    expected: Result<Seq<V>, DbError<Seq<char>>>,
    result: Result<(), DbError>,
    before: Seq<V>,
    after: Seq<V>,
) -> bool {
    match expected {
        Err(wanted) => (result matches Err(error) && error@ == wanted) && after == before,
        Ok(rows) => result is Ok && after == rows,
    }
}

/// `rows` with one more, whose key must be new.
pub open spec fn added<V>(
    rows: Seq<V>,
    taken: spec_fn(V) -> bool,
    row: V,
    text: Seq<char>,
) -> Result<
    Seq<V>,
    DbError<Seq<char>>,
> {
    if exists_in(rows, taken) {
        Err(DbError::Query(text))
    } else {
        Ok(rows.push(row))
    }
}

/// Adds a row whose key must be new.
pub fn add_row<R: View, H: Fn(&R) -> bool>(
    rows: &mut Vec<R>,
    row: R,
    taken: H,
    text: &str,
    Ghost(taken_spec): Ghost<spec_fn(R::V) -> bool>,
) -> (result: Result<(), DbError>)
    requires
        forall|r: R| taken.requires((&r,)),
        forall|r: R, b: bool| taken.ensures((&r,), b) ==> b == taken_spec(r@),
    ensures
        rows_changed(
            added(model(old(rows)@), taken_spec, row@, text@),
            result,
            model(old(rows)@),
            model(final(rows)@),
        ),
{
    if any_where(rows, taken, Ghost(taken_spec)) {
        return Err(DbError::Query(text.to_owned()));
    }
    let ghost start = rows@;
    rows.push(row);
    assert(model(rows@) =~= model(start).push(row@));
    Ok(())
}

/// `rows` with `change` applied where `hit` selects a row, and else with one
/// more, whose key must be new.
pub open spec fn written<V>(
    rows: Seq<V>,
    hit: spec_fn(V) -> bool,
    change: spec_fn(V) -> V,
    taken: spec_fn(V) -> bool,
    row: V,
    text: Seq<char>,
) -> Result<Seq<V>, DbError<Seq<char>>> {
    if !exists_in(rows, hit) && exists_in(rows, taken) {
        Err(DbError::Query(text))
    } else {
        Ok(put(rows, hit, change, row))
    }
}

/// Changes each selected row, or adds one whose key must be new.
pub fn write_row<R: View, H: Fn(&R) -> bool, C: Fn(&R) -> R, K: Fn(&R) -> bool>(
    rows: &mut Vec<R>,
    hit: H,
    change: C,
    taken: K,
    row: R,
    text: &str,
    Ghost(hit_spec): Ghost<spec_fn(R::V) -> bool>,
    Ghost(change_spec): Ghost<spec_fn(R::V) -> R::V>,
    Ghost(taken_spec): Ghost<spec_fn(R::V) -> bool>,
) -> (result: Result<(), DbError>)
    requires
        forall|r: R| hit.requires((&r,)),
        forall|r: R, b: bool| hit.ensures((&r,), b) ==> b == hit_spec(r@),
        forall|r: R| change.requires((&r,)),
        forall|r: R, n: R| change.ensures((&r,), n) ==> n@ == change_spec(r@),
        forall|r: R| taken.requires((&r,)),
        forall|r: R, b: bool| taken.ensures((&r,), b) ==> b == taken_spec(r@),
    ensures
        rows_changed(
            written(model(old(rows)@), hit_spec, change_spec, taken_spec, row@, text@),
            result,
            model(old(rows)@),
            model(final(rows)@),
        ),
{
    if !any_where(rows, &hit, Ghost(hit_spec)) && any_where(rows, taken, Ghost(taken_spec)) {
        return Err(DbError::Query(text.to_owned()));
    }
    put_row(rows, hit, change, row, Ghost(hit_spec), Ghost(change_spec));
    Ok(())
}

/// A write that fails changes nothing, and one that does not leaves the rows that it
/// came to.
pub proof fn law_failed_write_changes_nothing<V>(
    expected: Result<Seq<V>, DbError<Seq<char>>>,
    result: Result<(), DbError>,
    before: Seq<V>,
    after: Seq<V>,
)
    requires
        rows_changed(expected, result, before, after),
    ensures
        result matches Err(error) ==> after == before && expected == Err::<
            Seq<V>,
            DbError<Seq<char>>,
        >(error@),
        result is Ok ==> expected == Ok::<Seq<V>, DbError<Seq<char>>>(after),
{
}

} // verus!
