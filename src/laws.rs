use vstd::prelude::*;
use crate::sql_types::{BaseType, SqlType, TextOrNullableText, concat_type};
use crate::expression::{Expr, Value, ValueModel, type_of};
use crate::eval::{eval, passes, row_model};
use crate::query::{LockStrength, LockingClause, WaitPolicy};
use crate::table::{Table, RowLock, conflicts, released, has_aggregate};

verus! {

/// Concatenating two text operands is well-typed, and its result is nullable
/// exactly when one of the operands is.
pub proof fn concat_nullability(l: SqlType, r: SqlType)
    requires
        l.is_text_or_nullable_text(),
        r.is_text_or_nullable_text(),
    ensures
        concat_type(l, r) == Some(SqlType { base: BaseType::Text, nullable: l.nullable || r.nullable }),
{
}

/// The node `concat` builds from two text expressions has type text,
/// nullable exactly when one of the operands is.
pub proof fn concat_node_nullability(a: Expr, b: Expr)
    requires
        type_of(a) matches Some(t) && t.is_text_or_nullable_text(),
        type_of(b) matches Some(t) && t.is_text_or_nullable_text(),
    ensures
        type_of(Expr::Grouped(Box::new(Expr::Concat(Box::new(a), Box::new(b))))) == Some(SqlType {
            base: BaseType::Text,
            nullable: type_of(a).unwrap().nullable || type_of(b).unwrap().nullable,
        }),
{
    let inner = Expr::Concat(Box::new(a), Box::new(b));
    assert(type_of(Expr::Grouped(Box::new(inner))) == type_of(inner));
}

/// Concatenating a possibly-null text with a text value yields null exactly
/// when the first operand is null.
pub proof fn concat_null_exactly_when_operand_null(a: Expr, b: Expr, row: Seq<ValueModel>)
    requires
        eval(a, row) is Text || eval(a, row) is Null,
        eval(b, row) is Text,
    ensures
        eval(Expr::Grouped(Box::new(Expr::Concat(Box::new(a), Box::new(b)))), row) is Null <==> eval(a, row) is Null,
{
    let inner = Expr::Concat(Box::new(a), Box::new(b));
    assert(eval(Expr::Grouped(Box::new(inner)), row) == eval(inner, row));
}

/// On a text value and a text pattern, exactly one of `LIKE` and `NOT LIKE`
/// lets the row through a filter.
pub proof fn like_and_not_like_partition(a: Expr, b: Expr, row: Seq<ValueModel>)
    requires
        eval(a, row) is Text,
        eval(b, row) is Text,
    ensures
        passes(Some(Expr::Grouped(Box::new(Expr::Like(Box::new(a), Box::new(b))))), row)
            != passes(Some(Expr::Grouped(Box::new(Expr::NotLike(Box::new(a), Box::new(b))))), row),
{
    let l = Expr::Like(Box::new(a), Box::new(b));
    let n = Expr::NotLike(Box::new(a), Box::new(b));
    assert(eval(Expr::Grouped(Box::new(l)), row) == eval(l, row));
    assert(eval(Expr::Grouped(Box::new(n)), row) == eval(n, row));
}

/// A row passes an `eq_any` filter exactly when the operand is non-null and
/// equal to one of the listed values, such as the rows of a subselect.
pub proof fn eq_any_passes_members(a: Expr, vs: Vec<Value>, row: Seq<ValueModel>)
    ensures
        passes(Some(Expr::Grouped(Box::new(Expr::EqAny(Box::new(a), vs)))), row) <==> (!(eval(a, row) is Null)
            && exists|k: int| 0 <= k < vs.len() && (#[trigger] vs@[k])@ == eval(a, row)),
{
    let inner = Expr::EqAny(Box::new(a), vs);
    assert(eval(Expr::Grouped(Box::new(inner)), row) == eval(inner, row));
}

proof fn selected_prefix_unchanged(t: Table, t2: Table, filter: Option<Expr>, txn: u64, k: int)
    requires
        t.wf(),
        t2.wf(),
        0 <= k <= t.rows.len() <= t2.rows.len(),
        forall|i: int| 0 <= i < t.rows.len() ==> t2.rows@[i] == t.rows@[i] && t2.locks@[i] == t.locks@[i],
    ensures
        t2.selected(filter, None, txn, k) == t.selected(filter, None, txn, k),
    decreases k,
{
    if k > 0 {
        selected_prefix_unchanged(t, t2, filter, txn, k - 1);
        assert(t2.model()[k - 1] == t.model()[k - 1]);
    }
}

/// A statement run again after a row that passes its filter was inserted
/// returns that row too, after the rows it returned before: nothing is cached.
pub proof fn rerun_sees_inserted_row(t: Table, t2: Table, filter: Option<Expr>, txn: u64, row: Vec<Value>)
    requires
        t.wf(),
        t2.rows@ == t.rows@.push(row),
        t2.locks@ == t.locks@.push(None),
        passes(filter, row_model(row@)),
    ensures
        t2.selected(filter, None, txn, t2.rows.len() as int)
            == t.selected(filter, None, txn, t.rows.len() as int).push(t.rows.len() as usize),
{
    let n = t.rows.len() as int;
    assert forall|i: int| 0 <= i < n implies t2.rows@[i] == t.rows@[i] && t2.locks@[i] == t.locks@[i] by {}
    selected_prefix_unchanged(t, t2, filter, txn, n);
    assert(t2.model()[n] == row_model(row@));
}

/// A row that passes the filter and is locked `FOR UPDATE` by another
/// transaction holds back an update of it; once the holder ends, its lock no
/// longer stands in the way.
pub proof fn locked_row_holds_back_update(t: Table, filter: Option<Expr>, i: int, holder: u64, txn: u64)
    requires
        t.wf(),
        0 <= i < t.rows.len(),
        passes(filter, t.model()[i]),
        t.locks@[i] == Some(RowLock { holder, strength: LockStrength::Update }),
        holder != txn,
    ensures
        t.stopped(filter, Some(Table::update_lock()), txn),
        !conflicts(released(t.locks@[i], holder), txn, LockStrength::NoKeyUpdate),
{
    assert(crate::table::stops(Some(Table::update_lock()), t.locks@[i], txn));
}

/// An update whose rows carry no lock of another transaction goes ahead.
pub proof fn unlocked_rows_let_update_through(t: Table, filter: Option<Expr>, txn: u64)
    requires
        t.wf(),
        forall|i: int| 0 <= i < t.rows.len() ==> (#[trigger] t.locks@[i] is None || t.locks@[i].unwrap().holder == txn),
    ensures
        !t.stopped(filter, Some(Table::update_lock()), txn),
{
}

/// Under `NOWAIT`, a row that passes the filter and is locked `FOR UPDATE`
/// by another transaction stops the statement; `load` then reports
/// `LockNotObtainable`.
pub proof fn no_wait_stops_on_locked_row(t: Table, filter: Option<Expr>, strength: LockStrength, i: int, holder: u64, txn: u64)
    requires
        t.wf(),
        0 <= i < t.rows.len(),
        passes(filter, t.model()[i]),
        t.locks@[i] == Some(RowLock { holder, strength: LockStrength::Update }),
        holder != txn,
    ensures
        t.stopped(filter, Some(LockingClause { strength, wait: WaitPolicy::NoWait }), txn),
{
    assert(crate::table::stops(Some(LockingClause { strength, wait: WaitPolicy::NoWait }), t.locks@[i], txn));
}

proof fn selected_rows_are_picked(t: Table, filter: Option<Expr>, locking: Option<LockingClause>, txn: u64, n: int)
    requires
        t.wf(),
        0 <= n <= t.rows.len(),
    ensures
        forall|k: int| 0 <= k < t.selected(filter, locking, txn, n).len()
            ==> t.picked(filter, locking, txn, #[trigger] t.selected(filter, locking, txn, n)[k] as int),
    decreases n,
{
    if n > 0 {
        selected_rows_are_picked(t, filter, locking, txn, n - 1);
        let prev = t.selected(filter, locking, txn, n - 1);
        if t.picked(filter, locking, txn, n - 1) {
            let cur = prev.push((n - 1) as usize);
            assert forall|k: int| 0 <= k < cur.len() implies t.picked(filter, locking, txn, #[trigger] cur[k] as int) by {
                if k < prev.len() {
                    assert(cur[k] == prev[k]);
                }
            }
        }
    }
}

/// Under `SKIP LOCKED` a statement never waits nor fails on a lock, and
/// every row it returns passes its filter and is free of conflicting locks.
pub proof fn skip_locked_returns_unlocked_rows(t: Table, filter: Option<Expr>, strength: LockStrength, txn: u64)
    requires
        t.wf(),
    ensures
        ({
            let c = Some(LockingClause { strength, wait: WaitPolicy::SkipLocked });
            let sel = t.selected(filter, c, txn, t.rows.len() as int);
            &&& !t.stopped(filter, c, txn)
            &&& forall|k: int| 0 <= k < sel.len() ==> passes(filter, t.model()[#[trigger] sel[k] as int])
                && !conflicts(t.locks@[sel[k] as int], txn, strength)
        }),
{
    selected_rows_are_picked(t, filter, Some(LockingClause { strength, wait: WaitPolicy::SkipLocked }), txn, t.rows.len() as int);
}

/// A projection that holds an aggregate, with no grouping, returns exactly
/// one row, and `COUNT(*)` in it counts every selected row.
pub proof fn aggregate_projection_single_row(t: Table, es: Seq<Expr>, sel: Seq<usize>)
    requires
        has_aggregate(es),
    ensures
        t.output(Some(es), sel).len() == 1,
        forall|k: int| 0 <= k < es.len() && (#[trigger] es[k]) is CountStar
            ==> t.output(Some(es), sel)[0][k] == ValueModel::Int(sel.len() as int),
{
}

} // verus!
