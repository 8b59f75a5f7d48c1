use vstd::prelude::*;
use crate::expression::{Expr, Value, ValueModel, is_aggregate};
use crate::eval::{eval, passes, row_model, row_passes, copy_value};
use crate::text::{chars_of, text_le, text_le_exec};
use crate::query::{LockStrength, LockingClause, WaitPolicy, SelectStatement};

verus! {

/// A row lock held by a transaction.
#[derive(PartialEq, Eq, Structural, Clone, Copy, Debug)]
pub struct RowLock {
    pub holder: u64,
    pub strength: LockStrength,
}

/// Why a statement did not run to completion.
#[derive(PartialEq, Eq, Structural, Clone, Copy, Debug)]
pub enum ExecError {
    /// A row it needs is locked by another transaction: it waits until that
    /// transaction ends.
    Blocked,
    /// A row it needs is locked and the statement asked not to wait.
    LockNotObtainable,
    /// No row where one was asked for.
    NotFound,
}

/// A table: its rows, in insertion order, and the lock each row carries.
#[derive(Debug)]
pub struct Table {
    pub rows: Vec<Vec<Value>>,
    pub locks: Vec<Option<RowLock>>,
}

/// Whether a lock of strength `req` asked by `txn` conflicts with `held`.
/// `FOR UPDATE` conflicts with every lock of another transaction; two
/// `FOR NO KEY UPDATE` locks conflict; a key share conflicts only with
/// `FOR UPDATE`.
pub open spec fn conflicts(held: Option<RowLock>, txn: u64, req: LockStrength) -> bool {
    match held {
        None => false,
        Some(l) => l.holder != txn && (req == LockStrength::Update || l.strength == LockStrength::Update
            || (req == LockStrength::NoKeyUpdate && l.strength == LockStrength::NoKeyUpdate)),
    }
}

pub fn lock_conflicts(held: Option<RowLock>, txn: u64, req: LockStrength) -> (r: bool)
    ensures
        r == conflicts(held, txn, req),
{
    match held {
        None => false,
        Some(l) => l.holder != txn && (req == LockStrength::Update || l.strength == LockStrength::Update
            || (req == LockStrength::NoKeyUpdate && l.strength == LockStrength::NoKeyUpdate)),
    }
}

/// Whether a row whose lock is `held` is left out under `SKIP LOCKED`.
pub open spec fn skipped(locking: Option<LockingClause>, held: Option<RowLock>, txn: u64) -> bool {
    locking matches Some(c) && c.wait == WaitPolicy::SkipLocked && conflicts(held, txn, c.strength)
}

/// Whether a row whose lock is `held` makes the statement wait or fail.
pub open spec fn stops(locking: Option<LockingClause>, held: Option<RowLock>, txn: u64) -> bool {
    locking matches Some(c) && c.wait != WaitPolicy::SkipLocked && conflicts(held, txn, c.strength)
}

/// The lock a row carries after a locking statement of `txn` returned it.
pub open spec fn lock_after(locking: Option<LockingClause>, held: Option<RowLock>, txn: u64) -> Option<RowLock> {
    match locking {
        Some(c) => if c.strength == LockStrength::KeyShare {
            held
        } else {
            Some(RowLock { holder: txn, strength: c.strength })
        },
        None => held,
    }
}


/// A result row: the projection evaluated on a table row, or the row itself
/// where there is no projection.
pub open spec fn project(proj: Option<Seq<Expr>>, row: Seq<ValueModel>) -> Seq<ValueModel> {
    match proj {
        None => row,
        Some(es) => es.map_values(|e: Expr| eval(e, row)),
    }
}

/// The values of returned rows.
pub open spec fn rows_view(v: Seq<Vec<Value>>) -> Seq<Seq<ValueModel>> {
    v.map_values(|r: Vec<Value>| row_model(r@))
}

/// Whether a projection holds an aggregate.
pub open spec fn has_aggregate(es: Seq<Expr>) -> bool {
    exists|k: int| 0 <= k < es.len() && is_aggregate(#[trigger] es[k])
}

/// Whether `v` is greater than `w`: integers by value, text lexicographically.
pub open spec fn value_gt(v: ValueModel, w: ValueModel) -> bool {
    match (v, w) {
        (ValueModel::Int(x), ValueModel::Int(y)) => x > y,
        (ValueModel::Text(x), ValueModel::Text(y)) => !text_le(x, y),
        _ => false,
    }
}

/// The running maximum `acc` after seeing `v`; nulls are ignored.
pub open spec fn greater_of(acc: ValueModel, v: ValueModel) -> ValueModel {
    if v is Null {
        acc
    } else if acc is Null || value_gt(v, acc) {
        v
    } else {
        acc
    }
}

fn greater_of_exec(acc: Value, v: Value) -> (r: Value)
    ensures
        r@ == greater_of(acc@, v@),
{
    match (&acc, &v) {
        (_, Value::Null) => acc,
        (Value::Null, _) => v,
        (Value::Int(x), Value::Int(y)) => if *y > *x { v } else { acc },
        (Value::Text(x), Value::Text(y)) => if text_le_exec(&chars_of(y.as_str()), &chars_of(x.as_str())) {
            acc
        } else {
            v
        },
        _ => acc,
    }
}

/// A row's lock after transaction `txn` ended.
pub open spec fn released(held: Option<RowLock>, txn: u64) -> Option<RowLock> {
    match held {
        Some(l) => if l.holder == txn {
            None
        } else {
            held
        },
        None => None,
    }
}

impl Table {
    pub open spec fn wf(&self) -> bool {
        self.rows.len() == self.locks.len()
    }

    /// The rows as values.
    pub open spec fn model(&self) -> Seq<Seq<ValueModel>> {
        self.rows@.map_values(|r: Vec<Value>| row_model(r@))
    }

    /// Whether row `i` is in the result of a statement with this filter and
    /// locking clause, run by `txn`.
    pub open spec fn picked(&self, filter: Option<Expr>, locking: Option<LockingClause>, txn: u64, i: int) -> bool {
        passes(filter, self.model()[i]) && !skipped(locking, self.locks@[i], txn)
    }

    /// The positions of the picked rows among the first `n`, in order.
    pub open spec fn selected(&self, filter: Option<Expr>, locking: Option<LockingClause>, txn: u64, n: int) -> Seq<usize>
        decreases n,
    {
        if n <= 0 {
            Seq::empty()
        } else if self.picked(filter, locking, txn, n - 1) {
            self.selected(filter, locking, txn, n - 1).push((n - 1) as usize)
        } else {
            self.selected(filter, locking, txn, n - 1)
        }
    }

    /// Whether some row that passes the filter makes the statement wait or fail.
    pub open spec fn stopped(&self, filter: Option<Expr>, locking: Option<LockingClause>, txn: u64) -> bool {
        exists|i: int| 0 <= i < self.rows.len() && passes(filter, self.model()[i]) && stops(locking, #[trigger] self.locks@[i], txn)
    }

    /// An empty table.
    pub fn new() -> (r: Table)
        ensures
            r.wf(),
            r.rows@.len() == 0,
    {
        Table { rows: Vec::new(), locks: Vec::new() }
    }

    /// Appends `row`, unlocked.
    pub fn insert(&mut self, row: Vec<Value>)
        requires
            old(self).wf(),
        ensures
            final(self).wf(),
            final(self).rows@ == old(self).rows@.push(row),
            final(self).locks@ == old(self).locks@.push(None),
    {
        self.rows.push(row);
        self.locks.push(None);
    }


    /// `MAX(a)` over the rows at the first `n` positions of `sel`.
    pub open spec fn max_over(&self, a: Expr, sel: Seq<usize>, n: int) -> ValueModel
        decreases n,
    {
        if n <= 0 {
            ValueModel::Null
        } else {
            greater_of(self.max_over(a, sel, n - 1), eval(a, self.model()[sel[n - 1] as int]))
        }
    }

    /// The value of one projected expression over the selected rows when the
    /// projection holds an aggregate: an aggregate is computed over all of
    /// them, any other expression is taken from the first.
    pub open spec fn aggregate(&self, e: Expr, sel: Seq<usize>) -> ValueModel {
        match e {
            Expr::CountStar => ValueModel::Int(sel.len() as int),
            Expr::Max(a) => self.max_over(*a, sel, sel.len() as int),
            _ => if sel.len() > 0 {
                eval(e, self.model()[sel[0] as int])
            } else {
                ValueModel::Null
            },
        }
    }

    /// The rows a statement returns from the selected positions `sel`.
    pub open spec fn output(&self, proj: Option<Seq<Expr>>, sel: Seq<usize>) -> Seq<Seq<ValueModel>> {
        match proj {
            Some(es) if has_aggregate(es) => seq![es.map_values(|e: Expr| self.aggregate(e, sel))],
            _ => sel.map_values(|i: usize| project(proj, self.model()[i as int])),
        }
    }

    /// The locks after a statement of `txn` returned the rows at `sel`.
    pub open spec fn locks_after(&self, locking: Option<LockingClause>, txn: u64, sel: Seq<usize>) -> Seq<Option<RowLock>> {
        Seq::new(self.locks.len() as nat, |i: int| if sel.contains(i as usize) {
            lock_after(locking, self.locks@[i], txn)
        } else {
            self.locks@[i]
        })
    }

    /// The projection of a statement, as a sequence.
    pub open spec fn projection_of(stmt: &SelectStatement) -> Option<Seq<Expr>> {
        match stmt.projection {
            Some(v) => Some(v@),
            None => None,
        }
    }

    /// The positions a statement locks: all it selected, or the first alone
    /// where only one row is fetched.
    pub open spec fn locked_part(sel: Seq<usize>, limit_one: bool) -> Seq<usize> {
        if limit_one {
            sel.take(if sel.len() > 0 { 1int } else { 0int })
        } else {
            sel
        }
    }

    /// Runs `stmt` for transaction `txn`. A statement with a locking clause
    /// that meets a row passing its filter and locked against it by another
    /// transaction waits (`Blocked`) or fails (`LockNotObtainable`) as its
    /// wait policy says, and changes nothing; under `SKIP LOCKED` the row is
    /// left out. Otherwise the returned rows are locked for `txn` and the
    /// result is returned.
    pub fn load(&mut self, stmt: &SelectStatement, txn: u64) -> (r: Result<Vec<Vec<Value>>, ExecError>)
        requires
            old(self).wf(),
            old(self).rows.len() <= i64::MAX,
        ensures
            final(self).wf(),
            final(self).rows == old(self).rows,
            r is Err <==> old(self).stopped(stmt.filter, stmt.locking, txn),
            r matches Err(e) ==> e == (if stmt.locking.unwrap().wait == WaitPolicy::NoWait {
                ExecError::LockNotObtainable
            } else {
                ExecError::Blocked
            }),
            r is Err ==> final(self).locks == old(self).locks,
            r matches Ok(v) ==> ({
                let sel = old(self).selected(stmt.filter, stmt.locking, txn, old(self).rows.len() as int);
                &&& rows_view(v@) == old(self).output(Self::projection_of(stmt), sel)
                &&& final(self).locks@ == old(self).locks_after(stmt.locking, txn, sel)
            }),
    {
        self.run(stmt, txn, false)
    }

    fn run(&mut self, stmt: &SelectStatement, txn: u64, limit_one: bool) -> (r: Result<Vec<Vec<Value>>, ExecError>)
        requires
            old(self).wf(),
            old(self).rows.len() <= i64::MAX,
        ensures
            final(self).wf(),
            final(self).rows == old(self).rows,
            r is Err <==> old(self).stopped(stmt.filter, stmt.locking, txn),
            r matches Err(e) ==> e == (if stmt.locking.unwrap().wait == WaitPolicy::NoWait {
                ExecError::LockNotObtainable
            } else {
                ExecError::Blocked
            }),
            r is Err ==> final(self).locks == old(self).locks,
            r matches Ok(v) ==> ({
                let sel = old(self).selected(stmt.filter, stmt.locking, txn, old(self).rows.len() as int);
                &&& rows_view(v@) == old(self).output(Self::projection_of(stmt), sel)
                &&& final(self).locks@ == old(self).locks_after(stmt.locking, txn, Self::locked_part(sel, limit_one))
            }),
    {
        let sel = match self.select_positions(&stmt.filter, stmt.locking, txn) {
            Ok(sel) => sel,
            Err(e) => return Err(e),
        };
        proof {
            self.lemma_selected_bounded(stmt.filter, stmt.locking, txn, self.rows.len() as int);
        }
        let out = self.output_rows(&stmt.projection, &sel);
        let ghost before = *self;
        let mut to_lock: Vec<usize> = Vec::new();
        if limit_one {
            if sel.len() > 0 {
                to_lock.push(sel[0]);
            }
        } else {
            to_lock = sel;
        }
        let ghost part = Self::locked_part(sel@, limit_one);
        assert(to_lock@ =~= part);
        match stmt.locking {
            Some(c) => if c.strength != LockStrength::KeyShare {
                self.lock_rows(&to_lock, txn, c.strength);
            },
            None => {},
        }
        assert(self.locks@ =~= before.locks_after(stmt.locking, txn, part));
        Ok(out)
    }

    /// Runs a single-column statement and returns the column's values, one
    /// per result row: the operand of an `eq_any` subselect.
    pub fn single_column(&mut self, stmt: &SelectStatement, txn: u64) -> (r: Result<Vec<Value>, ExecError>)
        requires
            old(self).wf(),
            old(self).rows.len() <= i64::MAX,
            stmt.projection matches Some(es) && es.len() == 1,
        ensures
            final(self).wf(),
            final(self).rows == old(self).rows,
            r is Err <==> old(self).stopped(stmt.filter, stmt.locking, txn),
            r matches Ok(v) ==> ({
                let out = old(self).output(Self::projection_of(stmt), old(self).selected(stmt.filter, stmt.locking, txn, old(self).rows.len() as int));
                &&& v@.len() == out.len()
                &&& forall|k: int| 0 <= k < out.len() ==> (#[trigger] v@[k])@ == out[k][0]
            }),
    {
        let ghost before = *self;
        let rows = match self.load(stmt, txn) {
            Ok(rows) => rows,
            Err(e) => return Err(e),
        };
        let ghost out = rows_view(rows@);
        proof {
            let es = Self::projection_of(stmt).unwrap();
            let sel = before.selected(stmt.filter, stmt.locking, txn, before.rows.len() as int);
            assert(out == before.output(Some(es), sel));
            assert forall|m: int| 0 <= m < rows.len() implies (#[trigger] out[m]).len() == 1 by {
                if !has_aggregate(es) {
                    assert(out[m] == project(Some(es), before.model()[sel[m] as int]));
                }
            }
        }
        let mut vals: Vec<Value> = Vec::new();
        let mut k: usize = 0;
        while k < rows.len()
            invariant
                k <= rows.len(),
                out == rows_view(rows@),
                vals@.len() == k,
                forall|m: int| 0 <= m < rows.len() ==> (#[trigger] out[m]).len() == 1,
                forall|m: int| 0 <= m < k ==> (#[trigger] vals@[m])@ == out[m][0],
            decreases rows.len() - k,
        {
            assert(out[k as int] == row_model(rows@[k as int]@));
            vals.push(copy_value(&rows[k][0]));
            k = k + 1;
        }
        Ok(vals)
    }

    /// Runs `stmt` and returns its first row, or `NotFound` where it returns none.
    pub fn first(&mut self, stmt: &SelectStatement, txn: u64) -> (r: Result<Vec<Value>, ExecError>)
        requires
            old(self).wf(),
            old(self).rows.len() <= i64::MAX,
        ensures
            final(self).wf(),
            final(self).rows == old(self).rows,
            r matches Err(ExecError::NotFound) ==> !old(self).stopped(stmt.filter, stmt.locking, txn)
                && old(self).output(Self::projection_of(stmt), old(self).selected(stmt.filter, stmt.locking, txn, old(self).rows.len() as int)).len() == 0,
            r matches Ok(row) ==> !old(self).stopped(stmt.filter, stmt.locking, txn)
                && ({
                    let out = old(self).output(Self::projection_of(stmt), old(self).selected(stmt.filter, stmt.locking, txn, old(self).rows.len() as int));
                    out.len() > 0 && row_model(row@) == out[0]
                }),
            (r is Err && !(r matches Err(ExecError::NotFound))) <==> old(self).stopped(stmt.filter, stmt.locking, txn),
            r matches Err(e) ==> e == ExecError::NotFound || (final(self).locks == old(self).locks
                && e == (if stmt.locking.unwrap().wait == WaitPolicy::NoWait {
                    ExecError::LockNotObtainable
                } else {
                    ExecError::Blocked
                })),
            !old(self).stopped(stmt.filter, stmt.locking, txn) ==> final(self).locks@ == old(self).locks_after(
                stmt.locking, txn,
                Self::locked_part(old(self).selected(stmt.filter, stmt.locking, txn, old(self).rows.len() as int), true),
            ),
    {
        match self.run(stmt, txn, true) {
            Ok(mut rows) => if rows.len() == 0 {
                Err(ExecError::NotFound)
            } else {
                assert(rows_view(rows@)[0] == row_model(rows@[0]@));
                Ok(rows.swap_remove(0))
            },
            Err(e) => Err(e),
        }
    }

    proof fn lemma_selected_bounded(&self, filter: Option<Expr>, locking: Option<LockingClause>, txn: u64, n: int)
        requires
            0 <= n <= self.rows.len(),
        ensures
            forall|k: int| 0 <= k < self.selected(filter, locking, txn, n).len()
                ==> #[trigger] self.selected(filter, locking, txn, n)[k] < n,
            self.selected(filter, locking, txn, n).len() <= n,
        decreases n,
    {
        if n > 0 {
            self.lemma_selected_bounded(filter, locking, txn, n - 1);
            let prev = self.selected(filter, locking, txn, n - 1);
            if self.picked(filter, locking, txn, n - 1) {
                let cur = prev.push((n - 1) as usize);
                assert forall|k: int| 0 <= k < cur.len() implies #[trigger] cur[k] < n by {
                    if k < prev.len() {
                        assert(cur[k] == prev[k]);
                    }
                }
            }
        }
    }

    fn lock_rows(&mut self, sel: &Vec<usize>, txn: u64, strength: LockStrength)
        requires
            old(self).wf(),
            forall|k: int| 0 <= k < sel.len() ==> sel@[k] < old(self).locks.len(),
        ensures
            final(self).wf(),
            final(self).rows == old(self).rows,
            final(self).locks.len() == old(self).locks.len(),
            forall|i: int| 0 <= i < old(self).locks.len() ==> final(self).locks@[i] == if sel@.contains(i as usize) {
                Some(RowLock { holder: txn, strength })
            } else {
                old(self).locks@[i]
            },
    {
        let mut j: usize = 0;
        while j < sel.len()
            invariant
                self.wf(),
                self.rows == old(self).rows,
                self.locks.len() == old(self).locks.len(),
                j <= sel.len(),
                forall|k: int| 0 <= k < sel.len() ==> sel@[k] < old(self).locks.len(),
                forall|i: int| 0 <= i < old(self).locks.len() ==> self.locks@[i] == if sel@.subrange(0, j as int).contains(i as usize) {
                    Some(RowLock { holder: txn, strength })
                } else {
                    old(self).locks@[i]
                },
            decreases sel.len() - j,
        {
            let idx = sel[j];
            let ghost prev = sel@.subrange(0, j as int);
            self.locks.set(idx, Some(RowLock { holder: txn, strength }));
            assert(sel@.subrange(0, j + 1) =~= prev.push(idx));
            assert forall|i: int| 0 <= i < old(self).locks.len() implies
                #[trigger] sel@.subrange(0, j + 1).contains(i as usize) == (prev.contains(i as usize) || idx == i as usize) by {
                let cur = prev.push(idx);
                if prev.contains(i as usize) {
                    let w = choose|w: int| 0 <= w < prev.len() && prev[w] == i as usize;
                    assert(cur[w] == i as usize);
                }
                if idx == i as usize {
                    assert(cur[prev.len() as int] == idx);
                }
                if cur.contains(i as usize) {
                    let w = choose|w: int| 0 <= w < cur.len() && cur[w] == i as usize;
                    if w < prev.len() {
                        assert(prev[w] == i as usize);
                    }
                }
            }
            j = j + 1;
        }
        assert(sel@.subrange(0, sel.len() as int) =~= sel@);
    }

    fn copy_row(row: &Vec<Value>) -> (r: Vec<Value>)
        ensures
            row_model(r@) == row_model(row@),
    {
        let mut out: Vec<Value> = Vec::new();
        let mut i: usize = 0;
        while i < row.len()
            invariant
                i <= row.len(),
                out@.len() == i,
                forall|k: int| 0 <= k < i ==> out@[k]@ == row@[k]@,
            decreases row.len() - i,
        {
            out.push(copy_value(&row[i]));
            i = i + 1;
        }
        assert(row_model(out@) =~= row_model(row@));
        out
    }

    fn project_row(proj: &Option<Vec<Expr>>, row: &Vec<Value>) -> (r: Vec<Value>)
        ensures
            row_model(r@) == project(Self::projection_of_opt(proj), row_model(row@)),
    {
        match proj {
            None => Self::copy_row(row),
            Some(es) => {
                let mut out: Vec<Value> = Vec::new();
                let mut i: usize = 0;
                while i < es.len()
                    invariant
                        i <= es.len(),
                        out@.len() == i,
                        forall|k: int| 0 <= k < i ==> out@[k]@ == eval(es@[k], row_model(row@)),
                    decreases es.len() - i,
                {
                    out.push(es[i].evaluate(row));
                    i = i + 1;
                }
                assert(row_model(out@) =~= es@.map_values(|e: Expr| eval(e, row_model(row@))));
                out
            },
        }
    }

    pub open spec fn projection_of_opt(proj: &Option<Vec<Expr>>) -> Option<Seq<Expr>> {
        match proj {
            Some(v) => Some(v@),
            None => None,
        }
    }

    fn max_rows(&self, a: &Expr, sel: &Vec<usize>) -> (r: Value)
        requires
            self.wf(),
            forall|k: int| 0 <= k < sel.len() ==> sel@[k] < self.rows.len(),
        ensures
            r@ == self.max_over(*a, sel@, sel.len() as int),
    {
        let mut acc = Value::Null;
        let mut j: usize = 0;
        while j < sel.len()
            invariant
                self.wf(),
                j <= sel.len(),
                forall|k: int| 0 <= k < sel.len() ==> sel@[k] < self.rows.len(),
                acc@ == self.max_over(*a, sel@, j as int),
            decreases sel.len() - j,
        {
            let v = a.evaluate(&self.rows[sel[j]]);
            assert(self.model()[sel@[j as int] as int] == row_model(self.rows@[sel@[j as int] as int]@));
            acc = greater_of_exec(acc, v);
            j = j + 1;
        }
        acc
    }

    fn aggregate_value(&self, e: &Expr, sel: &Vec<usize>) -> (r: Value)
        requires
            self.wf(),
            self.rows.len() <= i64::MAX,
            forall|k: int| 0 <= k < sel.len() ==> sel@[k] < self.rows.len(),
            sel.len() <= self.rows.len(),
        ensures
            r@ == self.aggregate(*e, sel@),
    {
        match e {
            Expr::CountStar => Value::Int(sel.len() as i64),
            Expr::Max(a) => self.max_rows(a, sel),
            _ => if sel.len() > 0 {
                assert(self.model()[sel@[0] as int] == row_model(self.rows@[sel@[0] as int]@));
                e.evaluate(&self.rows[sel[0]])
            } else {
                Value::Null
            },
        }
    }

    fn output_rows(&self, proj: &Option<Vec<Expr>>, sel: &Vec<usize>) -> (r: Vec<Vec<Value>>)
        requires
            self.wf(),
            self.rows.len() <= i64::MAX,
            forall|k: int| 0 <= k < sel.len() ==> sel@[k] < self.rows.len(),
            sel.len() <= self.rows.len(),
        ensures
            rows_view(r@) == self.output(Self::projection_of_opt(proj), sel@),
    {
        let mut aggregated = false;
        if let Some(es) = proj {
            let mut k: usize = 0;
            while k < es.len()
                invariant
                    k <= es.len(),
                    !aggregated <==> forall|m: int| 0 <= m < k ==> !is_aggregate(#[trigger] es@[m]),
                decreases es.len() - k,
            {
                match &es[k] {
                    Expr::CountStar | Expr::Max(_) => {
                        aggregated = true;
                    },
                    _ => {},
                }
                k = k + 1;
            }
        }
        if aggregated {
            let es = proj.as_ref().unwrap();
            let mut row: Vec<Value> = Vec::new();
            let mut k: usize = 0;
            while k < es.len()
                invariant
                    self.wf(),
                    self.rows.len() <= i64::MAX,
                    forall|m: int| 0 <= m < sel.len() ==> sel@[m] < self.rows.len(),
                    sel.len() <= self.rows.len(),
                    k <= es.len(),
                    row@.len() == k,
                    forall|m: int| 0 <= m < k ==> row@[m]@ == self.aggregate(es@[m], sel@),
                decreases es.len() - k,
            {
                row.push(self.aggregate_value(&es[k], sel));
                k = k + 1;
            }
            assert(row_model(row@) =~= es@.map_values(|e: Expr| self.aggregate(e, sel@)));
            let out = vec![row];
            assert(rows_view(out@) =~= self.output(Self::projection_of_opt(proj), sel@));
            out
        } else {
            let mut out: Vec<Vec<Value>> = Vec::new();
            let mut j: usize = 0;
            while j < sel.len()
                invariant
                    self.wf(),
                    forall|m: int| 0 <= m < sel.len() ==> sel@[m] < self.rows.len(),
                    j <= sel.len(),
                    out@.len() == j,
                    forall|m: int| 0 <= m < j ==> row_model(#[trigger] out@[m]@) == project(Self::projection_of_opt(proj), self.model()[sel@[m] as int]),
                decreases sel.len() - j,
            {
                assert(self.model()[sel@[j as int] as int] == row_model(self.rows@[sel@[j as int] as int]@));
                out.push(Self::project_row(proj, &self.rows[sel[j]]));
                j = j + 1;
            }
            assert(rows_view(out@) =~= self.output(Self::projection_of_opt(proj), sel@));
            out
        }
    }


    /// `UPDATE ... SET column = value WHERE filter` for transaction `txn`.
    /// The rows it writes are locked `FOR NO KEY UPDATE`; where one is
    /// locked against that by another transaction the statement waits
    /// (`Blocked`) and changes nothing. Returns how many rows were written.
    pub fn update(&mut self, filter: &Option<Expr>, column: usize, value: &Value, txn: u64) -> (r: Result<usize, ExecError>)
        requires
            old(self).wf(),
        ensures
            final(self).wf(),
            r is Err <==> old(self).stopped(*filter, Some(Self::update_lock()), txn),
            r is Err ==> r == Err::<usize, ExecError>(ExecError::Blocked) && *final(self) == *old(self),
            r matches Ok(n) ==> ({
                let sel = old(self).selected(*filter, Some(Self::update_lock()), txn, old(self).rows.len() as int);
                &&& n == sel.len()
                &&& final(self).locks@ == old(self).locks_after(Some(Self::update_lock()), txn, sel)
                &&& final(self).rows.len() == old(self).rows.len()
                &&& forall|i: int| 0 <= i < old(self).rows.len() ==> #[trigger] final(self).model()[i] == if sel.contains(i as usize) && column < old(self).model()[i].len() {
                    old(self).model()[i].update(column as int, value@)
                } else {
                    old(self).model()[i]
                }
            }),
    {
        let lock = LockingClause { strength: LockStrength::NoKeyUpdate, wait: WaitPolicy::Wait };
        let sel = match self.select_positions(filter, Some(lock), txn) {
            Ok(sel) => sel,
            Err(e) => return Err(e),
        };
        proof {
            self.lemma_selected_bounded(*filter, Some(lock), txn, self.rows.len() as int);
        }
        let ghost before = *self;
        self.lock_rows(&sel, txn, LockStrength::NoKeyUpdate);
        assert(self.locks@ =~= before.locks_after(Some(lock), txn, sel@));
        let ghost locked = self.locks@;
        let mut j: usize = 0;
        while j < sel.len()
            invariant
                self.wf(),
                self.locks@ == locked,
                self.rows.len() == before.rows.len(),
                j <= sel.len(),
                forall|k: int| 0 <= k < sel.len() ==> sel@[k] < before.rows.len(),
                forall|i: int| 0 <= i < before.rows.len() ==> #[trigger] self.model()[i] == if sel@.subrange(0, j as int).contains(i as usize) && column < before.model()[i].len() {
                    before.model()[i].update(column as int, value@)
                } else {
                    before.model()[i]
                },
            decreases sel.len() - j,
        {
            let idx = sel[j];
            let ghost prev = sel@.subrange(0, j as int);
            let mut row = Self::copy_row(&self.rows[idx]);
            if column < row.len() {
                row.set(column, copy_value(value));
                assert(row_model(row@) =~= row_model(self.rows@[idx as int]@).update(column as int, value@));
            }
            let ghost mid = self.model();
            self.rows.set(idx, row);
            assert(sel@.subrange(0, j + 1) =~= prev.push(idx));
            assert forall|i: int| 0 <= i < before.rows.len() implies
                #[trigger] self.model()[i] == if sel@.subrange(0, j + 1).contains(i as usize) && column < before.model()[i].len() {
                    before.model()[i].update(column as int, value@)
                } else {
                    before.model()[i]
                } by {
                let cur = prev.push(idx);
                assert(mid[i] == (if prev.contains(i as usize) && column < before.model()[i].len() {
                    before.model()[i].update(column as int, value@)
                } else {
                    before.model()[i]
                }));
                if prev.contains(i as usize) {
                    let w = choose|w: int| 0 <= w < prev.len() && prev[w] == i as usize;
                    assert(cur[w] == i as usize);
                }
                if idx == i as usize {
                    assert(cur[prev.len() as int] == idx);
                }
                if cur.contains(i as usize) {
                    let w = choose|w: int| 0 <= w < cur.len() && cur[w] == i as usize;
                    if w < prev.len() {
                        assert(prev[w] == i as usize);
                    }
                }
            }
            j = j + 1;
        }
        assert(sel@.subrange(0, sel.len() as int) =~= sel@);
        Ok(sel.len())
    }

    /// The lock an `UPDATE` takes on the rows it writes.
    pub open spec fn update_lock() -> LockingClause {
        LockingClause { strength: LockStrength::NoKeyUpdate, wait: WaitPolicy::Wait }
    }

    /// Ends transaction `txn`: every lock it holds is released.
    pub fn release(&mut self, txn: u64)
        requires
            old(self).wf(),
        ensures
            final(self).wf(),
            final(self).rows == old(self).rows,
            final(self).locks.len() == old(self).locks.len(),
            forall|i: int| 0 <= i < old(self).locks.len() ==> #[trigger] final(self).locks@[i] == released(old(self).locks@[i], txn),
    {
        let mut i: usize = 0;
        while i < self.locks.len()
            invariant
                self.wf(),
                self.rows == old(self).rows,
                self.locks.len() == old(self).locks.len(),
                i <= self.locks.len(),
                forall|k: int| 0 <= k < i ==> #[trigger] self.locks@[k] == released(old(self).locks@[k], txn),
                forall|k: int| i <= k < self.locks.len() ==> #[trigger] self.locks@[k] == old(self).locks@[k],
            decreases self.locks.len() - i,
        {
            if let Some(l) = self.locks[i] {
                if l.holder == txn {
                    self.locks.set(i, None);
                }
            }
            i = i + 1;
        }
    }

    fn select_positions(&self, filter: &Option<Expr>, locking: Option<LockingClause>, txn: u64) -> (r: Result<Vec<usize>, ExecError>)
        requires
            self.wf(),
        ensures
            r is Err <==> self.stopped(*filter, locking, txn),
            r matches Err(e) ==> e == (if locking.unwrap().wait == WaitPolicy::NoWait {
                ExecError::LockNotObtainable
            } else {
                ExecError::Blocked
            }),
            r matches Ok(v) ==> v@ == self.selected(*filter, locking, txn, self.rows.len() as int),
    {
        let mut sel: Vec<usize> = Vec::new();
        let mut i: usize = 0;
        while i < self.rows.len()
            invariant
                self.wf(),
                i <= self.rows.len(),
                sel@ == self.selected(*filter, locking, txn, i as int),
                forall|k: int| 0 <= k < i ==> !(passes(*filter, self.model()[k]) && stops(locking, #[trigger] self.locks@[k], txn)),
            decreases self.rows.len() - i,
        {
            let pass = row_passes(filter, &self.rows[i]);
            assert(self.model()[i as int] == row_model(self.rows@[i as int]@));
            if pass {
                match locking {
                    Some(c) => {
                        if lock_conflicts(self.locks[i], txn, c.strength) {
                            if c.wait == WaitPolicy::NoWait {
                                return Err(ExecError::LockNotObtainable);
                            } else if c.wait == WaitPolicy::Wait {
                                return Err(ExecError::Blocked);
                            }
                        } else {
                            sel.push(i);
                        }
                    },
                    None => {
                        sel.push(i);
                    },
                }
            }
            i = i + 1;
        }
        Ok(sel)
    }
}

} // verus!
