use vstd::prelude::*;
use crate::expression::Expr;

verus! {

/// How strongly a selecting statement locks the rows it returns.
#[derive(PartialEq, Eq, Structural, Clone, Copy, Debug)]
pub enum LockStrength {
    /// `FOR UPDATE`: exclusive.
    Update,
    /// `FOR NO KEY UPDATE`: exclusive, but lets rows that reference the key be written.
    NoKeyUpdate,
    /// `FOR KEY SHARE`: what a reference to the row's key takes.
    KeyShare,
}

/// What a locking statement does on a row that another transaction holds.
#[derive(PartialEq, Eq, Structural, Clone, Copy, Debug)]
pub enum WaitPolicy {
    /// Block until the lock is released.
    Wait,
    /// Fail at once.
    NoWait,
    /// Leave the row out of the result.
    SkipLocked,
}

#[derive(PartialEq, Eq, Structural, Clone, Copy, Debug)]
pub struct LockingClause {
    pub strength: LockStrength,
    pub wait: WaitPolicy,
}

/// A select statement over one table: a projection (`None` for every
/// column), a predicate and a locking clause.
#[derive(Debug)]
pub struct SelectStatement {
    pub projection: Option<Vec<Expr>>,
    pub filter: Option<Expr>,
    pub locking: Option<LockingClause>,
}

impl SelectStatement {
    /// Every column of every row.
    pub fn all() -> (r: SelectStatement)
        ensures
            r.projection is None,
            r.filter is None,
            r.locking is None,
    {
        SelectStatement { projection: None, filter: None, locking: None }
    }

    /// Replaces the projection with `exprs`.
    pub fn select(self, exprs: Vec<Expr>) -> (r: SelectStatement)
        ensures
            r.projection == Some(exprs),
            r.filter == self.filter,
            r.locking == self.locking,
    {
        SelectStatement { projection: Some(exprs), ..self }
    }

    /// Adds `pred` to the predicate: it becomes the predicate where there
    /// was none, else it is joined to the present one with `AND`.
    pub fn filter(self, pred: Expr) -> (r: SelectStatement)
        ensures
            r.projection == self.projection,
            r.filter == Some(match self.filter {
                Some(f) => Expr::Grouped(Box::new(Expr::And(Box::new(f), Box::new(pred)))),
                None => pred,
            }),
            r.locking == self.locking,
    {
        let SelectStatement { projection, filter, locking } = self;
        let combined = match filter {
            Some(f) => f.and(pred),
            None => pred,
        };
        SelectStatement { projection, filter: Some(combined), locking }
    }

    fn with_strength(self, strength: LockStrength) -> (r: SelectStatement)
        ensures
            r.projection == self.projection,
            r.filter == self.filter,
            r.locking == Some(LockingClause { strength, wait: WaitPolicy::Wait }),
    {
        SelectStatement { locking: Some(LockingClause { strength, wait: WaitPolicy::Wait }), ..self }
    }

    /// `FOR UPDATE`, waiting for locks held elsewhere.
    pub fn for_update(self) -> (r: SelectStatement)
        ensures
            r.projection == self.projection,
            r.filter == self.filter,
            r.locking == Some(LockingClause { strength: LockStrength::Update, wait: WaitPolicy::Wait }),
    {
        self.with_strength(LockStrength::Update)
    }

    /// `FOR NO KEY UPDATE`, waiting for locks held elsewhere.
    pub fn for_no_key_update(self) -> (r: SelectStatement)
        ensures
            r.projection == self.projection,
            r.filter == self.filter,
            r.locking == Some(LockingClause { strength: LockStrength::NoKeyUpdate, wait: WaitPolicy::Wait }),
    {
        self.with_strength(LockStrength::NoKeyUpdate)
    }

    /// `FOR KEY SHARE`, the lock a reference to a row's key takes, waiting
    /// for locks held elsewhere.
    pub fn for_key_share(self) -> (r: SelectStatement)
        ensures
            r.projection == self.projection,
            r.filter == self.filter,
            r.locking == Some(LockingClause { strength: LockStrength::KeyShare, wait: WaitPolicy::Wait }),
    {
        self.with_strength(LockStrength::KeyShare)
    }

    fn with_wait(self, wait: WaitPolicy) -> (r: SelectStatement)
        requires
            self.locking is Some,
        ensures
            r.projection == self.projection,
            r.filter == self.filter,
            r.locking == Some(LockingClause { strength: self.locking.unwrap().strength, wait }),
    {
        let strength = match self.locking {
            Some(l) => l.strength,
            None => LockStrength::Update,
        };
        SelectStatement { locking: Some(LockingClause { strength, wait }), ..self }
    }

    /// `NOWAIT`: a locked row fails the statement at once.
    pub fn no_wait(self) -> (r: SelectStatement)
        requires
            self.locking is Some,
        ensures
            r.projection == self.projection,
            r.filter == self.filter,
            r.locking == Some(LockingClause { strength: self.locking.unwrap().strength, wait: WaitPolicy::NoWait }),
    {
        self.with_wait(WaitPolicy::NoWait)
    }

    /// `SKIP LOCKED`: a locked row is left out.
    pub fn skip_locked(self) -> (r: SelectStatement)
        requires
            self.locking is Some,
        ensures
            r.projection == self.projection,
            r.filter == self.filter,
            r.locking == Some(LockingClause { strength: self.locking.unwrap().strength, wait: WaitPolicy::SkipLocked }),
    {
        self.with_wait(WaitPolicy::SkipLocked)
    }
}

} // verus!
