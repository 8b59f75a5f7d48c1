use vstd::prelude::*;
use crate::text::{chars_of, push_char, push_str};
use crate::query::{LockStrength, LockingClause, WaitPolicy};
use crate::expression::{Expr, Value, ValueModel};
use crate::eval::copy_value;
use crate::query::SelectStatement;

verus! {

/// `s` with every quote character `q` doubled.
pub open spec fn escaped(s: Seq<char>, q: char) -> Seq<char>
    decreases s.len(),
{
    if s.len() == 0 {
        Seq::empty()
    } else if s.last() == q {
        escaped(s.drop_last(), q) + seq![q, q]
    } else {
        escaped(s.drop_last(), q).push(s.last())
    }
}

/// An identifier as SQL text: between quote characters `q`, so that a name
/// that is a keyword (`select`, `join`) still names a table or a column.
pub open spec fn quoted(name: Seq<char>, q: char) -> Seq<char> {
    seq![q] + escaped(name, q) + seq![q]
}

/// Renders `name` as an identifier quoted with `q`.
pub fn quote_identifier(name: &str, q: char) -> (r: String)
    ensures
        r@ == quoted(name@, q),
{
    let cs = chars_of(name);
    let mut out = String::new();
    push_char(&mut out, q);
    let mut i: usize = 0;
    while i < cs.len()
        invariant
            i <= cs.len(),
            out@ == seq![q] + escaped(cs@.subrange(0, i as int), q),
        decreases cs.len() - i,
    {
        let c = cs[i];
        assert(cs@.subrange(0, i + 1).drop_last() =~= cs@.subrange(0, i as int));
        if c == q {
            push_char(&mut out, q);
            push_char(&mut out, q);
            assert(out@ =~= seq![q] + escaped(cs@.subrange(0, i + 1), q));
        } else {
            push_char(&mut out, c);
            assert(out@ =~= seq![q] + escaped(cs@.subrange(0, i + 1), q));
        }
        i = i + 1;
    }
    assert(cs@.subrange(0, cs.len() as int) =~= cs@);
    push_char(&mut out, q);
    out
}

/// What a target dialect can express, consulted when SQL is generated.
#[derive(PartialEq, Eq, Structural, Clone, Copy, Debug)]
pub struct Backend {
    /// Row-level `FOR UPDATE`.
    pub row_locks: bool,
    /// The weaker `FOR NO KEY UPDATE` and `FOR KEY SHARE`.
    pub key_locks: bool,
    /// `NOWAIT` and `SKIP LOCKED`.
    pub wait_modifiers: bool,
    /// Placeholders `$1`, `$2`, ... rather than `?`.
    pub numbered_params: bool,
    /// The character identifiers are quoted with.
    pub quote: char,
}

/// A clause the target backend cannot express.
#[derive(PartialEq, Eq, Structural, Clone, Copy, Debug)]
pub enum GenerationError {
    UnsupportedClause,
}

impl Backend {
    /// A dialect with every locking clause.
    pub fn postgres() -> (r: Backend)
        ensures
            r == (Backend { row_locks: true, key_locks: true, wait_modifiers: true, numbered_params: true, quote: '"' }),
    {
        Backend { row_locks: true, key_locks: true, wait_modifiers: true, numbered_params: true, quote: '"' }
    }

    /// A dialect with `FOR UPDATE` and its wait modifiers, but no key locks.
    pub fn mysql() -> (r: Backend)
        ensures
            r == (Backend { row_locks: true, key_locks: false, wait_modifiers: true, numbered_params: false, quote: '`' }),
    {
        Backend { row_locks: true, key_locks: false, wait_modifiers: true, numbered_params: false, quote: '`' }
    }

    /// A dialect without row-level locks.
    pub fn sqlite() -> (r: Backend)
        ensures
            r == (Backend { row_locks: false, key_locks: false, wait_modifiers: false, numbered_params: false, quote: '"' }),
    {
        Backend { row_locks: false, key_locks: false, wait_modifiers: false, numbered_params: false, quote: '"' }
    }

    /// Whether this backend can express `c`.
    pub open spec fn supports(self, c: LockingClause) -> bool {
        &&& self.row_locks
        &&& (c.strength == LockStrength::Update || self.key_locks)
        &&& (c.wait == WaitPolicy::Wait || self.wait_modifiers)
    }
}

/// The SQL text of a lock strength.
pub open spec fn strength_sql(s: LockStrength) -> Seq<char> {
    match s {
        LockStrength::Update => " FOR UPDATE"@,
        LockStrength::NoKeyUpdate => " FOR NO KEY UPDATE"@,
        LockStrength::KeyShare => " FOR KEY SHARE"@,
    }
}

/// The SQL text of a wait policy.
pub open spec fn wait_sql(w: WaitPolicy) -> Seq<char> {
    match w {
        WaitPolicy::Wait => Seq::empty(),
        WaitPolicy::NoWait => " NOWAIT"@,
        WaitPolicy::SkipLocked => " SKIP LOCKED"@,
    }
}

/// Renders a locking clause for `backend`; one it cannot express is an
/// error, never dropped or weakened.
pub fn render_locking(backend: Backend, c: LockingClause) -> (r: Result<String, GenerationError>)
    ensures
        r is Err <==> !backend.supports(c),
        r matches Ok(s) ==> s@ == strength_sql(c.strength) + wait_sql(c.wait),
{
    if !backend.row_locks || (c.strength != LockStrength::Update && !backend.key_locks)
        || (c.wait != WaitPolicy::Wait && !backend.wait_modifiers) {
        return Err(GenerationError::UnsupportedClause);
    }
    let mut out = String::new();
    match c.strength {
        LockStrength::Update => push_str(&mut out, " FOR UPDATE"),
        LockStrength::NoKeyUpdate => push_str(&mut out, " FOR NO KEY UPDATE"),
        LockStrength::KeyShare => push_str(&mut out, " FOR KEY SHARE"),
    }
    match c.wait {
        WaitPolicy::Wait => {},
        WaitPolicy::NoWait => push_str(&mut out, " NOWAIT"),
        WaitPolicy::SkipLocked => push_str(&mut out, " SKIP LOCKED"),
    }
    assert(out@ =~= strength_sql(c.strength) + wait_sql(c.wait));
    Ok(out)
}

/// The decimal digits of `n`.
pub open spec fn decimal(n: nat) -> Seq<char>
    decreases n,
{
    if n < 10 {
        seq![digit(n)]
    } else {
        decimal(n / 10).push(digit(n % 10))
    }
}

pub open spec fn digit(d: nat) -> char {
    if d == 0 { '0' } else if d == 1 { '1' } else if d == 2 { '2' } else if d == 3 { '3' } else if d == 4 { '4' }
    else if d == 5 { '5' } else if d == 6 { '6' } else if d == 7 { '7' } else if d == 8 { '8' } else { '9' }
}

fn digit_char(d: usize) -> (c: char)
    requires
        d < 10,
    ensures
        c == digit(d as nat),
{
    if d == 0 { '0' } else if d == 1 { '1' } else if d == 2 { '2' } else if d == 3 { '3' } else if d == 4 { '4' }
    else if d == 5 { '5' } else if d == 6 { '6' } else if d == 7 { '7' } else if d == 8 { '8' } else { '9' }
}

fn push_decimal(out: &mut String, n: usize)
    ensures
        final(out)@ == old(out)@ + decimal(n as nat),
    decreases n,
{
    if n >= 10 {
        push_decimal(out, n / 10);
    }
    push_char(out, digit_char(n % 10));
    assert(final(out)@ =~= old(out)@ + decimal(n as nat));
}

/// The placeholder of the `k`-th bound parameter, counting from one:
/// `$k` where parameters are numbered, `?` elsewhere.
pub open spec fn placeholder(numbered: bool, k: nat) -> Seq<char> {
    if numbered {
        seq!['$'] + decimal(k)
    } else {
        seq!['?']
    }
}

/// How many parameters `e` binds.
pub open spec fn bind_count(e: Expr) -> nat
    decreases e,
{
    match e {
        Expr::Column { .. } => 0,
        Expr::Bind { .. } => 1,
        Expr::Concat(a, b) => bind_count(*a) + bind_count(*b),
        Expr::Like(a, b) => bind_count(*a) + bind_count(*b),
        Expr::NotLike(a, b) => bind_count(*a) + bind_count(*b),
        Expr::Eq(a, b) => bind_count(*a) + bind_count(*b),
        Expr::And(a, b) => bind_count(*a) + bind_count(*b),
        Expr::Or(a, b) => bind_count(*a) + bind_count(*b),
        Expr::EqAny(a, vs) => bind_count(*a) + vs@.len(),
        Expr::Grouped(a) => bind_count(*a),
        Expr::CountStar => 0,
        Expr::Max(a) => bind_count(*a),
    }
}

/// The placeholders of `n` parameters after the first `start`, joined by commas.
pub open spec fn placeholder_list(numbered: bool, start: nat, n: nat) -> Seq<char>
    decreases n,
{
    if n == 0 {
        Seq::empty()
    } else if n == 1 {
        placeholder(numbered, start + 1)
    } else {
        placeholder_list(numbered, start, (n - 1) as nat) + seq![',', ' '] + placeholder(numbered, start + n)
    }
}

/// The SQL text of `e`, where `start` parameters were bound before it.
pub open spec fn sql_text(e: Expr, numbered: bool, q: char, start: nat) -> Seq<char>
    decreases e,
{
    match e {
        Expr::Column { name, .. } => quoted(name@, q),
        Expr::Bind { .. } => placeholder(numbered, start + 1),
        Expr::Concat(a, b) => sql_text(*a, numbered, q, start) + " || "@ + sql_text(*b, numbered, q, start + bind_count(*a)),
        Expr::Like(a, b) => sql_text(*a, numbered, q, start) + " LIKE "@ + sql_text(*b, numbered, q, start + bind_count(*a)),
        Expr::NotLike(a, b) => sql_text(*a, numbered, q, start) + " NOT LIKE "@ + sql_text(*b, numbered, q, start + bind_count(*a)),
        Expr::Eq(a, b) => sql_text(*a, numbered, q, start) + " = "@ + sql_text(*b, numbered, q, start + bind_count(*a)),
        Expr::And(a, b) => sql_text(*a, numbered, q, start) + " AND "@ + sql_text(*b, numbered, q, start + bind_count(*a)),
        Expr::Or(a, b) => sql_text(*a, numbered, q, start) + " OR "@ + sql_text(*b, numbered, q, start + bind_count(*a)),
        Expr::EqAny(a, vs) => sql_text(*a, numbered, q, start) + " IN ("@
            + placeholder_list(numbered, start + bind_count(*a), vs@.len()) + seq![')'],
        Expr::Grouped(a) => seq!['('] + sql_text(*a, numbered, q, start) + seq![')'],
        Expr::CountStar => "COUNT(*)"@,
        Expr::Max(a) => "MAX("@ + sql_text(*a, numbered, q, start) + seq![')'],
    }
}

/// The parameters `e` binds, in the order their placeholders appear.
pub open spec fn bound_values(e: Expr) -> Seq<ValueModel>
    decreases e,
{
    match e {
        Expr::Column { .. } => Seq::empty(),
        Expr::Bind { value, .. } => seq![value@],
        Expr::Concat(a, b) => bound_values(*a) + bound_values(*b),
        Expr::Like(a, b) => bound_values(*a) + bound_values(*b),
        Expr::NotLike(a, b) => bound_values(*a) + bound_values(*b),
        Expr::Eq(a, b) => bound_values(*a) + bound_values(*b),
        Expr::And(a, b) => bound_values(*a) + bound_values(*b),
        Expr::Or(a, b) => bound_values(*a) + bound_values(*b),
        Expr::EqAny(a, vs) => bound_values(*a) + vs@.map_values(|v: Value| v@),
        Expr::Grouped(a) => bound_values(*a),
        Expr::CountStar => Seq::empty(),
        Expr::Max(a) => bound_values(*a),
    }
}

pub open spec fn values_view(vs: Seq<Value>) -> Seq<ValueModel> {
    vs.map_values(|v: Value| v@)
}

fn push_placeholder(out: &mut String, numbered: bool, k: usize)
    ensures
        final(out)@ == old(out)@ + placeholder(numbered, k as nat),
{
    if numbered {
        push_char(out, '$');
        push_decimal(out, k);
    } else {
        push_char(out, '?');
    }
    assert(final(out)@ =~= old(out)@ + placeholder(numbered, k as nat));
}

fn render_list(vs: &Vec<Value>, numbered: bool, out: &mut String, binds: &mut Vec<Value>)
    requires
        old(binds).len() + vs.len() < usize::MAX,
    ensures
        final(out)@ == old(out)@ + placeholder_list(numbered, old(binds).len() as nat, vs.len() as nat),
        values_view(final(binds)@) == values_view(old(binds)@) + values_view(vs@),
        final(binds).len() == old(binds).len() + vs.len(),
{
    let ghost base = out@;
    let ghost bbase = binds@;
    let start = binds.len();
    let mut i: usize = 0;
    while i < vs.len()
        invariant
            start == bbase.len(),
            start + vs.len() < usize::MAX,
            i <= vs.len(),
            out@ == base + placeholder_list(numbered, start as nat, i as nat),
            binds.len() == start + i,
            values_view(binds@) == values_view(bbase) + values_view(vs@.subrange(0, i as int)),
        decreases vs.len() - i,
    {
        let ghost prev_binds = binds@;
        if i > 0 {
            push_char(out, ',');
            push_char(out, ' ');
        }
        push_placeholder(out, numbered, start + i + 1);
        let v = copy_value(&vs[i]);
        binds.push(v);
        assert(values_view(binds@) =~= values_view(prev_binds).push(vs@[i as int]@));
        assert(values_view(vs@.subrange(0, i + 1)) =~= values_view(vs@.subrange(0, i as int)).push(vs@[i as int]@));
        if i == 0 {
            assert(placeholder_list(numbered, start as nat, 1) == placeholder(numbered, start as nat + 1));
        } else {
            assert(placeholder_list(numbered, start as nat, (i + 1) as nat) == placeholder_list(numbered, start as nat, i as nat)
                + seq![',', ' '] + placeholder(numbered, (start + i + 1) as nat));
        }
        assert(out@ =~= base + placeholder_list(numbered, start as nat, (i + 1) as nat));
        assert(values_view(binds@) =~= values_view(bbase) + values_view(vs@.subrange(0, i + 1)));
        i = i + 1;
    }
    assert(vs@.subrange(0, vs.len() as int) =~= vs@);
}

#[verifier::rlimit(40)]
fn render_into(e: &Expr, numbered: bool, q: char, out: &mut String, binds: &mut Vec<Value>)
    requires
        old(binds).len() + bind_count(*e) < usize::MAX,
    ensures
        final(out)@ == old(out)@ + sql_text(*e, numbered, q, old(binds).len() as nat),
        values_view(final(binds)@) == values_view(old(binds)@) + bound_values(*e),
        final(binds).len() == old(binds).len() + bind_count(*e),
    decreases e,
{
    match e {
        Expr::Column { name, .. } => {
            let qi = quote_identifier(name.as_str(), q);
            push_str(out, qi.as_str());
            assert(values_view(final(binds)@) =~= values_view(old(binds)@) + bound_values(*e));
        },
        Expr::Bind { value, .. } => {
            push_placeholder(out, numbered, binds.len() + 1);
            binds.push(copy_value(value));
            assert(values_view(final(binds)@) =~= values_view(old(binds)@) + bound_values(*e));
        },
        Expr::Concat(a, b) | Expr::Like(a, b) | Expr::NotLike(a, b) | Expr::Eq(a, b) | Expr::And(a, b) | Expr::Or(a, b) => {
            render_into(a, numbered, q, out, binds);
            match e {
                Expr::Concat(..) => push_str(out, " || "),
                Expr::Like(..) => push_str(out, " LIKE "),
                Expr::NotLike(..) => push_str(out, " NOT LIKE "),
                Expr::And(..) => push_str(out, " AND "),
                Expr::Or(..) => push_str(out, " OR "),
                _ => push_str(out, " = "),
            }
            render_into(b, numbered, q, out, binds);
            assert(final(out)@ =~= old(out)@ + sql_text(*e, numbered, q, old(binds).len() as nat));
            assert(values_view(final(binds)@) =~= values_view(old(binds)@) + bound_values(*e));
        },
        Expr::EqAny(a, vs) => {
            render_into(a, numbered, q, out, binds);
            push_str(out, " IN (");
            render_list(vs, numbered, out, binds);
            push_char(out, ')');
            assert(final(out)@ =~= old(out)@ + sql_text(*e, numbered, q, old(binds).len() as nat));
            assert(values_view(final(binds)@) =~= values_view(old(binds)@) + bound_values(*e));
        },
        Expr::Grouped(a) => {
            push_char(out, '(');
            render_into(a, numbered, q, out, binds);
            push_char(out, ')');
            assert(final(out)@ =~= old(out)@ + sql_text(*e, numbered, q, old(binds).len() as nat));
        },
        Expr::CountStar => {
            push_str(out, "COUNT(*)");
            assert(values_view(final(binds)@) =~= values_view(old(binds)@) + bound_values(*e));
        },
        Expr::Max(a) => {
            push_str(out, "MAX(");
            render_into(a, numbered, q, out, binds);
            push_char(out, ')');
            assert(final(out)@ =~= old(out)@ + sql_text(*e, numbered, q, old(binds).len() as nat));
        },
    }
}

/// Renders `e` for `backend`: its SQL text, and the values of its bound
/// parameters in the order their placeholders appear.
pub fn render_expr(e: &Expr, backend: Backend) -> (r: (String, Vec<Value>))
    requires
        bind_count(*e) < usize::MAX,
    ensures
        r.0@ == sql_text(*e, backend.numbered_params, backend.quote, 0),
        values_view(r.1@) == bound_values(*e),
{
    let mut out = String::new();
    let mut binds: Vec<Value> = Vec::new();
    render_into(e, backend.numbered_params, backend.quote, &mut out, &mut binds);
    assert(out@ =~= sql_text(*e, backend.numbered_params, backend.quote, 0));
    assert(values_view(binds@) =~= bound_values(*e));
    (out, binds)
}

/// How many parameters the expressions `es` bind together.
pub open spec fn list_bind_count(es: Seq<Expr>) -> nat
    decreases es.len(),
{
    if es.len() == 0 {
        0
    } else {
        list_bind_count(es.drop_last()) + bind_count(es.last())
    }
}

/// The expressions `es` as SQL text, joined by commas.
pub open spec fn list_text(es: Seq<Expr>, numbered: bool, q: char, start: nat) -> Seq<char>
    decreases es.len(),
{
    if es.len() == 0 {
        Seq::empty()
    } else if es.len() == 1 {
        sql_text(es[0], numbered, q, start)
    } else {
        list_text(es.drop_last(), numbered, q, start) + seq![',', ' ']
            + sql_text(es.last(), numbered, q, start + list_bind_count(es.drop_last()))
    }
}

/// The parameters the expressions `es` bind, in order.
pub open spec fn list_values(es: Seq<Expr>) -> Seq<ValueModel>
    decreases es.len(),
{
    if es.len() == 0 {
        Seq::empty()
    } else {
        list_values(es.drop_last()) + bound_values(es.last())
    }
}

fn render_exprs(es: &Vec<Expr>, numbered: bool, q: char, out: &mut String, binds: &mut Vec<Value>)
    requires
        old(binds).len() + list_bind_count(es@) < usize::MAX,
    ensures
        final(out)@ == old(out)@ + list_text(es@, numbered, q, old(binds).len() as nat),
        values_view(final(binds)@) == values_view(old(binds)@) + list_values(es@),
        final(binds).len() == old(binds).len() + list_bind_count(es@),
{
    let ghost base = out@;
    let ghost bbase = binds@;
    let mut i: usize = 0;
    proof {
        lemma_list_bind_count_prefix(es@, 0);
    }
    while i < es.len()
        invariant
            i <= es.len(),
            bbase.len() + list_bind_count(es@) < usize::MAX,
            forall|k: int| 0 <= k <= es.len() ==> #[trigger] list_bind_count(es@.subrange(0, k)) <= list_bind_count(es@),
            out@ == base + list_text(es@.subrange(0, i as int), numbered, q, bbase.len() as nat),
            values_view(binds@) == values_view(bbase) + list_values(es@.subrange(0, i as int)),
            binds.len() == bbase.len() + list_bind_count(es@.subrange(0, i as int)),
        decreases es.len() - i,
    {
        let ghost pre = es@.subrange(0, i as int);
        let ghost next = es@.subrange(0, i + 1);
        assert(next.drop_last() =~= pre);
        assert(next.last() == es@[i as int]);
        assert(list_bind_count(next) <= list_bind_count(es@));
        if i > 0 {
            push_char(out, ',');
            push_char(out, ' ');
        }
        render_into(&es[i], numbered, q, out, binds);
        assert(out@ =~= base + list_text(next, numbered, q, bbase.len() as nat));
        assert(values_view(binds@) =~= values_view(bbase) + list_values(next));
        i = i + 1;
    }
    assert(es@.subrange(0, es.len() as int) =~= es@);
}

proof fn lemma_list_bind_count_prefix(es: Seq<Expr>, k: int)
    ensures
        forall|k: int| 0 <= k <= es.len() ==> #[trigger] list_bind_count(es.subrange(0, k)) <= list_bind_count(es),
    decreases es.len(),
{
    if es.len() > 0 {
        lemma_list_bind_count_prefix(es.drop_last(), 0);
        assert forall|k: int| 0 <= k <= es.len() implies #[trigger] list_bind_count(es.subrange(0, k)) <= list_bind_count(es) by {
            if k < es.len() {
                assert(es.subrange(0, k) =~= es.drop_last().subrange(0, k));
            } else {
                assert(es.subrange(0, k) =~= es);
            }
        }
    }
}

/// The SQL text of a select statement over the table `table`.
pub open spec fn select_text(stmt: SelectStatement, table: Seq<char>, numbered: bool, q: char) -> Seq<char> {
    let proj_count = match stmt.projection {
        Some(es) => list_bind_count(es@),
        None => 0,
    };
    let proj_text = match stmt.projection {
        Some(es) => list_text(es@, numbered, q, 0),
        None => seq!['*'],
    };
    let where_text = match stmt.filter {
        Some(f) => " WHERE "@ + sql_text(f, numbered, q, proj_count),
        None => Seq::empty(),
    };
    let lock_text = match stmt.locking {
        Some(c) => strength_sql(c.strength) + wait_sql(c.wait),
        None => Seq::empty(),
    };
    "SELECT "@ + proj_text + " FROM "@ + quoted(table, q) + where_text + lock_text
}

/// The parameters of a select statement, in the order their placeholders appear.
pub open spec fn select_values(stmt: SelectStatement) -> Seq<ValueModel> {
    let proj_values = match stmt.projection {
        Some(es) => list_values(es@),
        None => Seq::empty(),
    };
    let filter_values = match stmt.filter {
        Some(f) => bound_values(f),
        None => Seq::empty(),
    };
    proj_values + filter_values
}

/// Renders `stmt`, selecting from `table`, for `backend`: the SQL text and
/// the parameters in binding order. A locking clause the backend cannot
/// express is an error.
pub fn render_select(stmt: &SelectStatement, table: &str, backend: Backend) -> (r: Result<(String, Vec<Value>), GenerationError>)
    requires
        (match stmt.projection {
            Some(es) => list_bind_count(es@),
            None => 0,
        }) + (match stmt.filter {
            Some(f) => bind_count(f),
            None => 0,
        }) < usize::MAX,
    ensures
        r is Err <==> (stmt.locking matches Some(c) && !backend.supports(c)),
        r matches Ok(p) ==> p.0@ == select_text(*stmt, table@, backend.numbered_params, backend.quote)
            && values_view(p.1@) == select_values(*stmt),
{
    let locking = match stmt.locking {
        Some(c) => match render_locking(backend, c) {
            Ok(t) => t,
            Err(e) => return Err(e),
        },
        None => String::new(),
    };
    let numbered = backend.numbered_params;
    let q = backend.quote;
    let mut out = String::new();
    let mut binds: Vec<Value> = Vec::new();
    push_str(&mut out, "SELECT ");
    match &stmt.projection {
        Some(es) => render_exprs(es, numbered, q, &mut out, &mut binds),
        None => push_char(&mut out, '*'),
    }
    let ghost after_proj = binds@;
    push_str(&mut out, " FROM ");
    let qt = quote_identifier(table, q);
    push_str(&mut out, qt.as_str());
    match &stmt.filter {
        Some(f) => {
            push_str(&mut out, " WHERE ");
            render_into(f, numbered, q, &mut out, &mut binds);
        },
        None => {},
    }
    push_str(&mut out, locking.as_str());
    assert(out@ =~= select_text(*stmt, table@, numbered, q));
    assert(values_view(binds@) =~= select_values(*stmt));
    Ok((out, binds))
}

} // verus!
