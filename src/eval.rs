use vstd::prelude::*;
use crate::expression::{Expr, Value, ValueModel};
use crate::pattern::{like_match, like_matches};
use crate::text::{chars_of, push_str};

verus! {

/// The models of the values of a row.
pub open spec fn row_model(row: Seq<Value>) -> Seq<ValueModel> {
    row.map_values(|v: Value| v@)
}

/// What `e` evaluates to on a row. A null operand gives null; an aggregate
/// has no per-row value and gives null too.
pub open spec fn eval(e: Expr, row: Seq<ValueModel>) -> ValueModel
    decreases e,
{
    match e {
        Expr::Column { index, .. } => if index < row.len() {
            row[index as int]
        } else {
            ValueModel::Null
        },
        Expr::Bind { value, .. } => value@,
        Expr::Concat(a, b) => match (eval(*a, row), eval(*b, row)) {
            (ValueModel::Text(x), ValueModel::Text(y)) => ValueModel::Text(x + y),
            _ => ValueModel::Null,
        },
        Expr::Like(a, b) => match (eval(*a, row), eval(*b, row)) {
            (ValueModel::Text(x), ValueModel::Text(p)) => ValueModel::Bool(like_match(x, p)),
            _ => ValueModel::Null,
        },
        Expr::NotLike(a, b) => match (eval(*a, row), eval(*b, row)) {
            (ValueModel::Text(x), ValueModel::Text(p)) => ValueModel::Bool(!like_match(x, p)),
            _ => ValueModel::Null,
        },
        Expr::Eq(a, b) => {
            let (x, y) = (eval(*a, row), eval(*b, row));
            if x is Null || y is Null {
                ValueModel::Null
            } else {
                ValueModel::Bool(x == y)
            }
        },
        Expr::And(a, b) => and_value(eval(*a, row), eval(*b, row)),
        Expr::Or(a, b) => or_value(eval(*a, row), eval(*b, row)),
        Expr::EqAny(a, vs) => {
            let x = eval(*a, row);
            if x is Null {
                ValueModel::Null
            } else {
                ValueModel::Bool(exists|k: int| 0 <= k < vs.len() && (#[trigger] vs@[k])@ == x)
            }
        },
        Expr::Grouped(a) => eval(*a, row),
        Expr::CountStar => ValueModel::Null,
        Expr::Max(_) => ValueModel::Null,
    }
}

/// `AND` in three-valued logic: false wins, then null.
pub open spec fn and_value(x: ValueModel, y: ValueModel) -> ValueModel {
    if x == ValueModel::Bool(false) || y == ValueModel::Bool(false) {
        ValueModel::Bool(false)
    } else if x == ValueModel::Bool(true) && y == ValueModel::Bool(true) {
        ValueModel::Bool(true)
    } else {
        ValueModel::Null
    }
}

/// `OR` in three-valued logic: true wins, then null.
pub open spec fn or_value(x: ValueModel, y: ValueModel) -> ValueModel {
    if x == ValueModel::Bool(true) || y == ValueModel::Bool(true) {
        ValueModel::Bool(true)
    } else if x == ValueModel::Bool(false) && y == ValueModel::Bool(false) {
        ValueModel::Bool(false)
    } else {
        ValueModel::Null
    }
}

fn logic_value(x: &Value, y: &Value, conj: bool) -> (r: Value)
    ensures
        r@ == if conj { and_value(x@, y@) } else { or_value(x@, y@) },
{
    let dominant = !conj;
    match (x, y) {
        (Value::Bool(a), _) if *a == dominant => Value::Bool(dominant),
        (_, Value::Bool(b)) if *b == dominant => Value::Bool(dominant),
        (Value::Bool(_), Value::Bool(_)) => Value::Bool(!dominant),
        _ => Value::Null,
    }
}

/// Whether a row passes a filter: only a definite true does.
pub open spec fn passes(filter: Option<Expr>, row: Seq<ValueModel>) -> bool {
    match filter {
        None => true,
        Some(f) => eval(f, row) == ValueModel::Bool(true),
    }
}

/// Compares two values as `=` does on non-null operands.
pub fn values_equal(a: &Value, b: &Value) -> (r: bool)
    ensures
        r == (a@ == b@),
{
    match (a, b) {
        (Value::Null, Value::Null) => true,
        (Value::Int(x), Value::Int(y)) => *x == *y,
        (Value::Text(x), Value::Text(y)) => <String as PartialEq>::eq(x, y),
        (Value::Bool(x), Value::Bool(y)) => *x == *y,
        _ => false,
    }
}

/// A copy of `v`.
pub fn copy_value(v: &Value) -> (r: Value)
    ensures
        r@ == v@,
{
    match v {
        Value::Null => Value::Null,
        Value::Int(i) => Value::Int(*i),
        Value::Text(s) => Value::Text(s.clone()),
        Value::Bool(b) => Value::Bool(*b),
    }
}

fn one_of(x: &Value, vs: &Vec<Value>) -> (r: bool)
    ensures
        r == exists|k: int| 0 <= k < vs.len() && (#[trigger] vs@[k])@ == x@,
{
    let mut i: usize = 0;
    while i < vs.len()
        invariant
            i <= vs.len(),
            forall|k: int| 0 <= k < i ==> (#[trigger] vs@[k])@ != x@,
        decreases vs.len() - i,
    {
        if values_equal(&vs[i], x) {
            return true;
        }
        i = i + 1;
    }
    false
}

fn concat_values(a: &Value, b: &Value) -> (r: Value)
    ensures
        r@ == (match (a@, b@) {
            (ValueModel::Text(x), ValueModel::Text(y)) => ValueModel::Text(x + y),
            _ => ValueModel::Null,
        }),
{
    match (a, b) {
        (Value::Text(x), Value::Text(y)) => {
            let mut s = x.clone();
            push_str(&mut s, y.as_str());
            Value::Text(s)
        },
        _ => Value::Null,
    }
}

fn like_values(a: &Value, b: &Value, negated: bool) -> (r: Value)
    ensures
        r@ == (match (a@, b@) {
            (ValueModel::Text(x), ValueModel::Text(p)) => ValueModel::Bool(
                if negated { !like_match(x, p) } else { like_match(x, p) },
            ),
            _ => ValueModel::Null,
        }),
{
    match (a, b) {
        (Value::Text(x), Value::Text(p)) => {
            let m = like_matches(&chars_of(x.as_str()), &chars_of(p.as_str()));
            Value::Bool(if negated { !m } else { m })
        },
        _ => Value::Null,
    }
}

impl Expr {
    /// Evaluates the expression on `row`.
    pub fn evaluate(&self, row: &Vec<Value>) -> (r: Value)
        ensures
            r@ == eval(*self, row_model(row@)),
        decreases self,
    {
        match self {
            Expr::Column { index, .. } => if *index < row.len() {
                copy_value(&row[*index])
            } else {
                Value::Null
            },
            Expr::Bind { value, .. } => copy_value(value),
            Expr::Concat(a, b) => concat_values(&a.evaluate(row), &b.evaluate(row)),
            Expr::Like(a, b) => like_values(&a.evaluate(row), &b.evaluate(row), false),
            Expr::NotLike(a, b) => like_values(&a.evaluate(row), &b.evaluate(row), true),
            Expr::Eq(a, b) => {
                let x = a.evaluate(row);
                let y = b.evaluate(row);
                match (&x, &y) {
                    (Value::Null, _) | (_, Value::Null) => Value::Null,
                    _ => Value::Bool(values_equal(&x, &y)),
                }
            },
            Expr::And(a, b) => logic_value(&a.evaluate(row), &b.evaluate(row), true),
            Expr::Or(a, b) => logic_value(&a.evaluate(row), &b.evaluate(row), false),
            Expr::EqAny(a, vs) => {
                let x = a.evaluate(row);
                match x {
                    Value::Null => Value::Null,
                    _ => Value::Bool(one_of(&x, vs)),
                }
            },
            Expr::Grouped(a) => a.evaluate(row),
            Expr::CountStar => Value::Null,
            Expr::Max(_) => Value::Null,
        }
    }
}

/// Decides `passes(filter, row)`.
pub fn row_passes(filter: &Option<Expr>, row: &Vec<Value>) -> (r: bool)
    ensures
        r == passes(*filter, row_model(row@)),
{
    match filter {
        None => true,
        Some(f) => match f.evaluate(row) {
            Value::Bool(b) => b,
            _ => false,
        },
    }
}

} // verus!
