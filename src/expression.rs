use vstd::prelude::*;
use crate::sql_types::{
    BaseType, SqlType, TextOrNullableText, concat_type, like_type, eq_type,
    concat_result_type, like_result_type, eq_result_type,
};

verus! {

/// A value held in a row or bound as a parameter.
#[derive(Clone, Debug, PartialEq, Eq)]
pub enum Value {
    Null,
    Int(i64),
    Text(String),
    Bool(bool),
}

/// The mathematical content of a `Value`.
pub enum ValueModel {
    Null,
    Int(int),
    Text(Seq<char>),
    Bool(bool),
}

impl View for Value {
    type V = ValueModel;

    open spec fn view(&self) -> ValueModel {
        match self {
            Value::Null => ValueModel::Null,
            Value::Int(i) => ValueModel::Int(*i as int),
            Value::Text(s) => ValueModel::Text(s@),
            Value::Bool(b) => ValueModel::Bool(*b),
        }
    }
}

/// An expression node. Operator nodes own their operands.
#[derive(Debug)]
pub enum Expr {
    /// The column at position `index` of the row, named `name`.
    Column { index: usize, name: String, ty: SqlType },
    /// A bound parameter.
    Bind { value: Value, ty: SqlType },
    Concat(Box<Expr>, Box<Expr>),
    Like(Box<Expr>, Box<Expr>),
    NotLike(Box<Expr>, Box<Expr>),
    Eq(Box<Expr>, Box<Expr>),
    /// `a AND b`.
    And(Box<Expr>, Box<Expr>),
    /// `a OR b`.
    Or(Box<Expr>, Box<Expr>),
    /// `e IN (...)`: whether the value is one of a list, such as the rows of
    /// a single-column subselect.
    EqAny(Box<Expr>, Vec<Value>),
    /// Explicit parentheses; no meaning beyond precedence.
    Grouped(Box<Expr>),
    /// `COUNT(*)`, an aggregate.
    CountStar,
    /// `MAX(e)`, an aggregate.
    Max(Box<Expr>),
}

/// An operand whose type does not fit the operator.
#[derive(PartialEq, Eq, Structural, Clone, Copy, Debug)]
pub enum TypeError {
    Mismatch,
}

/// The scalar type of `e`, or `None` where `e` is ill-typed.
pub open spec fn type_of(e: Expr) -> Option<SqlType>
    decreases e,
{
    match e {
        Expr::Column { ty, .. } => Some(ty),
        Expr::Bind { ty, .. } => Some(ty),
        Expr::Concat(a, b) => binary_type(type_of(*a), type_of(*b), 0),
        Expr::Like(a, b) => binary_type(type_of(*a), type_of(*b), 1),
        Expr::NotLike(a, b) => binary_type(type_of(*a), type_of(*b), 1),
        Expr::Eq(a, b) => binary_type(type_of(*a), type_of(*b), 2),
        Expr::And(a, b) => bool_type(type_of(*a), type_of(*b)),
        Expr::Or(a, b) => bool_type(type_of(*a), type_of(*b)),
        Expr::EqAny(a, _) => match type_of(*a) {
            Some(_) => Some(SqlType { base: BaseType::Bool, nullable: false }),
            None => None,
        },
        Expr::Grouped(a) => type_of(*a),
        Expr::CountStar => Some(SqlType { base: BaseType::BigInt, nullable: false }),
        Expr::Max(a) => match type_of(*a) {
            Some(t) => Some(SqlType { base: t.base, nullable: true }),
            None => None,
        },
    }
}

/// The type of a binary operator over two operand types: `op` 0 is
/// concatenation, 1 a pattern match, 2 a comparison.
pub open spec fn binary_type(l: Option<SqlType>, r: Option<SqlType>, op: int) -> Option<SqlType> {
    match (l, r) {
        (Some(l), Some(r)) => if op == 0 {
            concat_type(l, r)
        } else if op == 1 {
            like_type(l, r)
        } else {
            eq_type(l, r)
        },
        _ => None,
    }
}

/// The type of a boolean combinator: defined on two boolean operands.
pub open spec fn bool_type(l: Option<SqlType>, r: Option<SqlType>) -> Option<SqlType> {
    match (l, r) {
        (Some(l), Some(r)) => if l.base == BaseType::Bool && r.base == BaseType::Bool {
            Some(SqlType { base: BaseType::Bool, nullable: l.nullable || r.nullable })
        } else {
            None
        },
        _ => None,
    }
}

/// Whether `e` is an aggregate at its top.
pub open spec fn is_aggregate(e: Expr) -> bool {
    e is CountStar || e is Max
}

impl Expr {
    /// The column at `index`, with its name and type.
    pub fn column(index: usize, name: String, ty: SqlType) -> (r: Expr)
        ensures
            r == (Expr::Column { index, name, ty }),
    {
        Expr::Column { index, name, ty }
    }

    /// A non-null text parameter.
    pub fn text(s: String) -> (r: Expr)
        ensures
            r == (Expr::Bind { value: Value::Text(s), ty: SqlType { base: BaseType::Text, nullable: false } }),
    {
        Expr::Bind { value: Value::Text(s), ty: SqlType::not_null(BaseType::Text) }
    }

    /// A non-null integer parameter.
    pub fn integer(i: i64) -> (r: Expr)
        ensures
            r == (Expr::Bind { value: Value::Int(i), ty: SqlType { base: BaseType::Integer, nullable: false } }),
    {
        Expr::Bind { value: Value::Int(i), ty: SqlType::not_null(BaseType::Integer) }
    }

    /// `COUNT(*)`.
    pub fn count_star() -> (r: Expr)
        ensures
            r == Expr::CountStar,
    {
        Expr::CountStar
    }

    /// `MAX(self)`.
    pub fn max(self) -> (r: Expr)
        ensures
            r == Expr::Max(Box::new(self)),
    {
        Expr::Max(Box::new(self))
    }

    /// `self AND other`.
    pub fn and(self, other: Expr) -> (r: Expr)
        ensures
            r == Expr::Grouped(Box::new(Expr::And(Box::new(self), Box::new(other)))),
    {
        Expr::Grouped(Box::new(Expr::And(Box::new(self), Box::new(other))))
    }

    /// `self OR other`.
    pub fn or(self, other: Expr) -> (r: Expr)
        ensures
            r == Expr::Grouped(Box::new(Expr::Or(Box::new(self), Box::new(other)))),
    {
        Expr::Grouped(Box::new(Expr::Or(Box::new(self), Box::new(other))))
    }

    /// `self IN (values)`.
    pub fn eq_any(self, values: Vec<Value>) -> (r: Expr)
        ensures
            r == Expr::Grouped(Box::new(Expr::EqAny(Box::new(self), values))),
    {
        Expr::Grouped(Box::new(Expr::EqAny(Box::new(self), values)))
    }

    /// The scalar type of the expression, or `None` where it is ill-typed.
    pub fn sql_type(&self) -> (r: Option<SqlType>)
        ensures
            r == type_of(*self),
        decreases self,
    {
        match self {
            Expr::Column { ty, .. } => Some(*ty),
            Expr::Bind { ty, .. } => Some(*ty),
            Expr::Concat(a, b) => match (a.sql_type(), b.sql_type()) {
                (Some(l), Some(r)) => concat_result_type(l, r),
                _ => None,
            },
            Expr::Like(a, b) | Expr::NotLike(a, b) => match (a.sql_type(), b.sql_type()) {
                (Some(l), Some(r)) => like_result_type(l, r),
                _ => None,
            },
            Expr::Eq(a, b) => match (a.sql_type(), b.sql_type()) {
                (Some(l), Some(r)) => eq_result_type(l, r),
                _ => None,
            },
            Expr::And(a, b) | Expr::Or(a, b) => match (a.sql_type(), b.sql_type()) {
                (Some(l), Some(r)) => if l.base == BaseType::Bool && r.base == BaseType::Bool {
                    Some(SqlType { base: BaseType::Bool, nullable: l.nullable || r.nullable })
                } else {
                    None
                },
                _ => None,
            },
            Expr::EqAny(a, _) => match a.sql_type() {
                Some(_) => Some(SqlType::not_null(BaseType::Bool)),
                None => None,
            },
            Expr::Grouped(a) => a.sql_type(),
            Expr::CountStar => Some(SqlType::not_null(BaseType::BigInt)),
            Expr::Max(a) => match a.sql_type() {
                Some(t) => Some(SqlType::nullable(t.base)),
                None => None,
            },
        }
    }

    /// `self = other`, for operands of one base domain.
    pub fn eq(self, other: Expr) -> (r: Result<Expr, TypeError>)
        ensures
            r is Ok <==> binary_type(type_of(self), type_of(other), 2) is Some,
            r matches Ok(e) ==> e == Expr::Grouped(Box::new(Expr::Eq(Box::new(self), Box::new(other)))),
    {
        match (self.sql_type(), other.sql_type()) {
            (Some(l), Some(r)) => if eq_result_type(l, r).is_some() {
                Ok(Expr::Grouped(Box::new(Expr::Eq(Box::new(self), Box::new(other)))))
            } else {
                Err(TypeError::Mismatch)
            },
            _ => Err(TypeError::Mismatch),
        }
    }
}

/// Methods present on text expressions: defined once for every expression
/// whose type is `Text` or `Nullable<Text>`.
pub trait TextExpressionMethods: Sized {
    /// The expression node this value stands for.
    spec fn node(&self) -> Expr;

    /// `self || other`: well-typed when both are text; the result is nullable
    /// exactly when an operand is.
    fn concat(self, other: Expr) -> (r: Result<Expr, TypeError>)
        ensures
            r is Ok <==> binary_type(type_of(self.node()), type_of(other), 0) is Some,
            r matches Ok(e) ==> e == Expr::Grouped(Box::new(Expr::Concat(Box::new(self.node()), Box::new(other)))),
    ;

    /// `self LIKE other`: well-typed when both are text; a boolean.
    fn like(self, other: Expr) -> (r: Result<Expr, TypeError>)
        ensures
            r is Ok <==> binary_type(type_of(self.node()), type_of(other), 1) is Some,
            r matches Ok(e) ==> e == Expr::Grouped(Box::new(Expr::Like(Box::new(self.node()), Box::new(other)))),
    ;

    /// `self NOT LIKE other`: well-typed when both are text; a boolean.
    fn not_like(self, other: Expr) -> (r: Result<Expr, TypeError>)
        ensures
            r is Ok <==> binary_type(type_of(self.node()), type_of(other), 1) is Some,
            r matches Ok(e) ==> e == Expr::Grouped(Box::new(Expr::NotLike(Box::new(self.node()), Box::new(other)))),
    ;
}

fn both_text(l: &Expr, r: &Expr) -> (b: bool)
    ensures
        b <==> (type_of(*l) matches Some(lt) && type_of(*r) matches Some(rt)
            && lt.is_text_or_nullable_text() && rt.is_text_or_nullable_text()),
{
    match (l.sql_type(), r.sql_type()) {
        (Some(lt), Some(rt)) => lt.accepts_text_operators() && rt.accepts_text_operators(),
        _ => false,
    }
}

impl TextExpressionMethods for Expr {
    open spec fn node(&self) -> Expr {
        *self
    }

    fn concat(self, other: Expr) -> (r: Result<Expr, TypeError>) {
        if both_text(&self, &other) {
            Ok(Expr::Grouped(Box::new(Expr::Concat(Box::new(self), Box::new(other)))))
        } else {
            Err(TypeError::Mismatch)
        }
    }

    fn like(self, other: Expr) -> (r: Result<Expr, TypeError>) {
        if both_text(&self, &other) {
            Ok(Expr::Grouped(Box::new(Expr::Like(Box::new(self), Box::new(other)))))
        } else {
            Err(TypeError::Mismatch)
        }
    }

    fn not_like(self, other: Expr) -> (r: Result<Expr, TypeError>) {
        if both_text(&self, &other) {
            Ok(Expr::Grouped(Box::new(Expr::NotLike(Box::new(self), Box::new(other)))))
        } else {
            Err(TypeError::Mismatch)
        }
    }
}

} // verus!
