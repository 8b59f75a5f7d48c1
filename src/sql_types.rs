use vstd::prelude::*;

verus! {

/// The value domain of a column or expression, before nullability.
#[derive(PartialEq, Eq, Structural, Clone, Copy, Debug)]
pub enum BaseType {
    Integer,
    BigInt,
    Text,
    Bool,
}

/// A scalar SQL type: a base domain, possibly made nullable.
#[derive(PartialEq, Eq, Structural, Clone, Copy, Debug)]
pub struct SqlType {
    pub base: BaseType,
    pub nullable: bool,
}

impl SqlType {
    pub fn not_null(base: BaseType) -> (r: SqlType)
        ensures
            r == (SqlType { base, nullable: false }),
    {
        SqlType { base, nullable: false }
    }

    pub fn nullable(base: BaseType) -> (r: SqlType)
        ensures
            r == (SqlType { base, nullable: true }),
    {
        SqlType { base, nullable: true }
    }
}

/// Capability of a scalar type to serve as the left operand of the text
/// operators (`concat`, `like`, `not_like`): `Text` and `Nullable<Text>` have it.
pub trait TextOrNullableText {
    spec fn is_text_or_nullable_text(&self) -> bool;

    fn accepts_text_operators(&self) -> (r: bool)
        ensures
            r == self.is_text_or_nullable_text(),
    ;
}

impl TextOrNullableText for SqlType {
    open spec fn is_text_or_nullable_text(&self) -> bool {
        self.base == BaseType::Text
    }

    fn accepts_text_operators(&self) -> (r: bool) {
        self.base == BaseType::Text
    }
}

/// The type of `l || r`: defined on two text operands, nullable as soon as
/// either operand is.
pub open spec fn concat_type(l: SqlType, r: SqlType) -> Option<SqlType> {
    if l.base == BaseType::Text && r.base == BaseType::Text {
        Some(SqlType { base: BaseType::Text, nullable: l.nullable || r.nullable })
    } else {
        None
    }
}

/// The type of a pattern match `l LIKE r`: always a definite boolean.
pub open spec fn like_type(l: SqlType, r: SqlType) -> Option<SqlType> {
    if l.base == BaseType::Text && r.base == BaseType::Text {
        Some(SqlType { base: BaseType::Bool, nullable: false })
    } else {
        None
    }
}

/// The type of a comparison `l = r`: operands of one base domain give a
/// definite boolean.
pub open spec fn eq_type(l: SqlType, r: SqlType) -> Option<SqlType> {
    if l.base == r.base {
        Some(SqlType { base: BaseType::Bool, nullable: false })
    } else {
        None
    }
}

pub fn concat_result_type(l: SqlType, r: SqlType) -> (t: Option<SqlType>)
    ensures
        t == concat_type(l, r),
{
    if l.base == BaseType::Text && r.base == BaseType::Text {
        Some(SqlType { base: BaseType::Text, nullable: l.nullable || r.nullable })
    } else {
        None
    }
}

pub fn like_result_type(l: SqlType, r: SqlType) -> (t: Option<SqlType>)
    ensures
        t == like_type(l, r),
{
    if l.accepts_text_operators() && r.accepts_text_operators() {
        Some(SqlType::not_null(BaseType::Bool))
    } else {
        None
    }
}

pub fn eq_result_type(l: SqlType, r: SqlType) -> (t: Option<SqlType>)
    ensures
        t == eq_type(l, r),
{
    if l.base == r.base {
        Some(SqlType::not_null(BaseType::Bool))
    } else {
        None
    }
}

} // verus!
