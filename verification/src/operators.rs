//! The comparison engine: type-dispatching pairwise comparison of typed
//! arrays, producing boolean selection masks, and the `select`/`filter`
//! primitives built on it.
//!
//! The operations are columnar: a column compared against an equal-length
//! column element by element, a scalar broadcast against a column, or two
//! scalars compared into a one-element column. Columns of differing
//! lengths are rejected.

use vstd::prelude::*;

use crate::types::bytes_eq;
use crate::types::data_model;
use crate::types::scalar_view;
use crate::types::seq_scalar_view;
use crate::types::ColumnExp;
use crate::types::ColumnExpV;
use crate::types::Data;
use crate::types::DataM;
use crate::types::DataType;
use crate::types::Operator;
use crate::types::RelError;
use crate::types::Relation;
use crate::types::Scalar;
use crate::types::ScalarV;
use crate::types::find_name;

verus! {

/// Whether two scalars hold the same mathematical value: same kind and
/// same content, tuples element by element.
pub fn scalar_eq(a: &Scalar, b: &Scalar) -> (r: bool)
    ensures
        r == (a@ == b@),
    decreases *a,
{
    match (a, b) {
        (Scalar::Null, Scalar::Null) => true,
        (Scalar::Bool(x), Scalar::Bool(y)) => x == y,
        (Scalar::I32(x), Scalar::I32(y)) => x == y,
        (Scalar::I64(x), Scalar::I64(y)) => x == y,
        (Scalar::UTF8(x), Scalar::UTF8(y)) => bytes_eq(x, y),
        (Scalar::Tuple(x), Scalar::Tuple(y)) => scalar_vec_eq(x, y),
        _ => false,
    }
}

/// Whether two scalar vectors hold the same mathematical values, element
/// by element.
fn scalar_vec_eq(x: &Vec<Scalar>, y: &Vec<Scalar>) -> (r: bool)
    ensures
        r == (seq_scalar_view(x@) == seq_scalar_view(y@)),
    decreases x@,
{
    if x.len() != y.len() {
        proof {
            assert(seq_scalar_view(x@).len() != seq_scalar_view(y@).len());
        }
        return false;
    }
    let mut i: usize = 0;
    while i < x.len()
        invariant
            0 <= i <= x@.len(),
            x@.len() == y@.len(),
            forall|j: int| 0 <= j < i ==> scalar_view(x@[j]) == scalar_view(y@[j]),
        decreases x@.len() - i,
    {
        if !scalar_eq(&x[i], &y[i]) {
            proof {
                assert(seq_scalar_view(x@)[i as int] != seq_scalar_view(y@)[i as int]);
            }
            return false;
        }
        i = i + 1;
    }
    proof {
        assert(seq_scalar_view(x@) =~= seq_scalar_view(y@));
    }
    true
}

/// The kinds the comparison engine dispatches on: both operands must
/// resolve to the same one of these.
pub open spec fn comparable_kind(k: DataType) -> bool {
    ||| k == DataType::I64
    ||| k == DataType::UTF8
    ||| k == DataType::Bool
    ||| k == DataType::Tuple
}

/// The operators the comparison engine realises today.
pub open spec fn is_bool_op(op: Operator) -> bool {
    op == Operator::Eq || op == Operator::NotEq
}

/// One pairwise comparison under a boolean operator.
pub open spec fn sv_compare(op: Operator, a: ScalarV, b: ScalarV) -> bool {
    if op == Operator::Eq {
        a == b
    } else {
        a != b
    }
}

/// Whether two operand lengths fit one of the three supported shapes:
/// equal lengths, or a one-element scalar on either side.
pub open spec fn shapes_ok(ll: int, rl: int) -> bool {
    ll == rl || rl == 1 || ll == 1
}

/// The boolean column a comparison produces: element-wise on equal
/// lengths, else the one-element side broadcast against the other.
pub open spec fn compare_values(lv: Seq<ScalarV>, rv: Seq<ScalarV>, op: Operator) -> Seq<ScalarV> {
    if lv.len() == rv.len() {
        Seq::new(lv.len(), |i: int| ScalarV::Bool(sv_compare(op, lv[i], rv[i])))
    } else if rv.len() == 1 {
        Seq::new(lv.len(), |i: int| ScalarV::Bool(sv_compare(op, lv[i], rv[0])))
    } else {
        Seq::new(rv.len(), |i: int| ScalarV::Bool(sv_compare(op, lv[0], rv[i])))
    }
}

/// What comparing two typed arrays returns: the boolean column, or the
/// error the operands force. Kinds are checked first, then the operator,
/// then the shapes.
pub open spec fn compare_spec(l: DataM, r: DataM, op: Operator) -> Result<Seq<ScalarV>, RelError> {
    if !(l.kind == r.kind && comparable_kind(l.kind)) {
        Err(RelError::TypeMismatch)
    } else if !is_bool_op(op) {
        Err(RelError::UnsupportedOperator)
    } else if !shapes_ok(l.values.len() as int, r.values.len() as int) {
        Err(RelError::ShapeMismatch)
    } else {
        Ok(compare_values(l.values, r.values, op))
    }
}

/// Compares two relations under `op`, producing a boolean column of
/// `Bool` kind, or the error their kinds, the operator, or their shapes
/// force.
pub fn decode_both(left: &Data, right: &Data, op: Operator) -> (r: Result<Data, RelError>)
    ensures
        (match r {
            Ok(d) => {
                &&& compare_spec(data_model(*left), data_model(*right), op) == Ok::<
                    Seq<ScalarV>,
                    RelError,
                >(d@)
                &&& d.kind == DataType::Bool
                &&& d.wf()
            },
            Err(e) => compare_spec(data_model(*left), data_model(*right), op) == Err::<
                Seq<ScalarV>,
                RelError,
            >(e),
        }),
{
    let kinds_ok = match (left.kind, right.kind) {
        (DataType::I64, DataType::I64) => true,
        (DataType::UTF8, DataType::UTF8) => true,
        (DataType::Bool, DataType::Bool) => true,
        (DataType::Tuple, DataType::Tuple) => true,
        _ => false,
    };
    if !kinds_ok {
        return Err(RelError::TypeMismatch);
    }
    let op_ok = match op {
        Operator::Eq => true,
        Operator::NotEq => true,
        _ => false,
    };
    if !op_ok {
        return Err(RelError::UnsupportedOperator);
    }
    let lv: &Vec<Scalar> = &left.data;
    let rv: &Vec<Scalar> = &right.data;
    if lv.len() == rv.len() {
        let mut out: Vec<Scalar> = Vec::new();
        let mut i: usize = 0;
        while i < lv.len()
            invariant
                lv@ == left.data@,
                rv@ == right.data@,
                lv@.len() == rv@.len(),
                0 <= i <= lv@.len(),
                out@.len() == i,
                forall|j: int|
                    0 <= j < i ==> scalar_view(#[trigger] out@[j]) == ScalarV::Bool(
                        sv_compare(op, left@[j], right@[j]),
                    ),
                op == Operator::Eq || op == Operator::NotEq,
            decreases lv@.len() - i,
        {
            let e = scalar_eq(&lv[i], &rv[i]);
            let v = match op {
                Operator::Eq => e,
                _ => !e,
            };
            out.push(Scalar::Bool(v));
            i = i + 1;
        }
        let d = Data::new(out, DataType::Bool);
        proof {
            assert(d@ =~= compare_values(left@, right@, op));
        }
        Ok(d)
    } else if rv.len() == 1 {
        let scalar: &Scalar = &rv[0];
        let mut out: Vec<Scalar> = Vec::new();
        let mut i: usize = 0;
        while i < lv.len()
            invariant
                lv@ == left.data@,
                rv@ == right.data@,
                rv@.len() == 1,
                scalar_view(*scalar) == right@[0],
                0 <= i <= lv@.len(),
                out@.len() == i,
                forall|j: int|
                    0 <= j < i ==> scalar_view(#[trigger] out@[j]) == ScalarV::Bool(
                        sv_compare(op, left@[j], right@[0]),
                    ),
                op == Operator::Eq || op == Operator::NotEq,
            decreases lv@.len() - i,
        {
            let e = scalar_eq(&lv[i], scalar);
            let v = match op {
                Operator::Eq => e,
                _ => !e,
            };
            out.push(Scalar::Bool(v));
            i = i + 1;
        }
        let d = Data::new(out, DataType::Bool);
        proof {
            assert(d@ =~= compare_values(left@, right@, op));
        }
        Ok(d)
    } else if lv.len() == 1 {
        let scalar: &Scalar = &lv[0];
        let mut out: Vec<Scalar> = Vec::new();
        let mut i: usize = 0;
        while i < rv.len()
            invariant
                lv@ == left.data@,
                rv@ == right.data@,
                lv@.len() == 1,
                rv@.len() != 1,
                scalar_view(*scalar) == left@[0],
                0 <= i <= rv@.len(),
                out@.len() == i,
                forall|j: int|
                    0 <= j < i ==> scalar_view(#[trigger] out@[j]) == ScalarV::Bool(
                        sv_compare(op, left@[0], right@[j]),
                    ),
                op == Operator::Eq || op == Operator::NotEq,
            decreases rv@.len() - i,
        {
            let e = scalar_eq(scalar, &rv[i]);
            let v = match op {
                Operator::Eq => e,
                _ => !e,
            };
            out.push(Scalar::Bool(v));
            i = i + 1;
        }
        let d = Data::new(out, DataType::Bool);
        proof {
            assert(d@ =~= compare_values(left@, right@, op));
        }
        Ok(d)
    } else {
        Err(RelError::ShapeMismatch)
    }
}

/// `decode_both` under `Eq`.
pub fn equal_both(left: &Data, right: &Data) -> (r: Result<Data, RelError>)
    ensures
        (match r {
            Ok(d) => {
                &&& compare_spec(data_model(*left), data_model(*right), Operator::Eq) == Ok::<
                    Seq<ScalarV>,
                    RelError,
                >(d@)
                &&& d.kind == DataType::Bool
                &&& d.wf()
            },
            Err(e) => compare_spec(data_model(*left), data_model(*right), Operator::Eq) == Err::<
                Seq<ScalarV>,
                RelError,
            >(e),
        }),
{
    decode_both(left, right, Operator::Eq)
}

/// `decode_both` under `Eq`; the scalar side is broadcast by the shape
/// rules of the engine itself.
pub fn equal_col_scalar(left: &Data, right: &Data) -> (r: Result<Data, RelError>)
    ensures
        (match r {
            Ok(d) => {
                &&& compare_spec(data_model(*left), data_model(*right), Operator::Eq) == Ok::<
                    Seq<ScalarV>,
                    RelError,
                >(d@)
                &&& d.kind == DataType::Bool
                &&& d.wf()
            },
            Err(e) => compare_spec(data_model(*left), data_model(*right), Operator::Eq) == Err::<
                Seq<ScalarV>,
                RelError,
            >(e),
        }),
{
    decode_both(left, right, Operator::Eq)
}

/// `decode_both` under `NotEq`.
pub fn not_equal_both(left: &Data, right: &Data) -> (r: Result<Data, RelError>)
    ensures
        (match r {
            Ok(d) => {
                &&& compare_spec(data_model(*left), data_model(*right), Operator::NotEq) == Ok::<
                    Seq<ScalarV>,
                    RelError,
                >(d@)
                &&& d.kind == DataType::Bool
                &&& d.wf()
            },
            Err(e) => compare_spec(data_model(*left), data_model(*right), Operator::NotEq) == Err::<
                Seq<ScalarV>,
                RelError,
            >(e),
        }),
{
    decode_both(left, right, Operator::NotEq)
}

/// `decode_both` under `Less`. Ordering comparisons are declared but not
/// realised per concrete kind, so this always fails: `TypeMismatch` for
/// kinds outside the dispatch table, else `UnsupportedOperator`.
pub fn less_both(left: &Data, right: &Data) -> (r: Result<Data, RelError>)
    ensures
        r is Err,
        (match r {
            Ok(_) => false,
            Err(e) => compare_spec(data_model(*left), data_model(*right), Operator::Less) == Err::<
                Seq<ScalarV>,
                RelError,
            >(e),
        }),
{
    decode_both(left, right, Operator::Less)
}

/// `decode_both` under `Greater`. Like `less_both`, this always fails
/// today.
pub fn greater_both(left: &Data, right: &Data) -> (r: Result<Data, RelError>)
    ensures
        r is Err,
        (match r {
            Ok(_) => false,
            Err(e) => compare_spec(data_model(*left), data_model(*right), Operator::Greater)
                == Err::<Seq<ScalarV>, RelError>(e),
        }),
{
    decode_both(left, right, Operator::Greater)
}

/// What `select` returns: the member the token addresses, or the error
/// the token forces.
pub open spec fn select_spec<R: Relation>(of: &R, pick: ColumnExpV) -> Result<DataM, RelError> {
    match pick {
        ColumnExpV::Pos(i) => if of.col_ok(i) {
            Ok(of.col_model(i))
        } else {
            Err(RelError::IndexOutOfRange)
        },
        ColumnExpV::Name(s) => {
            let idx = find_name(of.names_spec(), s);
            if idx == -1 {
                Err(RelError::NameNotFound)
            } else if of.col_ok(idx) {
                Ok(of.col_model(idx))
            } else {
                Err(RelError::IndexOutOfRange)
            }
        },
    }
}

/// Resolves one addressing token against a relation and returns the
/// addressed member as a column.
pub fn select<R: Relation>(of: &R, pick: &ColumnExp) -> (r: Result<Data, RelError>)
    ensures
        (match r {
            Ok(d) => select_spec(of, pick@) == Ok::<DataM, RelError>(data_model(d)),
            Err(e) => select_spec(of, pick@) == Err::<DataM, RelError>(e),
        }),
{
    match pick {
        ColumnExp::Name(x) => of.get_col(x),
        ColumnExp::Pos(x) => of.col(*x),
    }
}

/// Selecting by a position and selecting by a name that resolves to that
/// position return identical results.
pub proof fn lemma_select_name_pos<R: Relation>(of: &R, name: Seq<char>, pos: int)
    requires
        find_name(of.names_spec(), name) == pos,
        pos >= 0,
    ensures
        select_spec(of, ColumnExpV::Name(name)) == select_spec(of, ColumnExpV::Pos(pos)),
{
}

/// A declarative comparison bound to the relation it addresses.
pub struct CompareRel<R: Relation> {
    pub rel: std::rc::Rc<R>,
    pub op: Operator,
    pub left: ColumnExp,
    pub right: ColumnExp,
}

impl<R: Relation> CompareRel<R> {
    /// An equality comparison of two addressed members.
    pub fn eq(rel: std::rc::Rc<R>, left: ColumnExp, right: ColumnExp) -> (r: Self)
        ensures
            r.rel == rel,
            r.op == Operator::Eq,
            r.left == left,
            r.right == right,
    {
        CompareRel { rel, op: Operator::Eq, left, right }
    }

    /// An inequality comparison of two addressed members.
    pub fn noteq(rel: std::rc::Rc<R>, left: ColumnExp, right: ColumnExp) -> (r: Self)
        ensures
            r.rel == rel,
            r.op == Operator::NotEq,
            r.left == left,
            r.right == right,
    {
        CompareRel { rel, op: Operator::NotEq, left, right }
    }
}

/// Whether the filter entry point accepts the operator at all.
pub open spec fn filter_op(op: Operator) -> bool {
    ||| op == Operator::Eq
    ||| op == Operator::NotEq
    ||| op == Operator::Less
    ||| op == Operator::Greater
}

/// What `filter` returns: both members selected, then compared under the
/// operator; the first failure decides.
pub open spec fn filter_spec<R: Relation>(
    rel: &R,
    left: ColumnExpV,
    right: ColumnExpV,
    op: Operator,
) -> Result<Seq<ScalarV>, RelError> {
    match select_spec(rel, left) {
        Err(e) => Err(e),
        Ok(l) => match select_spec(rel, right) {
            Err(e) => Err(e),
            Ok(r) => if !filter_op(op) {
                Err(RelError::UnsupportedOperator)
            } else {
                compare_spec(l, r, op)
            },
        },
    }
}

/// Selects the two addressed members and compares them, yielding the
/// boolean selection mask.
pub fn filter<R: Relation>(of: CompareRel<R>) -> (r: Result<Data, RelError>)
    ensures
        (match r {
            Ok(d) => {
                &&& filter_spec(&*of.rel, of.left@, of.right@, of.op) == Ok::<
                    Seq<ScalarV>,
                    RelError,
                >(d@)
                &&& d.kind == DataType::Bool
                &&& d.wf()
            },
            Err(e) => filter_spec(&*of.rel, of.left@, of.right@, of.op) == Err::<
                Seq<ScalarV>,
                RelError,
            >(e),
        }),
{
    let op = of.op;
    let rel = of.rel;
    let col1 = match select(&*rel, &of.left) {
        Ok(c) => c,
        Err(e) => {
            return Err(e);
        },
    };
    let col2 = match select(&*rel, &of.right) {
        Ok(c) => c,
        Err(e) => {
            return Err(e);
        },
    };
    match op {
        Operator::Eq => equal_both(&col1, &col2),
        Operator::NotEq => not_equal_both(&col1, &col2),
        Operator::Less => less_both(&col1, &col2),
        Operator::Greater => greater_both(&col1, &col2),
        _ => Err(RelError::UnsupportedOperator),
    }
}

} // verus!
