use std::rc::Rc;

use tablam_core::operators::decode_both;
use tablam_core::operators::equal_both;
use tablam_core::operators::equal_col_scalar;
use tablam_core::operators::filter;
use tablam_core::operators::greater_both;
use tablam_core::operators::less_both;
use tablam_core::operators::not_equal_both;
use tablam_core::operators::select;
use tablam_core::operators::CompareRel;
use tablam_core::types::encode_str;
use tablam_core::types::names;
use tablam_core::types::ColumnExp;
use tablam_core::types::Data;
use tablam_core::types::DataType;
use tablam_core::types::Frame;
use tablam_core::types::Operator;
use tablam_core::types::RelError;
use tablam_core::types::Scalar;

fn make_nums1() -> Vec<i64> {
    vec![1, 2, 3]
}

fn make_nums2() -> Vec<i64> {
    vec![4, 2, 3]
}

fn col(pos: usize) -> ColumnExp {
    ColumnExp::Pos(pos)
}

fn i64_data(of: Vec<i64>) -> Data {
    Data::new(of.into_iter().map(Scalar::I64).collect(), DataType::I64)
}

fn utf8_data(of: Vec<&str>) -> Data {
    Data::new(
        of.into_iter().map(|s| Scalar::UTF8(encode_str(s))).collect(),
        DataType::UTF8,
    )
}

fn as_i64s(d: &Data) -> Vec<i64> {
    d.data
        .iter()
        .map(|s| match s {
            Scalar::I64(v) => *v,
            _ => panic!("expected an I64 scalar"),
        })
        .collect()
}

fn as_bools(d: &Data) -> Vec<bool> {
    d.data
        .iter()
        .map(|s| match s {
            Scalar::Bool(v) => *v,
            _ => panic!("expected a Bool scalar"),
        })
        .collect()
}

fn make_rel1() -> Rc<Frame> {
    let nums1 = make_nums1();
    let nums2 = make_nums2();

    let col1 = i64_data(nums1);
    let col2 = i64_data(nums2);

    Rc::new(Frame::new(names(vec!["col1", "col2"]), vec![col1, col2]))
}

#[test]
fn compare() {
    let nums1 = make_nums1();
    let f1 = make_rel1();
    let pick1 = ColumnExp::Name("col1".to_string());
    let pick2 = col(1);

    let col3 = select(&*f1, &pick1).unwrap();
    let nums3: Vec<i64> = as_i64s(&col3);
    assert_eq!(nums1, nums3);

    let filter_eq = CompareRel::eq(f1.clone(), pick1, pick2);
    let filter_not_eq = CompareRel::noteq(f1.clone(), col(0), col(1));

    let result_eq: Vec<bool> = as_bools(&filter(filter_eq).unwrap());
    assert_eq!(result_eq, vec![false, true, true]);

    let result_not_eq: Vec<bool> = as_bools(&filter(filter_not_eq).unwrap());
    assert_eq!(result_not_eq, vec![true, false, false]);
}

#[test]
fn comparison_truth_table() {
    let left = i64_data(vec![1, 2, 3]);
    let right = i64_data(vec![4, 2, 3]);

    let eq = equal_both(&left, &right).unwrap();
    assert_eq!(eq.kind, DataType::Bool);
    assert_eq!(as_bools(&eq), vec![false, true, true]);

    let ne = not_equal_both(&left, &right).unwrap();
    assert_eq!(as_bools(&ne), vec![true, false, false]);
}

#[test]
fn scalar_broadcast() {
    let left = i64_data(vec![1, 2, 3]);
    let two = i64_data(vec![2]);

    let mask = equal_col_scalar(&left, &two).unwrap();
    assert_eq!(as_bools(&mask), vec![false, true, false]);

    // The scalar may stand on either side.
    let flipped = decode_both(&two, &left, Operator::Eq).unwrap();
    assert_eq!(as_bools(&flipped), vec![false, true, false]);

    // Two scalars give a one-element mask.
    let one = decode_both(&two, &i64_data(vec![2]), Operator::Eq).unwrap();
    assert_eq!(as_bools(&one), vec![true]);
}

#[test]
fn incompatible_kinds_are_a_type_mismatch() {
    let text = utf8_data(vec!["1", "2", "3"]);
    let nums = i64_data(vec![1, 2, 3]);
    assert_eq!(
        decode_both(&text, &nums, Operator::Eq).unwrap_err(),
        RelError::TypeMismatch
    );
    // I32 columns are outside the dispatch table entirely.
    let small1 = Data::new(vec![Scalar::I32(1)], DataType::I32);
    let small2 = Data::new(vec![Scalar::I32(1)], DataType::I32);
    assert_eq!(
        decode_both(&small1, &small2, Operator::Eq).unwrap_err(),
        RelError::TypeMismatch
    );
}

#[test]
fn mismatched_lengths_are_a_shape_mismatch() {
    let left = i64_data(vec![1, 2, 3]);
    let right = i64_data(vec![1, 2]);
    assert_eq!(
        decode_both(&left, &right, Operator::Eq).unwrap_err(),
        RelError::ShapeMismatch
    );
}

#[test]
fn ordering_operators_are_unsupported_today() {
    let left = i64_data(vec![1, 2, 3]);
    let right = i64_data(vec![4, 2, 3]);
    assert_eq!(
        less_both(&left, &right).unwrap_err(),
        RelError::UnsupportedOperator
    );
    assert_eq!(
        greater_both(&left, &right).unwrap_err(),
        RelError::UnsupportedOperator
    );
    // A kind outside the table reports the mismatch first.
    let text = utf8_data(vec!["a"]);
    assert_eq!(
        less_both(&left, &text).unwrap_err(),
        RelError::TypeMismatch
    );
}

#[test]
fn select_reports_missing_names_and_positions() {
    let f1 = make_rel1();
    assert_eq!(
        select(&*f1, &ColumnExp::Name("missing".to_string())).unwrap_err(),
        RelError::NameNotFound
    );
    assert_eq!(
        select(&*f1, &ColumnExp::Pos(2)).unwrap_err(),
        RelError::IndexOutOfRange
    );
}

#[test]
fn filter_rejects_non_comparison_operators() {
    let f1 = make_rel1();
    let bad = CompareRel {
        rel: f1.clone(),
        op: Operator::Add,
        left: col(0),
        right: col(1),
    };
    assert_eq!(filter(bad).unwrap_err(), RelError::UnsupportedOperator);

    let less = CompareRel {
        rel: f1.clone(),
        op: Operator::Less,
        left: col(0),
        right: col(1),
    };
    assert_eq!(filter(less).unwrap_err(), RelError::UnsupportedOperator);
}

#[test]
fn utf8_and_tuple_columns_compare_by_content() {
    let left = utf8_data(vec!["a", "b"]);
    let right = utf8_data(vec!["a", "c"]);
    assert_eq!(as_bools(&equal_both(&left, &right).unwrap()), vec![true, false]);

    let rows1 = Data::new(
        vec![
            Scalar::Tuple(vec![Scalar::I64(1), Scalar::I64(2)]),
            Scalar::Tuple(vec![Scalar::I64(3), Scalar::I64(4)]),
        ],
        DataType::Tuple,
    );
    let rows2 = Data::new(
        vec![
            Scalar::Tuple(vec![Scalar::I64(1), Scalar::I64(2)]),
            Scalar::Tuple(vec![Scalar::I64(3), Scalar::I64(9)]),
        ],
        DataType::Tuple,
    );
    assert_eq!(as_bools(&equal_both(&rows1, &rows2).unwrap()), vec![true, false]);
}
