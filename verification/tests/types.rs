use tablam_core::types::names;
use tablam_core::types::Data;
use tablam_core::types::DataType;
use tablam_core::types::Frame;
use tablam_core::types::Layout;
use tablam_core::types::Names;
use tablam_core::types::RelError;
use tablam_core::types::Relation;
use tablam_core::types::Scalar;
use tablam_core::types::dec_string;
use tablam_core::types::encode_str;
use tablam_core::types::layout_of_data;
use tablam_core::types::Algebra;
use tablam_core::types::ColumnExp;
use tablam_core::types::Compare;
use tablam_core::types::Operator;
use tablam_core::types::QueryPlanner;

fn _name(name: &str) -> Names {
    names(vec![name])
}

fn _name2(name: &str, name2: &str) -> Names {
    names(vec![name, name2])
}

fn i32_data(of: Vec<i32>) -> Data {
    Data::new(of.into_iter().map(Scalar::I32).collect(), DataType::I32)
}

fn i32_tuple_data(of: Vec<i32>) -> Data {
    Data::new(of.into_iter().map(Scalar::I32).collect(), DataType::Tuple)
}

fn as_i32s(d: &Data) -> Vec<i32> {
    d.data
        .iter()
        .map(|s| match s {
            Scalar::I32(v) => *v,
            _ => panic!("expected an I32 scalar"),
        })
        .collect()
}

#[test]
fn test_create_frame() {
    let null1 = Data::empty(DataType::I32);
    let s1 = i32_data(vec![1]);
    let col1 = i32_data(vec![1, 2, 3]);
    let col2 = col1.clone();
    let row1 = i32_tuple_data(vec![3, 4, 5]);
    let row2 = row1.clone();

    let name = _name("x");
    let names = _name2("x", "y");

    let fnull = Frame::new(name.clone(), vec![null1]);
    assert_eq!(fnull.layout, Layout::Scalar);
    assert_eq!(fnull.col_count(), 1);
    assert_eq!(fnull.row_count(), 0);

    let fs1 = Frame::new(name.clone(), vec![s1]);
    assert_eq!(fs1.layout, Layout::Scalar);
    assert_eq!(fs1.col_count(), 1);
    assert_eq!(fs1.row_count(), 1);

    let fcol1 = Frame::new(name.clone(), vec![col1.clone()]);
    assert_eq!(fcol1.layout, Layout::Col);
    assert_eq!(fcol1.row_count(), 3);

    let fcols = Frame::new(names.clone(), vec![col1, col2]);
    assert_eq!(fcols.layout, Layout::Col);
    assert_eq!(fcols.col_count(), 2);
    assert_eq!(fcols.row_count(), 3);

    let frow1 = Frame::new(name.clone(), vec![row1.clone()]);
    assert_eq!(frow1.layout, Layout::Row);
    assert_eq!(frow1.col_count(), 1);
    assert_eq!(frow1.row_count(), 1);

    let frows = Frame::new(names.clone(), vec![row1, row2]);
    assert_eq!(frows.layout, Layout::Row);
    assert_eq!(frows.col_count(), 2);
    assert_eq!(frows.row_count(), 2);
}

#[test]
fn test_create_col() {
    let null1 = Data::empty(DataType::I32);
    assert_eq!(layout_of_data(&null1), Layout::Scalar);

    let s1 = i32_data(vec![1]);
    assert_eq!(layout_of_data(&s1), Layout::Scalar);

    let col1 = i32_data(vec![1, 2, 3]);
    assert_eq!(layout_of_data(&col1), Layout::Col);

    let row1 = i32_tuple_data(vec![3, 4, 5]);
    assert_eq!(layout_of_data(&row1), Layout::Row);
}

#[test]
fn transpose_row_frame_to_columns() {
    // Two row-tuples (1, 2, 3) and (4, 5, 6) over three fields.
    let row1 = i32_tuple_data(vec![1, 2, 3]);
    let row2 = i32_tuple_data(vec![4, 5, 6]);
    let frows = Frame::new(_name2("a", "b"), vec![row1, row2]);
    assert_eq!(frows.layout, Layout::Row);

    // Column i gathers element i from every row.
    let c0 = Frame::col(&frows, 0).unwrap();
    let c1 = Frame::col(&frows, 1).unwrap();
    let c2 = Frame::col(&frows, 2).unwrap();
    assert_eq!(as_i32s(&c0), vec![1, 4]);
    assert_eq!(as_i32s(&c1), vec![2, 5]);
    assert_eq!(as_i32s(&c2), vec![3, 6]);
    assert_eq!(c0.kind, DataType::Tuple);

    // The same columns stored column-major come back unchanged.
    let fcols = Frame::new(
        names(vec!["0", "1", "2"]),
        vec![
            i32_data(vec![1, 4]),
            i32_data(vec![2, 5]),
            i32_data(vec![3, 6]),
        ],
    );
    assert_eq!(as_i32s(&fcols.col(0).unwrap()), vec![1, 4]);
    assert_eq!(as_i32s(&fcols.col(2).unwrap()), vec![3, 6]);

    // Out-of-range positions are typed errors, not aborts.
    assert_eq!(Frame::col(&frows, 3).unwrap_err(), RelError::IndexOutOfRange);
    assert_eq!(Frame::row(&frows, 9).unwrap_err(), RelError::IndexOutOfRange);
}

#[test]
fn frame_row_gathers_one_value_per_member() {
    let col1 = i32_data(vec![1, 2, 3]);
    let col2 = i32_data(vec![4, 5, 6]);
    let f = Frame::new(_name2("x", "y"), vec![col1, col2]);

    let r0 = Frame::row(&f, 0).unwrap();
    assert_eq!(r0.kind, DataType::Tuple);
    assert_eq!(as_i32s(&r0), vec![1, 4]);
    let r2 = Frame::row(&f, 2).unwrap();
    assert_eq!(as_i32s(&r2), vec![3, 6]);
}

#[test]
fn bare_data_is_a_single_column_relation() {
    let col = i32_data(vec![7, 8, 9]);
    assert_eq!(col.layout(), Layout::Col);
    assert_eq!(col.col_count(), 1);
    assert_eq!(col.row_count(), 3);
    assert_eq!(col.names(), vec!["item".to_string()]);

    // `col` returns the array itself, whatever the position.
    assert_eq!(as_i32s(&col.col(5).unwrap()), vec![7, 8, 9]);

    // The one-column quirk: `row` ignores the position and wraps the
    // whole array as a single tuple.
    let row = col.row(1).unwrap();
    assert_eq!(row.kind, DataType::Tuple);
    assert_eq!(as_i32s(&row), vec![7, 8, 9]);

    let row_again = Frame::row_data(&col, 0);
    assert_eq!(as_i32s(&row_again), vec![7, 8, 9]);
}

#[test]
fn new_anon_names_members_by_position() {
    let f = Frame::new_anon(vec![i32_data(vec![1, 2]), i32_data(vec![3, 4])]);
    assert_eq!(f.names, vec!["0".to_string(), "1".to_string()]);
    assert_eq!(f.layout, Layout::Col);
    assert_eq!(f.row_count(), 2);

    assert_eq!(dec_string(0), "0");
    assert_eq!(dec_string(10), "10");
    assert_eq!(dec_string(987654), "987654");
}

#[test]
fn empty_frame_defaults_to_scalar_layout() {
    let f = Frame::empty(_name2("x", "y"));
    assert_eq!(f.layout, Layout::Scalar);
    assert_eq!(f.row_count(), 0);
    assert_eq!(f.col_count(), 2);
}

#[test]
fn resolve_names_maps_positions_and_validates_names() {
    let f = Frame::new(
        _name2("col1", "col2"),
        vec![i32_data(vec![1, 2]), i32_data(vec![3, 4])],
    );

    let by_pos = ColumnExp::Pos(1);
    let by_name = ColumnExp::Name("col1".to_string());
    let resolved = f.resolve_names(vec![&by_pos, &by_name]).unwrap();
    assert_eq!(resolved, vec!["col2".to_string(), "col1".to_string()]);

    let missing = ColumnExp::Name("nope".to_string());
    assert_eq!(
        f.resolve_names(vec![&by_pos, &missing]).unwrap_err(),
        RelError::NameNotFound
    );

    let out_of_range = ColumnExp::Pos(9);
    assert_eq!(
        f.resolve_names(vec![&out_of_range]).unwrap_err(),
        RelError::IndexOutOfRange
    );

    let got = f.get_col(&"col2".to_string()).unwrap();
    assert_eq!(as_i32s(&got), vec![3, 4]);
    assert_eq!(
        f.get_col(&"nope".to_string()).unwrap_err(),
        RelError::NameNotFound
    );
}

#[test]
fn encode_str_round_trips_through_equality() {
    let a1 = Scalar::UTF8(encode_str("a"));
    let a2 = Scalar::UTF8(encode_str("a"));
    let b = Scalar::UTF8(encode_str("b"));
    let col = Data::new(vec![a1, b], DataType::UTF8);
    let probe = Data::new(vec![a2], DataType::UTF8);
    // Broadcast "a" against ["a", "b"]: equality holds only at the first
    // element, so the buffers really carry the encoded text.
    let mask = tablam_core::operators::equal_col_scalar(&col, &probe).unwrap();
    let bools: Vec<bool> = col_bools(&mask);
    assert_eq!(bools, vec![true, false]);
}

#[test]
fn query_plans_are_plain_data() {
    let plan = QueryPlanner {
        ops: vec![
            Algebra::Project(Some(vec![ColumnExp::Name("col1".to_string()), ColumnExp::Pos(1)])),
            Algebra::Rename(ColumnExp::Pos(0), "total".to_string()),
            Algebra::Filter(Compare {
                op: Operator::Eq,
                left: ColumnExp::Name("col1".to_string()),
                right: ColumnExp::Pos(1),
            }),
        ],
    };
    // The plan is declarative: it carries its steps in order and nothing
    // interprets it here.
    assert_eq!(plan.ops.len(), 3);
    match &plan.ops[2] {
        Algebra::Filter(cmp) => {
            assert!(matches!(cmp.op, Operator::Eq));
            assert!(matches!(&cmp.left, ColumnExp::Name(n) if n == "col1"));
        }
        _ => panic!("expected the filter step"),
    }
    let copy = plan.clone();
    assert_eq!(copy.ops.len(), 3);
}

fn col_bools(d: &Data) -> Vec<bool> {
    d.data
        .iter()
        .map(|s| match s {
            Scalar::Bool(v) => *v,
            _ => panic!("expected a Bool scalar"),
        })
        .collect()
}
