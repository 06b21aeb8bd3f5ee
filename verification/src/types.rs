//! The typed value model (scalars, typed arrays), the two-dimensional
//! `Frame`, and the `Relation` capability surface shared by frames and
//! bare typed arrays.

use vstd::prelude::*;
use vstd::string::StringSliceAdditionalSpecFns;

verus! {

/// How a relation's storage is organised: a single value, a set of
/// row-tuples, or a set of columns.
#[derive(Clone, Copy, Debug, PartialEq, Eq, Structural)]
pub enum Layout {
    Scalar,
    Row,
    Col,
}

/// The closed set of value kinds. The declaration order defines the total
/// order used for cross-kind sorting (`Null < Bool < I32 < I64 < UTF8 < Tuple`).
#[derive(Clone, Copy, Debug, PartialEq, Eq, PartialOrd, Ord, Structural)]
pub enum DataType {
    Null,
    Bool,
    I32,
    I64,
    UTF8,
    Tuple,
}

/// Declares `bytes::BytesMut`, the shared text buffer type, so that it can
/// stand in fields and signatures.
#[verifier::external_type_specification]
#[verifier::external_body]
pub struct ExBytesMut(bytes::BytesMut);

/// The byte contents of a `bytes::BytesMut` buffer.
pub uninterp spec fn bytes_view(b: bytes::BytesMut) -> Seq<u8>;

/// Relies on `impl From<&str> for BytesMut` in `bytes`: the new buffer
/// holds exactly the UTF-8 bytes of the input string.
#[verifier::external_body]
pub fn encode_str(value: &str) -> (r: bytes::BytesMut)
    ensures
        bytes_view(r) == value.spec_bytes(),
{
    bytes::BytesMut::from(value)
}

/// Relies on `impl PartialEq for BytesMut` in `bytes`: two buffers compare
/// equal exactly when their byte contents are equal.
#[verifier::external_body]
pub(crate) fn bytes_eq(a: &bytes::BytesMut, b: &bytes::BytesMut) -> (r: bool)
    ensures
        r == (bytes_view(*a) == bytes_view(*b)),
{
    a == b
}

/// Relies on `impl Clone for BytesMut` in `bytes`: the clone holds the same
/// byte contents as the original.
#[verifier::external_body]
pub(crate) fn bytes_clone(b: &bytes::BytesMut) -> (r: bytes::BytesMut)
    ensures
        bytes_view(r) == bytes_view(*b),
{
    b.clone()
}

/// A tagged scalar value. `Tuple` composes structurally, so a scalar can be
/// one whole row of a row-major relation.
#[derive(Debug)]
pub enum Scalar {
    Null,
    Bool(bool),
    I32(i32),
    I64(i64),
    UTF8(bytes::BytesMut),
    Tuple(Vec<Scalar>),
}

/// The mathematical value of a `Scalar`: text is its byte contents, tuples
/// are sequences, integers are unbounded.
#[verifier::ext_equal]
pub ghost enum ScalarV {
    Null,
    Bool(bool),
    I32(int),
    I64(int),
    UTF8(Seq<u8>),
    Tuple(Seq<ScalarV>),
}

/// The mathematical value of a `Scalar`.
pub open spec fn scalar_view(s: Scalar) -> ScalarV
    decreases s,
{
    match s {
        Scalar::Null => ScalarV::Null,
        Scalar::Bool(b) => ScalarV::Bool(b),
        Scalar::I32(i) => ScalarV::I32(i as int),
        Scalar::I64(i) => ScalarV::I64(i as int),
        Scalar::UTF8(b) => ScalarV::UTF8(bytes_view(b)),
        Scalar::Tuple(v) => ScalarV::Tuple(seq_scalar_view(v@)),
    }
}

/// The mathematical values of a sequence of scalars, element by element.
pub open spec fn seq_scalar_view(s: Seq<Scalar>) -> Seq<ScalarV>
    decreases s,
{
    Seq::new(
        s.len(),
        |i: int|
            if 0 <= i < s.len() {
                scalar_view(s[i])
            } else {
                ScalarV::Null
            },
    )
}

impl View for Scalar {
    type V = ScalarV;

    open spec fn view(&self) -> ScalarV {
        scalar_view(*self)
    }
}

impl Clone for Scalar {
    /// The clone has the same mathematical value as the original.
    fn clone(&self) -> (r: Self)
        ensures
            r@ == self@,
        decreases *self,
    {
        match self {
            Scalar::Null => Scalar::Null,
            Scalar::Bool(b) => Scalar::Bool(*b),
            Scalar::I32(i) => Scalar::I32(*i),
            Scalar::I64(i) => Scalar::I64(*i),
            Scalar::UTF8(b) => Scalar::UTF8(bytes_clone(b)),
            Scalar::Tuple(v) => Scalar::Tuple(clone_scalars(v)),
        }
    }
}

/// Clones a vector of scalars element by element, keeping every
/// mathematical value.
fn clone_scalars(v: &Vec<Scalar>) -> (r: Vec<Scalar>)
    ensures
        seq_scalar_view(r@) == seq_scalar_view(v@),
    decreases v@,
{
    let mut out: Vec<Scalar> = Vec::new();
    let mut i: usize = 0;
    while i < v.len()
        invariant
            0 <= i <= v@.len(),
            out@.len() == i,
            forall|j: int| 0 <= j < i ==> scalar_view(out@[j]) == scalar_view(v@[j]),
        decreases v@.len() - i,
    {
        out.push(v[i].clone());
        i = i + 1;
    }
    proof {
        assert(seq_scalar_view(out@) =~= seq_scalar_view(v@));
    }
    out
}

/// A shared, immutable, reference-counted vector.
pub type RVec<T> = std::rc::Rc<Vec<T>>;

/// An ordered list of member names.
pub type Names = Vec<String>;

/// A homogeneous, immutable typed array: a declared kind, a length, and a
/// shared sequence of scalar values.
#[derive(Debug)]
pub struct Data {
    pub kind: DataType,
    pub len: usize,
    pub data: RVec<Scalar>,
}

/// The mathematical content of a typed array: its declared kind, its
/// declared length, and the values it holds.
#[verifier::ext_equal]
pub ghost struct DataM {
    pub kind: DataType,
    pub len: int,
    pub values: Seq<ScalarV>,
}

impl View for Data {
    type V = Seq<ScalarV>;

    /// The values a typed array holds.
    open spec fn view(&self) -> Seq<ScalarV> {
        seq_scalar_view(self.data@)
    }
}

/// The full mathematical content of a typed array.
pub open spec fn data_model(d: Data) -> DataM {
    DataM { kind: d.kind, len: d.len as int, values: d@ }
}

impl Data {
    /// A typed array is well formed when its declared length matches the
    /// number of values it holds.
    pub open spec fn wf(self) -> bool {
        self.len == self.data@.len()
    }

    /// An empty typed array of the given kind.
    pub fn empty(kind: DataType) -> (r: Self)
        ensures
            r.kind == kind,
            r.len == 0,
            r@ =~= Seq::<ScalarV>::empty(),
            r.wf(),
    {
        Data { kind, len: 0, data: std::rc::Rc::new(Vec::new()) }
    }

    /// A typed array over the given values, with its length taken from the
    /// source.
    pub fn new(of: Vec<Scalar>, kind: DataType) -> (r: Self)
        ensures
            r.kind == kind,
            r.len == of@.len(),
            r@ == seq_scalar_view(of@),
            r.data@ == of@,
            r.wf(),
    {
        let len = of.len();
        Data { kind, len, data: std::rc::Rc::new(of) }
    }

    /// A typed array of kind `Tuple`: one whole relation stored as rows.
    pub fn new_row(of: Vec<Scalar>) -> (r: Self)
        ensures
            r.kind == DataType::Tuple,
            r.len == of@.len(),
            r@ == seq_scalar_view(of@),
            r.data@ == of@,
            r.wf(),
    {
        Data::new(of, DataType::Tuple)
    }
}

impl Clone for Data {
    /// The clone is the same typed array; the value sequence is shared.
    fn clone(&self) -> (r: Self)
        ensures
            r == *self,
    {
        Data { kind: self.kind, len: self.len, data: self.data.clone() }
    }
}

/// The layout a typed array is inferred to have: `Scalar` for lengths 0 and
/// 1; otherwise `Row` for tuples and `Col` for every other kind.
pub open spec fn spec_layout_of(d: Data) -> Layout {
    if d.len == 0 || d.len == 1 {
        Layout::Scalar
    } else if d.kind == DataType::Tuple {
        Layout::Row
    } else {
        Layout::Col
    }
}

/// For every typed array of length 0 or 1, the inferred layout is
/// `Scalar`, whatever the declared kind.
pub proof fn lemma_layout_small(d: Data)
    requires
        d.len <= 1,
    ensures
        spec_layout_of(d) == Layout::Scalar,
{
}

/// For every typed array of length 2 or more, the inferred layout is
/// `Row` for kind `Tuple` and `Col` for every other kind.
pub proof fn lemma_layout_wide(d: Data)
    requires
        d.len >= 2,
    ensures
        d.kind == DataType::Tuple ==> spec_layout_of(d) == Layout::Row,
        d.kind != DataType::Tuple ==> spec_layout_of(d) == Layout::Col,
{
}

/// Infers the layout of a typed array from its declared length and kind.
pub fn layout_of_data(of: &Data) -> (r: Layout)
    ensures
        r == spec_layout_of(*of),
{
    match of.len {
        0 => Layout::Scalar,
        1 => Layout::Scalar,
        _ => {
            if of.kind == DataType::Tuple {
                Layout::Row
            } else {
                Layout::Col
            }
        },
    }
}

/// Turns borrowed names into owned ones, in order.
pub fn names(of: Vec<&str>) -> (r: Names)
    ensures
        r.deep_view() == of.deep_view(),
{
    let mut out: Vec<String> = Vec::new();
    let mut i: usize = 0;
    while i < of.len()
        invariant
            0 <= i <= of@.len(),
            out@.len() == i,
            forall|j: int| 0 <= j < i ==> out@[j]@ == of@[j]@,
        decreases of@.len() - i,
    {
        out.push(String::from_str(of[i]));
        i = i + 1;
    }
    proof {
        assert(out.deep_view() =~= of.deep_view());
    }
    out
}

/// The recoverable error conditions of the engine. Every failed operation
/// returns one of these to the caller; no operation aborts the process.
#[derive(Clone, Copy, Debug, PartialEq, Eq, Structural)]
pub enum RelError {
    /// Operands of a comparison resolve to incompatible concrete kinds.
    TypeMismatch,
    /// An operator reached a context that does not implement it.
    UnsupportedOperator,
    /// A name matched no member of the relation.
    NameNotFound,
    /// A position exceeded the relation's bounds.
    IndexOutOfRange,
    /// A column-against-column comparison had differing lengths.
    ShapeMismatch,
}

/// An addressing token: a member of a relation, by name or by zero-based
/// position.
#[derive(Debug)]
pub enum ColumnExp {
    Name(String),
    Pos(usize),
}

/// The mathematical value of an addressing token.
pub ghost enum ColumnExpV {
    Name(Seq<char>),
    Pos(int),
}

impl View for ColumnExp {
    type V = ColumnExpV;

    open spec fn view(&self) -> ColumnExpV {
        match self {
            ColumnExp::Name(s) => ColumnExpV::Name(s@),
            ColumnExp::Pos(p) => ColumnExpV::Pos(*p as int),
        }
    }
}

impl DeepView for ColumnExp {
    type V = ColumnExpV;

    open spec fn deep_view(&self) -> ColumnExpV {
        self.view()
    }
}

impl Clone for ColumnExp {
    /// The clone addresses the same member.
    fn clone(&self) -> (r: Self)
        ensures
            r@ == self@,
    {
        match self {
            ColumnExp::Name(s) => ColumnExp::Name(s.clone()),
            ColumnExp::Pos(p) => ColumnExp::Pos(*p),
        }
    }
}

/// The operator set. Only `Eq` and `NotEq` are realised by the comparison
/// engine today; the others are declared for the filter entry point and for
/// future extensions of the dispatch table.
#[derive(Clone, Copy, Debug, PartialEq, Eq, Structural)]
pub enum Operator {
    Eq,
    NotEq,
    Less,
    LessEq,
    Greater,
    GreaterEq,
    Not,
    Add,
    Minus,
    Mul,
    Div,
    Union,
    Diff,
    IndexByPos,
    IndexByName,
}

/// A declarative comparison of two addressed members.
#[derive(Clone, Debug)]
pub struct Compare {
    pub op: Operator,
    pub left: ColumnExp,
    pub right: ColumnExp,
}

/// An optional selection of members.
pub type SelectColumns = Vec<ColumnExp>;

/// One declarative step of a query plan. Purely data: any executor must
/// validate and interpret the steps itself.
#[derive(Clone, Debug)]
pub enum Algebra {
    Project(Option<SelectColumns>),
    Rename(ColumnExp, String),
    Filter(Compare),
}

/// An ordered, unexecuted list of plan steps.
#[derive(Clone, Debug)]
pub struct QueryPlanner {
    pub ops: Vec<Algebra>,
}

/// The decimal digits of `n`, most significant first.
pub open spec fn dec_chars(n: nat) -> Seq<char>
    decreases n,
{
    if n < 10 {
        seq![dec_digit(n)]
    } else {
        dec_chars(n / 10).push(dec_digit(n % 10))
    }
}

/// The character for one decimal digit.
pub open spec fn dec_digit(d: nat) -> char {
    if d == 0 {
        '0'
    } else if d == 1 {
        '1'
    } else if d == 2 {
        '2'
    } else if d == 3 {
        '3'
    } else if d == 4 {
        '4'
    } else if d == 5 {
        '5'
    } else if d == 6 {
        '6'
    } else if d == 7 {
        '7'
    } else if d == 8 {
        '8'
    } else {
        '9'
    }
}

/// One decimal digit as a string slice.
fn digit_str(d: usize) -> (r: &'static str)
    requires
        d < 10,
    ensures
        r@ == seq![dec_digit(d as nat)],
{
    proof {
        reveal_strlit("0");
        reveal_strlit("1");
        reveal_strlit("2");
        reveal_strlit("3");
        reveal_strlit("4");
        reveal_strlit("5");
        reveal_strlit("6");
        reveal_strlit("7");
        reveal_strlit("8");
        reveal_strlit("9");
    }
    match d {
        0 => "0",
        1 => "1",
        2 => "2",
        3 => "3",
        4 => "4",
        5 => "5",
        6 => "6",
        7 => "7",
        8 => "8",
        _ => "9",
    }
}

/// The decimal representation of `n`, used for synthetic member names.
pub fn dec_string(n: usize) -> (r: String)
    ensures
        r@ == dec_chars(n as nat),
    decreases n,
{
    if n < 10 {
        String::from_str(digit_str(n))
    } else {
        let mut s = dec_string(n / 10);
        s.append(digit_str(n % 10));
        s
    }
}

/// The central storage unit: an ordered set of named typed arrays, read
/// either as columns or as row-tuples.
#[derive(Debug)]
pub struct Frame {
    pub layout: Layout,
    pub len: usize,
    pub names: Names,
    pub data: RVec<Data>,
}

/// The layout a frame infers at construction: from the first member alone,
/// and `Scalar` when there are no members.
pub open spec fn frame_layout(members: Seq<Data>) -> Layout {
    if members.len() == 0 {
        Layout::Scalar
    } else {
        spec_layout_of(members[0])
    }
}

/// The row count a frame computes at construction: the number of members
/// in row layout (each member is one row-tuple), else the declared length
/// of the first member.
pub open spec fn frame_len(members: Seq<Data>) -> int {
    if members.len() == 0 {
        0
    } else if frame_layout(members) == Layout::Row {
        members.len() as int
    } else {
        members[0].len as int
    }
}

/// Whether position `pos` is inside every member's value sequence.
pub open spec fn gather_ok(members: Seq<Data>, pos: int) -> bool {
    forall|i: int| 0 <= i < members.len() ==> 0 <= pos < (#[trigger] members[i].data@).len()
}

/// One value gathered from each member at position `pos`: the transpose of
/// the stored data at that position.
pub open spec fn gather_values(members: Seq<Data>, pos: int) -> Seq<ScalarV> {
    Seq::new(members.len(), |i: int| members[i]@[pos])
}

/// The kind the gathering loop reports: the last member's kind, or `Null`
/// when there are no members.
pub open spec fn gather_kind(members: Seq<Data>) -> DataType {
    if members.len() == 0 {
        DataType::Null
    } else {
        members[members.len() - 1].kind
    }
}

impl Frame {
    /// A frame is well formed when its layout and row count are the ones
    /// its members dictate. Whether the name list and the member list have
    /// the same length is the caller's responsibility; construction does
    /// not validate it.
    pub open spec fn wf(self) -> bool {
        &&& self.layout == frame_layout(self.data@)
        &&& self.len == frame_len(self.data@)
    }

    /// Builds a frame over named members. Layout and row count are derived
    /// once, from the first member alone; later members are accepted
    /// without validation.
    pub fn new(names: Names, data: Vec<Data>) -> (r: Self)
        ensures
            r.names@ == names@,
            r.data@ == data@,
            r.layout == frame_layout(data@),
            r.len == frame_len(data@),
            r.wf(),
    {
        let size = data.len();
        let layout = if size == 0 {
            Layout::Scalar
        } else {
            layout_of_data(&data[0])
        };
        let count: usize = if size > 0 {
            match layout {
                Layout::Row => size,
                _ => data[0].len,
            }
        } else {
            0
        };
        Frame { len: count, layout, names, data: std::rc::Rc::new(data) }
    }

    /// `new` with synthetic names `"0", "1", ...`, one per member.
    pub fn new_anon(data: Vec<Data>) -> (r: Self)
        ensures
            r.names@.len() == data@.len(),
            forall|i: int| 0 <= i < data@.len() ==> r.names@[i]@ == dec_chars(i as nat),
            r.data@ == data@,
            r.layout == frame_layout(data@),
            r.len == frame_len(data@),
            r.wf(),
    {
        let mut list: Names = Vec::new();
        let mut i: usize = 0;
        while i < data.len()
            invariant
                0 <= i <= data@.len(),
                list@.len() == i,
                forall|j: int| 0 <= j < i ==> list@[j]@ == dec_chars(j as nat),
            decreases data@.len() - i,
        {
            list.push(dec_string(i));
            i = i + 1;
        }
        Frame::new(list, data)
    }

    /// A frame with names but no members.
    pub fn empty(names: Names) -> (r: Self)
        ensures
            r.names@ == names@,
            r.data@ == Seq::<Data>::empty(),
            r.layout == Layout::Scalar,
            r.len == 0,
            r.wf(),
    {
        Frame::new(names, Vec::new())
    }

    /// Wraps all values of one typed array as a single row-tuple. The
    /// position is ignored: the whole array becomes the row. This is the
    /// one-column quirk of the capability surface, and deliberate.
    pub fn row_data(of: &Data, pos: usize) -> (r: Data)
        ensures
            r.kind == DataType::Tuple,
            r.len == of.data@.len(),
            r@ == of@,
            r.wf(),
    {
        let mut rows: Vec<Scalar> = Vec::new();
        let src: &Vec<Scalar> = &of.data;
        let mut i: usize = 0;
        while i < src.len()
            invariant
                0 <= i <= src@.len(),
                rows@.len() == i,
                forall|j: int| 0 <= j < i ==> scalar_view(rows@[j]) == scalar_view(src@[j]),
            decreases src@.len() - i,
        {
            rows.push(src[i].clone());
            i = i + 1;
        }
        let r = Data::new(rows, DataType::Tuple);
        proof {
            assert(r@ =~= of@);
        }
        r
    }

    /// Gathers, for position `pos`, one value from each member into a
    /// `Tuple` typed array: one row of the frame. Fails with
    /// `IndexOutOfRange` when any member is too short.
    pub fn row(of: &Frame, pos: usize) -> (r: Result<Data, RelError>)
        ensures
            (match r {
                Ok(d) => {
                    &&& gather_ok(of.data@, pos as int)
                    &&& d.kind == DataType::Tuple
                    &&& d.len == of.data@.len()
                    &&& d@ == gather_values(of.data@, pos as int)
                    &&& d.wf()
                },
                Err(e) => !gather_ok(of.data@, pos as int) && e == RelError::IndexOutOfRange,
            }),
    {
        match Frame::gather(of, pos, DataType::Tuple) {
            Ok(d) => Ok(d),
            Err(e) => Err(e),
        }
    }

    /// Reconstructs column `pos` of a row-major frame by gathering element
    /// `pos` from every row-tuple: the transpose operation. The kind is
    /// taken from the last member, `Null` when there are none. Fails with
    /// `IndexOutOfRange` when any member is too short.
    pub fn col(of: &Frame, pos: usize) -> (r: Result<Data, RelError>)
        ensures
            (match r {
                Ok(d) => {
                    &&& gather_ok(of.data@, pos as int)
                    &&& d.kind == gather_kind(of.data@)
                    &&& d.len == of.data@.len()
                    &&& d@ == gather_values(of.data@, pos as int)
                    &&& d.wf()
                },
                Err(e) => !gather_ok(of.data@, pos as int) && e == RelError::IndexOutOfRange,
            }),
    {
        let members: &Vec<Data> = &of.data;
        let kind = if members.len() == 0 {
            DataType::Null
        } else {
            members[members.len() - 1].kind
        };
        match Frame::gather(of, pos, kind) {
            Ok(d) => Ok(d),
            Err(e) => Err(e),
        }
    }

    /// The shared gathering loop behind `row` and `col`.
    fn gather(of: &Frame, pos: usize, kind: DataType) -> (r: Result<Data, RelError>)
        ensures
            (match r {
                Ok(d) => {
                    &&& gather_ok(of.data@, pos as int)
                    &&& d.kind == kind
                    &&& d.len == of.data@.len()
                    &&& d@ == gather_values(of.data@, pos as int)
                    &&& d.wf()
                },
                Err(e) => !gather_ok(of.data@, pos as int) && e == RelError::IndexOutOfRange,
            }),
    {
        let members: &Vec<Data> = &of.data;
        let mut rows: Vec<Scalar> = Vec::new();
        let mut i: usize = 0;
        while i < members.len()
            invariant
                members@ == of.data@,
                0 <= i <= members@.len(),
                rows@.len() == i,
                forall|j: int| 0 <= j < i ==> 0 <= pos < (#[trigger] members@[j].data@).len(),
                forall|j: int| 0 <= j < i ==> scalar_view(rows@[j]) == members@[j]@[pos as int],
            decreases members@.len() - i,
        {
            let col: &Data = &members[i];
            let values: &Vec<Scalar> = &col.data;
            if pos >= values.len() {
                proof {
                    let k = i as int;
                    let p = pos as int;
                    assert(of.data@[k] == members@[k]);
                    assert(!(0 <= p < of.data@[k].data@.len()));
                    assert(!gather_ok(of.data@, p));
                }
                return Err(RelError::IndexOutOfRange);
            }
            rows.push(values[pos].clone());
            i = i + 1;
        }
        let d = Data::new(rows, kind);
        proof {
            assert(d@ =~= gather_values(of.data@, pos as int));
        }
        Ok(d)
    }
}

/// Row-count invariant of a well-formed frame: in row layout the row
/// count is the number of members; otherwise it is the first member's
/// declared length, and 0 when there are no members.
pub proof fn lemma_frame_row_count(f: Frame)
    requires
        f.wf(),
    ensures
        f.layout == Layout::Row ==> f.len == f.data@.len(),
        f.layout != Layout::Row && f.data@.len() > 0 ==> f.len == f.data@[0].len,
        f.data@.len() == 0 ==> f.len == 0,
{
}

/// Transpose correctness: take `m` columns of `n` values each. A frame
/// `f` holding them as `n` row-tuples in row layout reconstructs, at each
/// position `i`, the very column a column-major frame `g` over the same
/// data stores there.
pub proof fn lemma_transpose_round_trip(
    f: Frame,
    g: Frame,
    cols: Seq<Seq<ScalarV>>,
    n: int,
    m: int,
    i: int,
)
    requires
        f.layout == Layout::Row,
        f.data@.len() == n,
        cols.len() == m,
        forall|k: int| 0 <= k < m ==> (#[trigger] cols[k]).len() == n,
        forall|j: int| 0 <= j < n ==> (#[trigger] f.data@[j].data@).len() == m,
        forall|j: int| 0 <= j < n ==> (#[trigger] f.data@[j])@ == Seq::new(m as nat, |k: int| cols[k][j]),
        g.layout != Layout::Row,
        g.data@.len() == m,
        forall|k: int| 0 <= k < m ==> (#[trigger] g.data@[k])@ == cols[k],
        0 <= i < m,
    ensures
        f.col_ok(i),
        g.col_ok(i),
        f.col_model(i).values == cols[i],
        g.col_model(i).values == cols[i],
{
    assert forall|j: int| 0 <= j < n implies gather_values(f.data@, i)[j] == cols[i][j] by {
        assert(f.data@[j]@ == Seq::new(m as nat, |k: int| cols[k][j]));
        assert(f.data@[j]@[i] == cols[i][j]);
    }
    assert(gather_values(f.data@, i) =~= cols[i]);
}

/// The position of the first occurrence of `name` in `list`, or -1 when
/// the name is absent.
pub open spec fn find_name(list: Seq<Seq<char>>, name: Seq<char>) -> int
    decreases list.len(),
{
    if list.len() == 0 {
        -1
    } else if list[0] == name {
        0
    } else {
        let rest = find_name(list.drop_first(), name);
        if rest == -1 {
            -1
        } else {
            rest + 1
        }
    }
}

/// What `find_name` returns: a position holding the name, with nothing but
/// other names before it, or -1 when no position holds it.
pub proof fn lemma_find_name(list: Seq<Seq<char>>, name: Seq<char>)
    ensures
        find_name(list, name) == -1 ==> forall|j: int| 0 <= j < list.len() ==> list[j] != name,
        find_name(list, name) != -1 ==> {
            &&& 0 <= find_name(list, name) < list.len()
            &&& list[find_name(list, name)] == name
        },
    decreases list.len(),
{
    if list.len() > 0 && list[0] != name {
        lemma_find_name(list.drop_first(), name);
        if find_name(list, name) == -1 {
            assert forall|j: int| 0 <= j < list.len() implies list[j] != name by {
                if j > 0 {
                    assert(list.drop_first()[j - 1] == list[j]);
                }
            }
        } else {
            assert(list.drop_first()[find_name(list, name) - 1] == list[find_name(list, name)]);
        }
    }
}

/// `find_name` returns the position of the first occurrence.
pub proof fn lemma_find_name_at(list: Seq<Seq<char>>, name: Seq<char>, i: int)
    requires
        0 <= i < list.len(),
        list[i] == name,
        forall|j: int| 0 <= j < i ==> list[j] != name,
    ensures
        find_name(list, name) == i,
    decreases i,
{
    if i > 0 {
        assert(list[0] != name);
        assert forall|j: int| 0 <= j < i - 1 implies list.drop_first()[j] != name by {
            assert(list.drop_first()[j] == list[j + 1]);
        }
        assert(list.drop_first()[i - 1] == list[i]);
        lemma_find_name_at(list.drop_first(), name, i - 1);
    }
}

/// `find_name` returns -1 when no position holds the name.
pub proof fn lemma_find_name_none(list: Seq<Seq<char>>, name: Seq<char>)
    requires
        forall|j: int| 0 <= j < list.len() ==> list[j] != name,
    ensures
        find_name(list, name) == -1,
    decreases list.len(),
{
    if list.len() > 0 {
        assert forall|j: int| 0 <= j < list.len() - 1 implies list.drop_first()[j] != name by {
            assert(list.drop_first()[j] == list[j + 1]);
        }
        lemma_find_name_none(list.drop_first(), name);
    }
}

/// Finds the position of `name` in a list of owned names.
fn find_name_exec(fields: &Vec<String>, name: &String) -> (r: Option<usize>)
    ensures
        (match r {
            Some(i) => find_name(fields.deep_view(), name@) == i as int,
            None => find_name(fields.deep_view(), name@) == -1,
        }),
{
    let mut i: usize = 0;
    while i < fields.len()
        invariant
            0 <= i <= fields@.len(),
            forall|j: int| 0 <= j < i ==> fields.deep_view()[j] != name@,
        decreases fields@.len() - i,
    {
        let f: &String = &fields[i];
        if *f == *name {
            proof {
                assert(fields.deep_view()[i as int] == fields@[i as int]@);
                lemma_find_name_at(fields.deep_view(), name@, i as int);
            }
            return Some(i);
        }
        proof {
            assert(fields.deep_view()[i as int] == fields@[i as int]@);
        }
        i = i + 1;
    }
    proof {
        lemma_find_name_none(fields.deep_view(), name@);
    }
    None
}

/// Resolves one addressing token against a list of names: a position looks
/// the name up, a name must be present and comes back unchanged.
pub open spec fn resolve_one(list: Seq<Seq<char>>, e: ColumnExpV) -> Result<Seq<char>, RelError> {
    match e {
        ColumnExpV::Pos(i) => if 0 <= i < list.len() {
            Ok(list[i])
        } else {
            Err(RelError::IndexOutOfRange)
        },
        ColumnExpV::Name(s) => if find_name(list, s) == -1 {
            Err(RelError::NameNotFound)
        } else {
            Ok(s)
        },
    }
}

/// Resolves a list of addressing tokens left to right, stopping at the
/// first failure.
pub open spec fn resolve_names_spec(list: Seq<Seq<char>>, of: Seq<ColumnExpV>) -> Result<
    Seq<Seq<char>>,
    RelError,
>
    decreases of.len(),
{
    if of.len() == 0 {
        Ok(Seq::empty())
    } else {
        match resolve_one(list, of[0]) {
            Err(e) => Err(e),
            Ok(n) => match resolve_names_spec(list, of.drop_first()) {
                Err(e) => Err(e),
                Ok(rest) => Ok(seq![n] + rest),
            },
        }
    }
}

/// Resolving one more token on the right extends a successful resolution
/// and keeps a failed one.
pub proof fn lemma_resolve_names_push(list: Seq<Seq<char>>, of: Seq<ColumnExpV>, e: ColumnExpV)
    ensures
        resolve_names_spec(list, of.push(e)) == (match resolve_names_spec(list, of) {
            Err(err) => Err::<Seq<Seq<char>>, RelError>(err),
            Ok(rest) => match resolve_one(list, e) {
                Err(err) => Err::<Seq<Seq<char>>, RelError>(err),
                Ok(n) => Ok::<Seq<Seq<char>>, RelError>(rest.push(n)),
            },
        }),
    decreases of.len(),
{
    let whole = of.push(e);
    if of.len() == 0 {
        assert(whole.len() == 1);
        assert(whole[0] == e);
        assert(whole.drop_first() =~= Seq::<ColumnExpV>::empty());
        assert(resolve_names_spec(list, whole.drop_first()) == Ok::<Seq<Seq<char>>, RelError>(
            Seq::empty(),
        ));
        assert(resolve_names_spec(list, of) == Ok::<Seq<Seq<char>>, RelError>(Seq::empty()));
        match resolve_one(list, e) {
            Err(_) => {},
            Ok(n) => {
                assert(seq![n] + Seq::<Seq<char>>::empty() =~= Seq::<Seq<char>>::empty().push(n));
            },
        }
    } else {
        assert(whole.len() == of.len() + 1);
        assert(whole[0] == of[0]);
        assert(whole.drop_first() =~= of.drop_first().push(e));
        lemma_resolve_names_push(list, of.drop_first(), e);
        assert(resolve_names_spec(list, whole.drop_first()) == resolve_names_spec(
            list,
            of.drop_first().push(e),
        ));
        match resolve_one(list, of[0]) {
            Err(_) => {
                assert(resolve_names_spec(list, whole) == resolve_names_spec(list, of));
            },
            Ok(n0) => {
                match resolve_names_spec(list, of.drop_first()) {
                    Err(_) => {},
                    Ok(rest) => {
                        match resolve_one(list, e) {
                            Err(_) => {},
                            Ok(ne) => {
                                assert(seq![n0] + rest.push(ne) =~= (seq![n0] + rest).push(ne));
                            },
                        }
                    },
                }
            },
        }
    }
}

/// A failed resolution of a prefix decides the whole list.
pub proof fn lemma_resolve_names_prefix_err(list: Seq<Seq<char>>, of: Seq<ColumnExpV>, n: int)
    requires
        0 <= n <= of.len(),
        resolve_names_spec(list, of.take(n)) is Err,
    ensures
        resolve_names_spec(list, of) == resolve_names_spec(list, of.take(n)),
    decreases of.len() - n,
{
    if n == of.len() {
        assert(of.take(n) =~= of);
    } else {
        assert(of.take(n + 1) =~= of.take(n).push(of[n]));
        lemma_resolve_names_push(list, of.take(n), of[n]);
        lemma_resolve_names_prefix_err(list, of, n + 1);
    }
}

/// The uniform capability surface of a relation: layout, counts, names,
/// and row/column access, implemented by frames and by bare typed arrays.
pub trait Relation: Sized {
    /// The relation's layout.
    spec fn layout_spec(&self) -> Layout;

    /// The number of named members.
    spec fn col_count_spec(&self) -> int;

    /// The number of rows.
    spec fn row_count_spec(&self) -> int;

    /// The ordered member names.
    spec fn names_spec(&self) -> Seq<Seq<char>>;

    /// Whether `row(pos)` succeeds.
    spec fn row_ok(&self, pos: int) -> bool;

    /// The typed array `row(pos)` returns when it succeeds.
    spec fn row_model(&self, pos: int) -> DataM;

    /// Whether `col(pos)` succeeds.
    spec fn col_ok(&self, pos: int) -> bool;

    /// The typed array `col(pos)` returns when it succeeds.
    spec fn col_model(&self, pos: int) -> DataM;

    fn layout(&self) -> (r: Layout)
        ensures
            r == self.layout_spec(),
    ;

    fn col_count(&self) -> (r: usize)
        ensures
            r == self.col_count_spec(),
    ;

    fn row_count(&self) -> (r: usize)
        ensures
            r == self.row_count_spec(),
    ;

    fn names(&self) -> (r: Names)
        ensures
            r.deep_view() == self.names_spec(),
    ;

    fn row(&self, pos: usize) -> (r: Result<Data, RelError>)
        ensures
            (match r {
                Ok(d) => self.row_ok(pos as int) && data_model(d) == self.row_model(pos as int),
                Err(e) => !self.row_ok(pos as int) && e == RelError::IndexOutOfRange,
            }),
    ;

    fn col(&self, pos: usize) -> (r: Result<Data, RelError>)
        ensures
            (match r {
                Ok(d) => self.col_ok(pos as int) && data_model(d) == self.col_model(pos as int),
                Err(e) => !self.col_ok(pos as int) && e == RelError::IndexOutOfRange,
            }),
    ;

    /// Resolves each addressing token to a concrete member name, left to
    /// right, failing at the first token that does not resolve.
    fn resolve_names(&self, of: Vec<&ColumnExp>) -> (r: Result<Names, RelError>)
        ensures
            (match r {
                Ok(list) => resolve_names_spec(self.names_spec(), of.deep_view()) == Ok::<
                    Seq<Seq<char>>,
                    RelError,
                >(list.deep_view()),
                Err(e) => resolve_names_spec(self.names_spec(), of.deep_view()) == Err::<
                    Seq<Seq<char>>,
                    RelError,
                >(e),
            }),
    {
        let fields = self.names();
        let mut out: Names = Vec::new();
        let mut i: usize = 0;
        proof {
            assert(of.deep_view().take(0) =~= Seq::<ColumnExpV>::empty());
            assert(out.deep_view() =~= Seq::<Seq<char>>::empty());
        }
        while i < of.len()
            invariant
                0 <= i <= of@.len(),
                fields.deep_view() == self.names_spec(),
                resolve_names_spec(self.names_spec(), of.deep_view().take(i as int)) == Ok::<
                    Seq<Seq<char>>,
                    RelError,
                >(out.deep_view()),
            decreases of@.len() - i,
        {
            let ghost prefix = of.deep_view().take(i as int);
            let pick: &ColumnExp = of[i];
            let resolved: String = match pick {
                ColumnExp::Pos(x) => {
                    if *x < fields.len() {
                        fields[*x].clone()
                    } else {
                        proof {
                            lemma_resolve_names_push(self.names_spec(), prefix, pick@);
                            assert(of.deep_view().take(i + 1) =~= prefix.push(pick@));
                            lemma_resolve_names_prefix_err(
                                self.names_spec(),
                                of.deep_view(),
                                i + 1,
                            );
                        }
                        return Err(RelError::IndexOutOfRange);
                    }
                },
                ColumnExp::Name(x) => {
                    match find_name_exec(&fields, x) {
                        Some(pos) => {
                            proof {
                                lemma_find_name(self.names_spec(), x@);
                            }
                            fields[pos].clone()
                        },
                        None => {
                            proof {
                                lemma_resolve_names_push(self.names_spec(), prefix, pick@);
                                assert(of.deep_view().take(i + 1) =~= prefix.push(pick@));
                                lemma_resolve_names_prefix_err(
                                    self.names_spec(),
                                    of.deep_view(),
                                    i + 1,
                                );
                            }
                            return Err(RelError::NameNotFound);
                        },
                    }
                },
            };
            out.push(resolved);
            proof {
                lemma_resolve_names_push(self.names_spec(), prefix, pick@);
                assert(of.deep_view().take(i + 1) =~= prefix.push(pick@));
                assert(out.deep_view() =~= resolve_names_spec(
                    self.names_spec(),
                    of.deep_view().take(i + 1),
                ).unwrap());
            }
            i = i + 1;
        }
        proof {
            assert(of.deep_view().take(of@.len() as int) =~= of.deep_view());
        }
        Ok(out)
    }

    /// Finds the member of the given name and returns it as a column.
    fn get_col(&self, name: &String) -> (r: Result<Data, RelError>)
        ensures
            (match r {
                Ok(d) => {
                    &&& find_name(self.names_spec(), name@) >= 0
                    &&& self.col_ok(find_name(self.names_spec(), name@))
                    &&& data_model(d) == self.col_model(find_name(self.names_spec(), name@))
                },
                Err(RelError::NameNotFound) => find_name(self.names_spec(), name@) == -1,
                Err(e) => {
                    &&& find_name(self.names_spec(), name@) >= 0
                    &&& !self.col_ok(find_name(self.names_spec(), name@))
                    &&& e == RelError::IndexOutOfRange
                },
            }),
    {
        let fields = self.names();
        match find_name_exec(&fields, name) {
            Some(pos) => {
                proof {
                    lemma_find_name(self.names_spec(), name@);
                }
                self.col(pos)
            },
            None => Err(RelError::NameNotFound),
        }
    }
}

/// The two-dimensional relation: named members, read per the layout
/// decided at construction.
impl Relation for Frame {
    open spec fn layout_spec(&self) -> Layout {
        self.layout
    }

    open spec fn col_count_spec(&self) -> int {
        self.names@.len() as int
    }

    open spec fn row_count_spec(&self) -> int {
        self.len as int
    }

    open spec fn names_spec(&self) -> Seq<Seq<char>> {
        self.names.deep_view()
    }

    open spec fn row_ok(&self, pos: int) -> bool {
        gather_ok(self.data@, pos)
    }

    open spec fn row_model(&self, pos: int) -> DataM {
        DataM {
            kind: DataType::Tuple,
            len: self.data@.len() as int,
            values: gather_values(self.data@, pos),
        }
    }

    open spec fn col_ok(&self, pos: int) -> bool {
        if self.layout == Layout::Row {
            gather_ok(self.data@, pos)
        } else {
            0 <= pos < self.data@.len()
        }
    }

    open spec fn col_model(&self, pos: int) -> DataM {
        if self.layout == Layout::Row {
            DataM {
                kind: gather_kind(self.data@),
                len: self.data@.len() as int,
                values: gather_values(self.data@, pos),
            }
        } else {
            data_model(self.data@[pos])
        }
    }

    fn layout(&self) -> (r: Layout) {
        self.layout
    }

    fn col_count(&self) -> (r: usize) {
        self.names.len()
    }

    fn row_count(&self) -> (r: usize) {
        self.len
    }

    fn names(&self) -> (r: Names) {
        let r = self.names.clone();
        proof {
            assert(r.deep_view() =~= self.names.deep_view());
        }
        r
    }

    fn row(&self, pos: usize) -> (r: Result<Data, RelError>) {
        Frame::row(self, pos)
    }

    fn col(&self, pos: usize) -> (r: Result<Data, RelError>) {
        match self.layout {
            Layout::Row => Frame::col(self, pos),
            _ => {
                let members: &Vec<Data> = &self.data;
                if pos < members.len() {
                    Ok(members[pos].clone())
                } else {
                    Err(RelError::IndexOutOfRange)
                }
            },
        }
    }
}

/// The one-dimensional relation: a bare typed array acts as a single
/// anonymous column named `"item"`.
impl Relation for Data {
    /// A bare typed array always reports `Col`, whatever its inferred
    /// layout would be: a deliberate quirk of the one-column case.
    open spec fn layout_spec(&self) -> Layout {
        Layout::Col
    }

    open spec fn col_count_spec(&self) -> int {
        1
    }

    open spec fn row_count_spec(&self) -> int {
        self.len as int
    }

    open spec fn names_spec(&self) -> Seq<Seq<char>> {
        seq!["item"@]
    }

    /// `row` on a bare typed array always succeeds: it ignores the
    /// position and wraps the whole array (the one-column quirk).
    open spec fn row_ok(&self, pos: int) -> bool {
        true
    }

    open spec fn row_model(&self, pos: int) -> DataM {
        DataM { kind: DataType::Tuple, len: self.data@.len() as int, values: self@ }
    }

    /// `col` on a bare typed array always succeeds: it returns the array
    /// itself, whatever the position.
    open spec fn col_ok(&self, pos: int) -> bool {
        true
    }

    open spec fn col_model(&self, pos: int) -> DataM {
        data_model(*self)
    }

    fn layout(&self) -> (r: Layout) {
        Layout::Col
    }

    fn col_count(&self) -> (r: usize) {
        1
    }

    fn row_count(&self) -> (r: usize) {
        self.len
    }

    fn names(&self) -> (r: Names) {
        let mut out: Names = Vec::new();
        out.push(String::from_str("item"));
        proof {
            assert(out.deep_view() =~= seq!["item"@]);
        }
        out
    }

    fn row(&self, pos: usize) -> (r: Result<Data, RelError>) {
        Ok(Frame::row_data(self, pos))
    }

    fn col(&self, pos: usize) -> (r: Result<Data, RelError>) {
        Ok(self.clone())
    }
}

} // verus!
