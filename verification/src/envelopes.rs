//! Change-data envelopes: the column shapes of Debezium-style envelopes
//! and the pairing of before/after rows at one timestamp.
//!
//! Rows are modeled as sequences of datums; the dataflow plumbing that
//! carries them lives outside, and hands the batch contents in as plain
//! vectors.

use vstd::prelude::*;

use crate::options::GlobalId;

verus! {

broadcast use
    vstd::seq::axiom_seq_index_decreases,
    vstd::std_specs::vec::axiom_vec_decreases_to_view,
    vstd::std_specs::vec::axiom_vec_index_decreases;

/// One value of a row.
#[derive(Debug, PartialEq, Eq)]
pub enum Datum {
    Null,
    Int(i64),
    Text(String),
    List(Vec<Datum>),
}

/// The mathematical value of a [`Datum`].
pub enum DatumView {
    Null,
    Int(i64),
    Text(Seq<char>),
    List(Seq<DatumView>),
}

/// The mathematical value of a datum.
pub open spec fn datum_view(d: Datum) -> DatumView
    decreases d,
{
    match d {
        Datum::Null => DatumView::Null,
        Datum::Int(n) => DatumView::Int(n),
        Datum::Text(s) => DatumView::Text(s@),
        Datum::List(ds) => DatumView::List(
            Seq::new(
                ds@.len(),
                |i: int|
                    if 0 <= i < ds@.len() {
                        datum_view(ds@[i])
                    } else {
                        DatumView::Null
                    },
            ),
        ),
    }
}

/// A copy of a datum, holding the same value.
pub fn clone_datum(d: &Datum) -> (r: Datum)
    ensures
        datum_view(r) == datum_view(*d),
    decreases *d,
{
    match d {
        Datum::Null => Datum::Null,
        Datum::Int(n) => Datum::Int(*n),
        Datum::Text(s) => Datum::Text(s.clone()),
        Datum::List(ds) => {
            let mut out: Vec<Datum> = Vec::new();
            let mut i: usize = 0;
            while i < ds.len()
                invariant
                    *d == Datum::List(*ds),
                    0 <= i <= ds@.len(),
                    out@.len() == i,
                    forall|k: int|
                        0 <= k < i ==> datum_view(#[trigger] out@[k]) == datum_view(ds@[k]),
                decreases ds@.len() - i,
            {
                proof {
                    vstd::std_specs::vec::axiom_vec_index_decreases(*ds, i as int);
                    assert(decreases_to!(*d => (*d)->List_0));
                    assert((*d)->List_0 == *ds);
                    assert(decreases_to!(*d => (*ds)[i as int]));
                }
                let c = clone_datum(&ds[i]);
                out.push(c);
                i += 1;
            }
            proof {
                let a = datum_view(Datum::List(out));
                let b = datum_view(Datum::List(*ds));
                assert(a->List_0 =~= b->List_0);
            }
            Datum::List(out)
        },
    }
}

/// A row: an ordered list of datums.
#[derive(Debug, PartialEq, Eq)]
pub struct Row {
    pub data: Vec<Datum>,
}

/// The mathematical value of a row.
pub open spec fn row_view(r: Row) -> Seq<DatumView> {
    Seq::new(
        r.data@.len(),
        |i: int|
            if 0 <= i < r.data@.len() {
                datum_view(r.data@[i])
            } else {
                DatumView::Null
            },
    )
}

/// A copy of a row, holding the same value.
pub fn clone_row(r: &Row) -> (c: Row)
    ensures
        row_view(c) == row_view(*r),
{
    let mut out: Vec<Datum> = Vec::new();
    let mut i: usize = 0;
    while i < r.data.len()
        invariant
            0 <= i <= r.data@.len(),
            out@.len() == i,
            forall|k: int|
                0 <= k < i ==> datum_view(#[trigger] out@[k]) == datum_view(r.data@[k]),
        decreases r.data@.len() - i,
    {
        let c = clone_datum(&r.data[i]);
        out.push(c);
        i += 1;
    }
    proof {
        assert(row_view(Row { data: out }) =~= row_view(*r));
    }
    Row { data: out }
}

/// A change at one timestamp: the row before and the row after.
#[derive(Debug, PartialEq, Eq)]
pub struct DiffPair {
    pub before: Option<Row>,
    pub after: Option<Row>,
}

/// The mathematical value of a pair.
pub open spec fn pair_view(p: DiffPair) -> (Option<Seq<DatumView>>, Option<Seq<DatumView>>) {
    (
        match p.before {
            Some(r) => Some(row_view(r)),
            None => None,
        },
        match p.after {
            Some(r) => Some(row_view(r)),
            None => None,
        },
    )
}

/// A row under construction.
#[derive(Debug, PartialEq, Eq)]
pub struct RowPacker {
    data: Vec<Datum>,
}

impl View for RowPacker {
    type V = Seq<Datum>;

    closed spec fn view(&self) -> Seq<Datum> {
        self.data@
    }
}

impl RowPacker {
    /// An empty packer.
    pub fn new() -> (r: RowPacker)
        ensures
            r@ =~= Seq::<Datum>::empty(),
    {
        RowPacker { data: Vec::new() }
    }

    /// Appends one datum.
    pub fn push(&mut self, d: Datum)
        ensures
            final(self)@ == old(self)@.push(d),
    {
        self.data.push(d);
    }

    /// The finished row.
    pub fn finish(self) -> (r: Row)
        ensures
            r.data@ == self@,
    {
        Row { data: self.data }
    }
}

/// A row rendered as a list datum, or null where there is no row.
pub open spec fn spec_list_or_null(o: Option<Row>) -> Datum {
    match o {
        Some(r) => Datum::List(r.data),
        None => Datum::Null,
    }
}

/// Packs one change pair in Debezium shape: the before row as a list or
/// null, then the after row as a list or null.
pub fn dbz_format(rp: &mut RowPacker, dp: DiffPair)
    ensures
        final(rp)@ == old(rp)@.push(spec_list_or_null(dp.before)).push(spec_list_or_null(dp.after)),
{
    let DiffPair { before, after } = dp;
    match before {
        Some(r) => rp.push(Datum::List(r.data)),
        None => rp.push(Datum::Null),
    }
    match after {
        Some(r) => rp.push(Datum::List(r.data)),
        None => rp.push(Datum::Null),
    }
}

/// Takes the single update of one key and timestamp; the upsert envelope
/// admits at most one, so more than one is a sink-key error the caller
/// must rule out.
pub fn upsert_format(dps: Vec<DiffPair>) -> (r: Option<Row>)
    requires
        dps@.len() == 1,
    ensures
        r == dps@[0].after,
{
    let mut dps = dps;
    match dps.pop() {
        Some(dp) => dp.after,
        None => unreached(),
    }
}

/// One column of a relation: its name and type.
#[derive(Debug, PartialEq, Eq)]
pub struct ColumnField {
    pub name: String,
    pub typ: ColumnType,
}

/// The type of one column.
#[derive(Debug, PartialEq, Eq)]
pub struct ColumnType {
    pub nullable: bool,
    pub scalar_type: ScalarType,
}

/// A scalar type, possibly a named record of further columns.
#[derive(Debug, PartialEq, Eq)]
pub enum ScalarType {
    Text,
    Record { fields: Vec<ColumnField>, custom_id: Option<GlobalId> },
}

/// The mathematical value of a column field.
pub struct ColumnFieldView {
    pub name: Seq<char>,
    pub typ: ColumnTypeView,
}

/// The mathematical value of a column type.
pub struct ColumnTypeView {
    pub nullable: bool,
    pub scalar_type: ScalarTypeView,
}

/// The mathematical value of a scalar type.
pub enum ScalarTypeView {
    Text,
    Record { fields: Seq<ColumnFieldView>, custom_id: Option<GlobalId> },
}

/// The mathematical value of a scalar type.
pub open spec fn scalar_type_view(s: ScalarType) -> ScalarTypeView
    decreases s,
{
    match s {
        ScalarType::Text => ScalarTypeView::Text,
        ScalarType::Record { fields, custom_id } => ScalarTypeView::Record {
            fields: Seq::new(
                fields@.len(),
                |i: int|
                    if 0 <= i < fields@.len() {
                        ColumnFieldView {
                            name: fields@[i].name@,
                            typ: ColumnTypeView {
                                nullable: fields@[i].typ.nullable,
                                scalar_type: scalar_type_view(fields@[i].typ.scalar_type),
                            },
                        }
                    } else {
                        ColumnFieldView {
                            name: Seq::empty(),
                            typ: ColumnTypeView {
                                nullable: false,
                                scalar_type: ScalarTypeView::Text,
                            },
                        }
                    },
            ),
            custom_id,
        },
    }
}

/// The mathematical value of a column type.
pub open spec fn column_type_view(c: ColumnType) -> ColumnTypeView {
    ColumnTypeView { nullable: c.nullable, scalar_type: scalar_type_view(c.scalar_type) }
}

/// The mathematical value of a column field.
pub open spec fn column_field_view(f: ColumnField) -> ColumnFieldView {
    ColumnFieldView { name: f.name@, typ: column_type_view(f.typ) }
}

/// The mathematical value of a field list.
pub open spec fn column_fields_view(fs: Seq<ColumnField>) -> Seq<ColumnFieldView> {
    Seq::new(
        fs.len(),
        |i: int|
            if 0 <= i < fs.len() {
                column_field_view(fs[i])
            } else {
                ColumnFieldView {
                    name: Seq::empty(),
                    typ: ColumnTypeView { nullable: false, scalar_type: ScalarTypeView::Text },
                }
            },
    )
}

/// A copy of a scalar type, holding the same value.
fn clone_scalar_type(s: &ScalarType) -> (r: ScalarType)
    ensures
        scalar_type_view(r) == scalar_type_view(*s),
    decreases *s,
{
    match s {
        ScalarType::Text => ScalarType::Text,
        ScalarType::Record { fields, custom_id } => {
            let mut out: Vec<ColumnField> = Vec::new();
            let mut i: usize = 0;
            while i < fields.len()
                invariant
                    *s == (ScalarType::Record { fields: *fields, custom_id: *custom_id }),
                    0 <= i <= fields@.len(),
                    out@.len() == i,
                    forall|k: int|
                        0 <= k < i ==> column_field_view(#[trigger] out@[k]) == column_field_view(
                            fields@[k],
                        ),
                decreases fields@.len() - i,
            {
                proof {
                    vstd::std_specs::vec::axiom_vec_index_decreases(*fields, i as int);
                    assert(decreases_to!(*s => (*s)->Record_fields));
                    assert((*s)->Record_fields == *fields);
                    assert(decreases_to!(*s => (*fields)[i as int]));
                }
                let f = &fields[i];
                let cloned = ColumnField {
                    name: f.name.clone(),
                    typ: ColumnType {
                        nullable: f.typ.nullable,
                        scalar_type: clone_scalar_type(&f.typ.scalar_type),
                    },
                };
                out.push(cloned);
                i += 1;
            }
            let r = ScalarType::Record { fields: out, custom_id: *custom_id };
            proof {
                assert(scalar_type_view(r)->Record_fields =~= scalar_type_view(
                    *s,
                )->Record_fields);
            }
            r
        },
    }
}

/// A copy of a column type, holding the same value.
pub fn clone_column_type(c: &ColumnType) -> (r: ColumnType)
    ensures
        column_type_view(r) == column_type_view(*c),
{
    ColumnType { nullable: c.nullable, scalar_type: clone_scalar_type(&c.scalar_type) }
}

/// The catalog id under which the transaction record type is named.
pub fn transaction_type_id() -> (r: GlobalId)
    ensures
        r == GlobalId::Transient(1),
{
    GlobalId::Transient(1)
}

/// The catalog id under which the Debezium row record type is named.
pub fn dbz_row_type_id() -> (r: GlobalId)
    ensures
        r == GlobalId::Transient(2),
{
    GlobalId::Transient(2)
}

/// The custom schema name attached to an envelope record type, if it has
/// one.
pub fn envelope_custom_name(id: GlobalId) -> (r: Option<String>)
    ensures
        match id {
            GlobalId::Transient(1) => r matches Some(s) && s@ == "transaction"@,
            GlobalId::Transient(2) => r matches Some(s) && s@ == "row"@,
            _ => r is None,
        },
{
    match id {
        GlobalId::Transient(1) => Some("transaction".to_owned()),
        GlobalId::Transient(2) => Some("row".to_owned()),
        _ => None,
    }
}

/// The column pair of a Debezium envelope: `before` and `after`, each a
/// nullable record of the relation's columns, named by the row type id.
pub fn dbz_envelope(names_and_types: Vec<ColumnField>) -> (r: Vec<ColumnField>)
    ensures
        ({
            let row = ColumnTypeView {
                nullable: true,
                scalar_type: ScalarTypeView::Record {
                    fields: column_fields_view(names_and_types@),
                    custom_id: Some(GlobalId::Transient(2)),
                },
            };
            &&& r@.len() == 2
            &&& column_field_view(r@[0]).name == "before"@
            &&& column_field_view(r@[0]).typ == row
            &&& column_field_view(r@[1]).name == "after"@
            &&& column_field_view(r@[1]).typ == row
        }),
{
    let ghost fields_v = column_fields_view(names_and_types@);
    let row = ColumnType {
        nullable: true,
        scalar_type: ScalarType::Record {
            fields: names_and_types,
            custom_id: Some(GlobalId::Transient(2)),
        },
    };
    let row2 = clone_column_type(&row);
    proof {
        assert(scalar_type_view(row.scalar_type)->Record_fields =~= fields_v);
    }
    let mut r: Vec<ColumnField> = Vec::new();
    r.push(ColumnField { name: "before".to_owned(), typ: row2 });
    r.push(ColumnField { name: "after".to_owned(), typ: row });
    r
}

/// Appends the transaction-metadata column: a non-nullable record holding
/// the transaction id, named by the transaction type id.
pub fn txn_metadata(names_and_types: &mut Vec<ColumnField>)
    ensures
        final(names_and_types)@.len() == old(names_and_types)@.len() + 1,
        forall|k: int|
            0 <= k < old(names_and_types)@.len() ==> final(names_and_types)@[k] == old(
                names_and_types,
            )@[k],
        ({
            let f = column_field_view(final(names_and_types)@.last());
            &&& f.name == "transaction"@
            &&& f.typ.nullable == false
            &&& f.typ.scalar_type matches ScalarTypeView::Record { fields, custom_id }
                && custom_id == Some(GlobalId::Transient(1)) && fields.len() == 1 && fields[0].name
                == "id"@ && fields[0].typ == (ColumnTypeView {
                nullable: false,
                scalar_type: ScalarTypeView::Text,
            })
        }),
{
    let mut inner: Vec<ColumnField> = Vec::new();
    inner.push(
        ColumnField {
            name: "id".to_owned(),
            typ: ColumnType { nullable: false, scalar_type: ScalarType::Text },
        },
    );
    let column = ColumnField {
        name: "transaction".to_owned(),
        typ: ColumnType {
            nullable: false,
            scalar_type: ScalarType::Record {
                fields: inner,
                custom_id: Some(GlobalId::Transient(1)),
            },
        },
    };
    let ghost col = column;
    names_and_types.push(column);
    proof {
        assert(names_and_types@.last() == col);
        reveal_with_fuel(scalar_type_view, 3);
        let f = column_field_view(col);
        let flds = f.typ.scalar_type->Record_fields;
        assert(flds.len() == 1);
        assert(flds[0].name == "id"@);
        assert(flds[0].typ == (ColumnTypeView {
            nullable: false,
            scalar_type: ScalarTypeView::Text,
        }));
    }
}

/// A row repeated a number of times.
pub open spec fn repeat_row_v(rv: Seq<DatumView>, n: nat) -> Seq<Seq<DatumView>>
    decreases n,
{
    if n == 0 {
        Seq::empty()
    } else {
        repeat_row_v(rv, (n - 1) as nat).push(rv)
    }
}

/// The retractions of a group, each row repeated by its multiplicity.
pub open spec fn expand_befores_v(s: Seq<(i64, Seq<DatumView>)>) -> Seq<Seq<DatumView>>
    decreases s.len(),
{
    if s.len() == 0 {
        Seq::empty()
    } else {
        expand_befores_v(s.drop_last()) + (if s.last().0 < 0 {
            repeat_row_v(s.last().1, (-s.last().0) as nat)
        } else {
            Seq::empty()
        })
    }
}

/// The insertions of a group, each row repeated by its multiplicity.
pub open spec fn expand_afters_v(s: Seq<(i64, Seq<DatumView>)>) -> Seq<Seq<DatumView>>
    decreases s.len(),
{
    if s.len() == 0 {
        Seq::empty()
    } else {
        expand_afters_v(s.drop_last()) + (if s.last().0 > 0 {
            repeat_row_v(s.last().1, s.last().0 as nat)
        } else {
            Seq::empty()
        })
    }
}

/// Retractions and insertions paired up positionally; the shorter side is
/// padded with nothing.
pub open spec fn zip_pairs_v(b: Seq<Seq<DatumView>>, a: Seq<Seq<DatumView>>) -> Seq<
    (Option<Seq<DatumView>>, Option<Seq<DatumView>>),
> {
    Seq::new(
        if b.len() >= a.len() {
            b.len()
        } else {
            a.len()
        },
        |i: int|
            (
                if 0 <= i < b.len() {
                    Some(b[i])
                } else {
                    None
                },
                if 0 <= i < a.len() {
                    Some(a[i])
                } else {
                    None
                },
            ),
    )
}

/// Combines the changes of one key and timestamp into before/after pairs:
/// rows with negative multiplicity become `before` sides, rows with
/// positive multiplicity `after` sides, each repeated by its
/// multiplicity and paired up in order.
pub fn combine_group(elts: &Vec<(i64, Row)>) -> (r: Vec<DiffPair>)
    requires
        forall|i: int| 0 <= i < elts@.len() ==> (#[trigger] elts@[i]).0 != 0,
    ensures
        ({
            let iv = elts@.map_values(|e: (i64, Row)| (e.0, row_view(e.1)));
            r@.map_values(|p: DiffPair| pair_view(p)) == zip_pairs_v(
                expand_befores_v(iv),
                expand_afters_v(iv),
            )
        }),
{
    let ghost iv = elts@.map_values(|e: (i64, Row)| (e.0, row_view(e.1)));
    let mut befores: Vec<Row> = Vec::new();
    let mut afters: Vec<Row> = Vec::new();
    let mut i: usize = 0;
    proof {
        assert(iv.take(0) =~= Seq::<(i64, Seq<DatumView>)>::empty());
        assert(befores@.map_values(|r: Row| row_view(r)) =~= expand_befores_v(iv.take(0)));
        assert(afters@.map_values(|r: Row| row_view(r)) =~= expand_afters_v(iv.take(0)));
    }
    while i < elts.len()
        invariant
            0 <= i <= elts@.len(),
            iv == elts@.map_values(|e: (i64, Row)| (e.0, row_view(e.1))),
            forall|k: int| 0 <= k < elts@.len() ==> (#[trigger] elts@[k]).0 != 0,
            befores@.map_values(|r: Row| row_view(r)) == expand_befores_v(iv.take(i as int)),
            afters@.map_values(|r: Row| row_view(r)) == expand_afters_v(iv.take(i as int)),
        decreases elts@.len() - i,
    {
        proof {
            assert(iv.take(i + 1).drop_last() =~= iv.take(i as int));
            assert(iv.take(i + 1).last() == iv[i as int]);
        }
        let d = elts[i].0;
        if d < 0 {
            // The magnitude of the most negative value still fits in u64.
            let n: u64 = if d == i64::MIN {
                9223372036854775808u64
            } else {
                (-d) as u64
            };
            let ghost rv = row_view(elts@[i as int].1);
            let ghost base = befores@.map_values(|r: Row| row_view(r));
            let mut k: u64 = 0;
            while k < n
                invariant
                    0 <= k <= n,
                    0 <= i < elts@.len(),
                    n == -(iv[i as int].0) as int,
                    rv == iv[i as int].1,
                    iv == elts@.map_values(|e: (i64, Row)| (e.0, row_view(e.1))),
                    befores@.map_values(|r: Row| row_view(r)) == base + repeat_row_v(
                        rv,
                        k as nat,
                    ),
                decreases n - k,
            {
                let c = clone_row(&elts[i].1);
                let ghost before_push = befores@;
                befores.push(c);
                proof {
                    assert(row_view(c) == rv);
                    assert(repeat_row_v(rv, (k + 1) as nat) == repeat_row_v(rv, k as nat).push(
                        rv,
                    ));
                    let lhs = befores@.map_values(|r: Row| row_view(r));
                    let prev = before_push.map_values(|r: Row| row_view(r));
                    let rhs = base + repeat_row_v(rv, (k + 1) as nat);
                    assert(prev == base + repeat_row_v(rv, k as nat));
                    assert(befores@ == before_push.push(c));
                    assert(lhs.len() == prev.len() + 1);
                    assert(rhs.len() == prev.len() + 1);
                    assert forall|x: int| 0 <= x < lhs.len() implies lhs[x] == rhs[x] by {
                        assert(lhs[x] == row_view(befores@[x]));
                        if x < before_push.len() {
                            assert(befores@[x] == before_push[x]);
                            assert(prev[x] == row_view(before_push[x]));
                            assert(rhs[x] == prev[x]);
                        } else {
                            assert(befores@[x] == c);
                            assert(rhs[x] == rv);
                        }
                    }
                    assert(lhs =~= rhs);
                }
                k += 1;
            }
            proof {
                assert(befores@.map_values(|r: Row| row_view(r)) =~= expand_befores_v(
                    iv.take(i + 1),
                ));
                assert(afters@.map_values(|r: Row| row_view(r)) =~= expand_afters_v(
                    iv.take(i + 1),
                ));
            }
        } else {
            let n: u64 = d as u64;
            let ghost rv = row_view(elts@[i as int].1);
            let ghost base = afters@.map_values(|r: Row| row_view(r));
            let mut k: u64 = 0;
            while k < n
                invariant
                    0 <= k <= n,
                    0 <= i < elts@.len(),
                    iv[i as int].0 > 0,
                    n == iv[i as int].0 as int,
                    rv == iv[i as int].1,
                    iv == elts@.map_values(|e: (i64, Row)| (e.0, row_view(e.1))),
                    afters@.map_values(|r: Row| row_view(r)) == base + repeat_row_v(rv, k as nat),
                decreases n - k,
            {
                let c = clone_row(&elts[i].1);
                let ghost before_push = afters@;
                afters.push(c);
                proof {
                    assert(row_view(c) == rv);
                    assert(repeat_row_v(rv, (k + 1) as nat) == repeat_row_v(rv, k as nat).push(
                        rv,
                    ));
                    let lhs = afters@.map_values(|r: Row| row_view(r));
                    let prev = before_push.map_values(|r: Row| row_view(r));
                    let rhs = base + repeat_row_v(rv, (k + 1) as nat);
                    assert(prev == base + repeat_row_v(rv, k as nat));
                    assert(afters@ == before_push.push(c));
                    assert(lhs.len() == prev.len() + 1);
                    assert(rhs.len() == prev.len() + 1);
                    assert forall|x: int| 0 <= x < lhs.len() implies lhs[x] == rhs[x] by {
                        assert(lhs[x] == row_view(afters@[x]));
                        if x < before_push.len() {
                            assert(afters@[x] == before_push[x]);
                            assert(prev[x] == row_view(before_push[x]));
                            assert(rhs[x] == prev[x]);
                        } else {
                            assert(afters@[x] == c);
                            assert(rhs[x] == rv);
                        }
                    }
                    assert(lhs =~= rhs);
                }
                k += 1;
            }
            proof {
                assert(afters@.map_values(|r: Row| row_view(r)) =~= expand_afters_v(
                    iv.take(i + 1),
                ));
                assert(befores@.map_values(|r: Row| row_view(r)) =~= expand_befores_v(
                    iv.take(i + 1),
                ));
            }
        }
        i += 1;
    }
    proof {
        assert(iv.take(iv.len() as int) =~= iv);
    }
    let ghost bv = befores@.map_values(|r: Row| row_view(r));
    let ghost av = afters@.map_values(|r: Row| row_view(r));
    let m = if befores.len() >= afters.len() {
        befores.len()
    } else {
        afters.len()
    };
    let mut r: Vec<DiffPair> = Vec::new();
    let mut j: usize = 0;
    while j < m
        invariant
            0 <= j <= m,
            m == (if bv.len() >= av.len() {
                bv.len()
            } else {
                av.len()
            }),
            bv == befores@.map_values(|r: Row| row_view(r)),
            av == afters@.map_values(|r: Row| row_view(r)),
            r@.map_values(|p: DiffPair| pair_view(p)) == zip_pairs_v(bv, av).take(j as int),
        decreases m - j,
    {
        let before = if j < befores.len() {
            Some(clone_row(&befores[j]))
        } else {
            None
        };
        let after = if j < afters.len() {
            Some(clone_row(&afters[j]))
        } else {
            None
        };
        let ghost pv = pair_view(DiffPair { before, after });
        let ghost before_push = r@;
        r.push(DiffPair { before, after });
        proof {
            assert(pv == zip_pairs_v(bv, av)[j as int]) by {
                if j < bv.len() {
                    assert(bv[j as int] == row_view(befores@[j as int]));
                }
                if j < av.len() {
                    assert(av[j as int] == row_view(afters@[j as int]));
                }
            }
            let lhs = r@.map_values(|p: DiffPair| pair_view(p));
            let prev = before_push.map_values(|p: DiffPair| pair_view(p));
            let rhs = zip_pairs_v(bv, av).take(j + 1);
            assert(prev == zip_pairs_v(bv, av).take(j as int));
            assert(lhs.len() == prev.len() + 1);
            assert(rhs.len() == prev.len() + 1);
            assert forall|x: int| 0 <= x < lhs.len() implies lhs[x] == rhs[x] by {
                assert(lhs[x] == pair_view(r@[x]));
                if x < before_push.len() {
                    assert(r@[x] == before_push[x]);
                    assert(prev[x] == pair_view(before_push[x]));
                    assert(rhs[x] == prev[x]);
                } else {
                    assert(rhs[x] == zip_pairs_v(bv, av)[j as int]);
                }
            }
            assert(lhs =~= rhs);
        }
        j += 1;
    }
    proof {
        assert(zip_pairs_v(bv, av).take(m as int) =~= zip_pairs_v(bv, av));
    }
    r
}

} // verus!
