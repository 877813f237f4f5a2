//! Logical-replication details: upstream table metadata, a freshly minted
//! slot name, and the encoding of both into the declaration's opaque
//! details field.
//!
//! Minting a slot name is deliberately not idempotent: every run gets a
//! fresh name, so a failed run must be discarded whole and started over.

use vstd::prelude::*;

use crate::strutil::dec_digits;
use crate::strutil::push_char;
use crate::strutil::push_str;
use crate::strutil::u64_to_string;

verus! {

/// One column of an upstream table.
#[derive(Clone, Debug, PartialEq, Eq)]
pub struct PgColumn {
    pub name: String,
    pub type_oid: u32,
    pub nullable: bool,
}

/// The mathematical value of a [`PgColumn`].
pub struct PgColumnView {
    pub name: Seq<char>,
    pub type_oid: u32,
    pub nullable: bool,
}

impl View for PgColumn {
    type V = PgColumnView;

    open spec fn view(&self) -> PgColumnView {
        PgColumnView { name: self.name@, type_oid: self.type_oid, nullable: self.nullable }
    }
}

/// One table of an upstream publication.
#[derive(Clone, Debug, PartialEq, Eq)]
pub struct PgTable {
    pub namespace: String,
    pub name: String,
    pub columns: Vec<PgColumn>,
}

/// The mathematical value of a [`PgTable`].
pub struct PgTableView {
    pub namespace: Seq<char>,
    pub name: Seq<char>,
    pub columns: Seq<PgColumnView>,
}

impl View for PgTable {
    type V = PgTableView;

    open spec fn view(&self) -> PgTableView {
        PgTableView {
            namespace: self.namespace@,
            name: self.name@,
            columns: self.columns@.map_values(|c: PgColumn| c@),
        }
    }
}

/// A string encoded as its decimal length, a colon, and its characters.
pub open spec fn enc_str(s: Seq<char>) -> Seq<char> {
    dec_digits(s.len()) + seq![':'] + s
}

/// One encoded column: its name, type oid and nullability flag.
pub open spec fn enc_column(c: PgColumnView) -> Seq<char> {
    enc_str(c.name) + dec_digits(c.type_oid as nat) + seq![if c.nullable { 'n' } else { 'r' }]
}

/// The columns of a table, encoded in order.
pub open spec fn enc_columns(cs: Seq<PgColumnView>) -> Seq<char>
    decreases cs.len(),
{
    if cs.len() == 0 {
        Seq::empty()
    } else {
        enc_columns(cs.drop_last()) + enc_column(cs.last())
    }
}

/// One encoded table: namespace, name, column count and columns.
pub open spec fn enc_table(t: PgTableView) -> Seq<char> {
    enc_str(t.namespace) + enc_str(t.name) + dec_digits(t.columns.len()) + seq![';'] + enc_columns(
        t.columns,
    )
}

/// The tables of a publication, encoded in order.
pub open spec fn enc_tables(ts: Seq<PgTableView>) -> Seq<char>
    decreases ts.len(),
{
    if ts.len() == 0 {
        Seq::empty()
    } else {
        enc_tables(ts.drop_last()) + enc_table(ts.last())
    }
}

/// The details blob: the slot name, the table count, and the tables.
pub open spec fn details_of(tables: Seq<PgTableView>, slot: Seq<char>) -> Seq<char> {
    enc_str(slot) + dec_digits(tables.len()) + seq![';'] + enc_tables(tables)
}

/// Appends the encoding of one string.
fn push_enc_str(out: &mut String, s: &str)
    ensures
        final(out)@ == old(out)@ + enc_str(s@),
{
    let chars = crate::strutil::str_chars(s);
    let len_str = u64_to_string(chars.len() as u64);
    push_str(out, len_str.as_str());
    push_char(out, ':');
    push_str(out, s);
    proof {
        assert(out@ =~= old(out)@ + enc_str(s@));
    }
}

/// Appends the encoding of one column.
fn push_enc_column(out: &mut String, c: &PgColumn)
    ensures
        final(out)@ == old(out)@ + enc_column(c@),
{
    push_enc_str(out, c.name.as_str());
    let oid_str = u64_to_string(c.type_oid as u64);
    push_str(out, oid_str.as_str());
    push_char(out, if c.nullable { 'n' } else { 'r' });
    proof {
        assert(out@ =~= old(out)@ + enc_column(c@));
    }
}

/// Appends the encoding of one table.
fn push_enc_table(out: &mut String, t: &PgTable)
    ensures
        final(out)@ == old(out)@ + enc_table(t@),
{
    let ghost cols = t.columns@.map_values(|c: PgColumn| c@);
    push_enc_str(out, t.namespace.as_str());
    push_enc_str(out, t.name.as_str());
    let n_str = u64_to_string(t.columns.len() as u64);
    push_str(out, n_str.as_str());
    push_char(out, ';');
    let ghost before_cols = out@;
    let mut i: usize = 0;
    proof {
        assert(cols.take(0) =~= Seq::<PgColumnView>::empty());
    }
    while i < t.columns.len()
        invariant
            0 <= i <= t.columns@.len(),
            cols == t.columns@.map_values(|c: PgColumn| c@),
            out@ == before_cols + enc_columns(cols.take(i as int)),
        decreases t.columns@.len() - i,
    {
        push_enc_column(out, &t.columns[i]);
        proof {
            assert(cols.take(i + 1).drop_last() =~= cols.take(i as int));
            assert(cols.take(i + 1).last() == cols[i as int]);
            assert(out@ =~= before_cols + enc_columns(cols.take(i + 1)));
        }
        i += 1;
    }
    proof {
        assert(cols.take(cols.len() as int) =~= cols);
        assert(out@ =~= old(out)@ + enc_table(t@));
    }
}

/// Encodes the publication's tables and the slot name into the opaque
/// details text stored in the declaration.
pub fn encode_details(tables: &Vec<PgTable>, slot: &str) -> (r: String)
    ensures
        r@ == details_of(tables@.map_values(|t: PgTable| t@), slot@),
{
    let ghost ts = tables@.map_values(|t: PgTable| t@);
    let mut out = String::new();
    push_enc_str(&mut out, slot);
    let n_str = u64_to_string(tables.len() as u64);
    push_str(&mut out, n_str.as_str());
    push_char(&mut out, ';');
    let ghost before_tables = out@;
    let mut i: usize = 0;
    proof {
        assert(ts.take(0) =~= Seq::<PgTableView>::empty());
    }
    while i < tables.len()
        invariant
            0 <= i <= tables@.len(),
            ts == tables@.map_values(|t: PgTable| t@),
            out@ == before_tables + enc_tables(ts.take(i as int)),
        decreases tables@.len() - i,
    {
        push_enc_table(&mut out, &tables[i]);
        proof {
            assert(ts.take(i + 1).drop_last() =~= ts.take(i as int));
            assert(ts.take(i + 1).last() == ts[i as int]);
            assert(out@ =~= before_tables + enc_tables(ts.take(i + 1)));
        }
        i += 1;
    }
    proof {
        assert(ts.take(ts.len() as int) =~= ts);
        assert(out@ =~= details_of(ts, slot@));
    }
    out
}

/// Relies on `uuid::Uuid::new_v4` and the simple format: 32 lower-case
/// hexadecimal characters. The value is random, so only its shape is
/// stated; two calls may and should differ.
#[verifier::external_body]
fn fresh_uuid_simple() -> (r: String)
    ensures
        r@.len() == 32,
        forall|i: int|
            0 <= i < 32 ==> ('0' <= #[trigger] r@[i] <= '9' || 'a' <= r@[i] <= 'f'),
{
    uuid::Uuid::new_v4().as_simple().to_string()
}

/// Mints a fresh replication-slot name. Every call draws a new random
/// suffix, so a purification run that fails after this point must be
/// discarded whole, never silently retried.
pub fn generate_slot_name() -> (r: String)
    ensures
        r@.len() == "purifier_"@.len() + 32,
        r@.take("purifier_"@.len() as int) == "purifier_"@,
{
    let mut s = "purifier_".to_owned();
    let suffix = fresh_uuid_simple();
    push_str(&mut s, suffix.as_str());
    proof {
        assert(s@.take("purifier_"@.len() as int) =~= "purifier_"@);
    }
    s
}

} // verus!
