//! Building blocks: option maps, string helpers, detail encoding, and the
//! envelope row machinery.

use purifier::envelopes::{
    combine_group, dbz_envelope, dbz_format, envelope_custom_name, txn_metadata, upsert_format,
    ColumnField, ColumnType, Datum, DiffPair, Row, RowPacker, ScalarType,
};
use purifier::options::{
    check_unique_keys, find_option, ConnOptions, GlobalId, OptionValue, StmtOption,
    StringOrSecret,
};
use purifier::replication::{encode_details, generate_slot_name, PgColumn, PgTable};
use purifier::strutil::{format_bytes, join_with_commas, u64_to_string};

fn opt(key: &str, value: OptionValue) -> StmtOption {
    StmtOption { key: key.to_string(), value }
}

#[test]
fn conn_options_behave_like_a_map() {
    let mut m = ConnOptions::new();
    assert_eq!(m.len(), 0);
    m.insert("a".to_string(), StringOrSecret::Plain("1".to_string()));
    m.insert("b".to_string(), StringOrSecret::Secret(GlobalId::User(2)));
    m.insert("a".to_string(), StringOrSecret::Plain("3".to_string()));
    assert_eq!(m.len(), 2);
    assert_eq!(m.get("a"), Some(&StringOrSecret::Plain("3".to_string())));
    assert!(m.contains_key("b"));
    assert_eq!(m.remove("a"), Some(StringOrSecret::Plain("3".to_string())));
    assert_eq!(m.get("a"), None);
    assert_eq!(m.remove("a"), None);
    assert_eq!(m.len(), 1);
}

#[test]
fn duplicate_statement_options_are_rejected() {
    let ok = vec![
        opt("a", OptionValue::Num(1)),
        opt("b", OptionValue::Num(2)),
    ];
    assert!(check_unique_keys(&ok).is_ok());
    let dup = vec![
        opt("a", OptionValue::Num(1)),
        opt("b", OptionValue::Num(2)),
        opt("a", OptionValue::Num(3)),
    ];
    match check_unique_keys(&dup) {
        Err(purifier::errors::PurifyError::DuplicateOption { key }) => assert_eq!(key, "a"),
        other => panic!("expected a duplicate-key error, got {:?}", other),
    }
    assert_eq!(
        find_option(&dup, "b"),
        Some(&OptionValue::Num(2))
    );
    assert_eq!(find_option(&dup, "zzz"), None);
}

#[test]
fn decimal_and_hex_rendering() {
    assert_eq!(u64_to_string(0), "0");
    assert_eq!(u64_to_string(905), "905");
    assert_eq!(u64_to_string(u64::MAX), "18446744073709551615");
    assert_eq!(format_bytes(&vec![]), "\\x");
    assert_eq!(format_bytes(&vec![0x00, 0xff, 0x10]), "\\x00ff10");
    assert_eq!(join_with_commas(&vec![]), "");
    assert_eq!(
        join_with_commas(&vec!["a".to_string(), "b".to_string()]),
        "a,b"
    );
}

#[test]
fn slot_names_are_fresh_and_prefixed() {
    let a = generate_slot_name();
    let b = generate_slot_name();
    assert_eq!(a.len(), "purifier_".len() + 32);
    assert!(a.starts_with("purifier_"));
    assert_ne!(a, b);
}

#[test]
fn details_encoding_is_length_prefixed() {
    let tables = vec![PgTable {
        namespace: "public".to_string(),
        name: "t1".to_string(),
        columns: vec![
            PgColumn { name: "id".to_string(), type_oid: 23, nullable: false },
            PgColumn { name: "note".to_string(), type_oid: 25, nullable: true },
        ],
    }];
    let d = encode_details(&tables, "slot1");
    assert_eq!(d, "5:slot11;6:public2:t12;2:id23r4:note25n");
}

#[test]
fn dbz_format_packs_before_and_after() {
    let mut rp = RowPacker::new();
    dbz_format(
        &mut rp,
        DiffPair {
            before: None,
            after: Some(Row { data: vec![Datum::Int(1), Datum::Text("x".to_string())] }),
        },
    );
    let row = rp.finish();
    assert_eq!(
        row.data,
        vec![
            Datum::Null,
            Datum::List(vec![Datum::Int(1), Datum::Text("x".to_string())]),
        ]
    );
}

#[test]
fn upsert_format_takes_the_single_update() {
    let after = Row { data: vec![Datum::Int(9)] };
    let r = upsert_format(vec![DiffPair { before: None, after: Some(after) }]);
    assert_eq!(r, Some(Row { data: vec![Datum::Int(9)] }));
}

#[test]
fn dbz_envelope_wraps_columns() {
    let cols = vec![ColumnField {
        name: "a".to_string(),
        typ: ColumnType { nullable: false, scalar_type: ScalarType::Text },
    }];
    let r = dbz_envelope(cols);
    assert_eq!(r.len(), 2);
    assert_eq!(r[0].name, "before");
    assert_eq!(r[1].name, "after");
    assert!(r[0].typ.nullable);
    assert_eq!(r[0].typ, r[1].typ);
    match &r[1].typ.scalar_type {
        ScalarType::Record { fields, custom_id } => {
            assert_eq!(custom_id, &Some(GlobalId::Transient(2)));
            assert_eq!(fields.len(), 1);
            assert_eq!(fields[0].name, "a");
        }
        other => panic!("expected a record, got {:?}", other),
    }
}

#[test]
fn txn_metadata_appends_transaction_column() {
    let mut cols: Vec<ColumnField> = vec![];
    txn_metadata(&mut cols);
    assert_eq!(cols.len(), 1);
    assert_eq!(cols[0].name, "transaction");
    assert!(!cols[0].typ.nullable);
    match &cols[0].typ.scalar_type {
        ScalarType::Record { fields, custom_id } => {
            assert_eq!(custom_id, &Some(GlobalId::Transient(1)));
            assert_eq!(fields.len(), 1);
            assert_eq!(fields[0].name, "id");
            assert_eq!(fields[0].typ.scalar_type, ScalarType::Text);
        }
        other => panic!("expected a record, got {:?}", other),
    }
}

#[test]
fn envelope_names_cover_the_two_record_types() {
    assert_eq!(envelope_custom_name(GlobalId::Transient(1)), Some("transaction".to_string()));
    assert_eq!(envelope_custom_name(GlobalId::Transient(2)), Some("row".to_string()));
    assert_eq!(envelope_custom_name(GlobalId::User(1)), None);
}

#[test]
fn combine_group_pairs_retractions_with_insertions() {
    let old = Row { data: vec![Datum::Int(1)] };
    let new1 = Row { data: vec![Datum::Int(2)] };
    let elts = vec![(-1i64, old), (2i64, new1)];
    let pairs = combine_group(&elts);
    assert_eq!(pairs.len(), 2);
    assert_eq!(pairs[0].before, Some(Row { data: vec![Datum::Int(1)] }));
    assert_eq!(pairs[0].after, Some(Row { data: vec![Datum::Int(2)] }));
    assert_eq!(pairs[1].before, None);
    assert_eq!(pairs[1].after, Some(Row { data: vec![Datum::Int(2)] }));
}

#[test]
fn combine_group_expands_multiplicities() {
    let gone = Row { data: vec![Datum::Text("g".to_string())] };
    let elts = vec![(-3i64, gone)];
    let pairs = combine_group(&elts);
    assert_eq!(pairs.len(), 3);
    for p in &pairs {
        assert_eq!(p.before, Some(Row { data: vec![Datum::Text("g".to_string())] }));
        assert_eq!(p.after, None);
    }
}
