//! A read-only catalog snapshot and connection resolution.
//!
//! Resolving a connection reference never touches the network: it only
//! looks the name up in the snapshot and checks that the stored object is
//! a connection of the kind the context expects.

use vstd::prelude::*;

use crate::connections::Connection;
use crate::errors::ConnectionKind;
use crate::errors::PurifyError;
use crate::strutil::str_eq;

verus! {

/// One named object of the catalog snapshot.
#[derive(Clone, Debug, PartialEq, Eq)]
pub struct CatalogItem {
    pub name: String,
    pub connection: Connection,
}

/// An immutable snapshot of the catalog, taken when purification starts.
#[derive(Clone, Debug, PartialEq, Eq)]
pub struct CatalogSnapshot {
    pub items: Vec<CatalogItem>,
}

/// The first item under the given name, if any.
pub open spec fn cat_lookup(items: Seq<CatalogItem>, name: Seq<char>) -> Option<Connection>
    decreases items.len(),
{
    if items.len() == 0 {
        None
    } else if items[0].name@ == name {
        Some(items[0].connection)
    } else {
        cat_lookup(items.drop_first(), name)
    }
}

/// The kind of a connection value.
pub open spec fn spec_kind_of(c: Connection) -> ConnectionKind {
    match c {
        Connection::Kafka(_) => ConnectionKind::Kafka,
        Connection::Csr(_) => ConnectionKind::SchemaRegistry,
        Connection::Postgres(_) => ConnectionKind::Postgres,
        Connection::Ssh(_) => ConnectionKind::Ssh,
    }
}

impl CatalogSnapshot {
    /// An empty snapshot.
    pub fn new() -> (r: CatalogSnapshot)
        ensures
            r.items@.len() == 0,
    {
        CatalogSnapshot { items: Vec::new() }
    }

    /// Resolves a named connection reference against the snapshot.
    ///
    /// Succeeds exactly when the name is present and the stored object is
    /// a connection of the expected kind; the result is that connection's
    /// value.
    pub fn resolve_connection(&self, name: &str, expected: ConnectionKind) -> (r: Result<
        Connection,
        PurifyError,
    >)
        ensures
            match r {
                Ok(c) => (cat_lookup(self.items@, name@) matches Some(c0) && c@ == c0@
                    && spec_kind_of(c0) == expected && spec_kind_of(c) == expected),
                Err(e) => match cat_lookup(self.items@, name@) {
                    None => e matches PurifyError::UnknownCatalogItem { name: n } && n@ == name@,
                    Some(c0) => spec_kind_of(c0) != expected && (e matches
                        PurifyError::WrongConnectionKind { name: n, expected: x } && n@ == name@
                        && x == expected),
                },
            },
    {
        let ghost view = self.items@;
        proof {
            assert(view.skip(0) =~= view);
        }
        let mut i: usize = 0;
        while i < self.items.len()
            invariant
                0 <= i <= self.items@.len(),
                view == self.items@,
                cat_lookup(view, name@) == cat_lookup(view.skip(i as int), name@),
            decreases self.items@.len() - i,
        {
            let item = &self.items[i];
            if str_eq(item.name.as_str(), name) {
                proof {
                    assert(view.skip(i as int)[0] == view[i as int]);
                    assert(cat_lookup(view.skip(i as int), name@) == Some(
                        view[i as int].connection,
                    ));
                }
                let matches_kind = match (&item.connection, &expected) {
                    (Connection::Kafka(_), ConnectionKind::Kafka) => true,
                    (Connection::Csr(_), ConnectionKind::SchemaRegistry) => true,
                    (Connection::Postgres(_), ConnectionKind::Postgres) => true,
                    (Connection::Ssh(_), ConnectionKind::Ssh) => true,
                    _ => false,
                };
                if matches_kind {
                    return Ok(item.connection.clone_value());
                } else {
                    return Err(PurifyError::WrongConnectionKind {
                        name: name.to_owned(),
                        expected,
                    });
                }
            }
            proof {
                assert(view.skip(i as int)[0] == view[i as int]);
                assert(view.skip(i as int).drop_first() =~= view.skip(i + 1));
            }
            i += 1;
        }
        proof {
            assert(view.skip(self.items@.len() as int) =~= Seq::<CatalogItem>::empty());
        }
        Err(PurifyError::UnknownCatalogItem { name: name.to_owned() })
    }
}

} // verus!
