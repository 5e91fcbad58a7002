//! The storage adapter's decisions: for each method that the SQL engine
//! asks of a store, and each table, whether the call is handed to the store
//! of the physical tables, answered from a scan, or refused.
//!
//! A virtual table is read-only without exception: every method that would
//! change it is refused before anything is touched.

use vstd::prelude::*;
use crate::error::{Error, ErrorKind};
use crate::schema::{is_virtual_table, kind_of, TableKind};
use crate::text::concat;

verus! {

/// The methods that the SQL engine asks of a store.
#[derive(Clone, Copy, Debug, PartialEq, Eq, Structural)]
pub enum StoreMethod {
    FetchSchema,
    FetchAllSchemas,
    FetchData,
    ScanData,
    ScanIndexedData,
    InsertSchema,
    DeleteSchema,
    AppendData,
    InsertData,
    DeleteData,
    CreateIndex,
    DropIndex,
    RenameSchema,
    RenameColumn,
    AddColumn,
    DropColumn,
    Begin,
    Rollback,
    Commit,
    FetchFunction,
    FetchAllFunctions,
    InsertFunction,
    DeleteFunction,
}

impl StoreMethod {
    /// Whether the method changes a table: its rows, its schema or its
    /// indexes.
    pub open spec fn is_mutation(self) -> bool {
        match self {
            StoreMethod::InsertSchema
            | StoreMethod::DeleteSchema
            | StoreMethod::AppendData
            | StoreMethod::InsertData
            | StoreMethod::DeleteData
            | StoreMethod::CreateIndex
            | StoreMethod::DropIndex
            | StoreMethod::RenameSchema
            | StoreMethod::RenameColumn
            | StoreMethod::AddColumn
            | StoreMethod::DropColumn => true,
            _ => false,
        }
    }

    /// Whether the method speaks of one table. The others, the listing of
    /// all schemas, the transactions and the custom functions, are handed
    /// to the store of the physical tables whatever the table.
    pub open spec fn names_table(self) -> bool {
        match self {
            StoreMethod::FetchAllSchemas
            | StoreMethod::Begin
            | StoreMethod::Rollback
            | StoreMethod::Commit
            | StoreMethod::FetchFunction
            | StoreMethod::FetchAllFunctions
            | StoreMethod::InsertFunction
            | StoreMethod::DeleteFunction => false,
            _ => true,
        }
    }
}

/// What is done with a call.
#[derive(Clone, Debug, PartialEq, Eq)]
pub enum Route {
    /// The call is handed on, unchanged, to the store of the physical
    /// tables.
    Delegate,
    /// The answer is what the virtual table reports of itself.
    VirtualSchema,
    /// The answer is the row with the given key of a fresh scan.
    VirtualFetch,
    /// The answer is a fresh scan of the virtual table. A scan by an index
    /// ends here too: a virtual table has no index.
    VirtualScan,
    /// The call is refused.
    Reject(Error),
}

/// The model of a `Route`.
pub ghost enum RouteView {
    Delegate,
    VirtualSchema,
    VirtualFetch,
    VirtualScan,
    Reject(ErrorKind, Seq<char>),
}

impl View for Route {
    type V = RouteView;

    open spec fn view(&self) -> RouteView {
        match self {
            Route::Delegate => RouteView::Delegate,
            Route::VirtualSchema => RouteView::VirtualSchema,
            Route::VirtualFetch => RouteView::VirtualFetch,
            Route::VirtualScan => RouteView::VirtualScan,
            Route::Reject(e) => RouteView::Reject(e.kind(), e.detail()),
        }
    }
}

/// What a change of a virtual table is refused with, before the table's
/// name.
pub open spec fn refusal_of(method: StoreMethod) -> Seq<char> {
    match method {
        StoreMethod::InsertSchema => "Cannot create schema for virtual table"@,
        StoreMethod::DeleteSchema => "Cannot delete virtual table schema"@,
        StoreMethod::CreateIndex => "Cannot create index on virtual table"@,
        StoreMethod::DropIndex => "Cannot drop index on virtual table"@,
        StoreMethod::RenameSchema => "Cannot rename virtual table"@,
        StoreMethod::RenameColumn | StoreMethod::AddColumn | StoreMethod::DropColumn =>
            "Cannot alter virtual table"@,
        _ => "Write operations on virtual multi-file tables not yet supported"@,
    }
}

/// The detail of the refusal of a change of the virtual table `table`: it
/// names the table and says that it is virtual and read-only.
pub open spec fn rejection_detail(method: StoreMethod, table: Seq<char>) -> Seq<char> {
    refusal_of(method) + ": table '"@ + table + "' is virtual and read-only"@
}

/// What is done with the call of `method` on the table `table`.
pub open spec fn route_of(method: StoreMethod, table: Seq<char>) -> RouteView {
    if !method.names_table() || kind_of(table) != TableKind::Virtual {
        RouteView::Delegate
    } else if method.is_mutation() {
        RouteView::Reject(ErrorKind::WriteRejected, rejection_detail(method, table))
    } else {
        match method {
            StoreMethod::FetchSchema => RouteView::VirtualSchema,
            StoreMethod::FetchData => RouteView::VirtualFetch,
            _ => RouteView::VirtualScan,
        }
    }
}

/// The failure with which a change of a virtual table is refused.
pub fn write_rejected(method: StoreMethod, table_name: &str) -> (e: Error)
    ensures
        e.kind() == ErrorKind::WriteRejected,
        e.detail() == rejection_detail(method, table_name@),
{
    let refusal = match method {
        StoreMethod::InsertSchema => "Cannot create schema for virtual table",
        StoreMethod::DeleteSchema => "Cannot delete virtual table schema",
        StoreMethod::CreateIndex => "Cannot create index on virtual table",
        StoreMethod::DropIndex => "Cannot drop index on virtual table",
        StoreMethod::RenameSchema => "Cannot rename virtual table",
        StoreMethod::RenameColumn | StoreMethod::AddColumn | StoreMethod::DropColumn =>
            "Cannot alter virtual table",
        _ => "Write operations on virtual multi-file tables not yet supported",
    };
    let a = concat(refusal, ": table '");
    let b = concat(a.as_str(), table_name);
    Error::WriteRejected(concat(b.as_str(), "' is virtual and read-only"))
}

/// What is done with the call of `method` on the table `table_name`. For a
/// method that speaks of no table, the name does not count.
///
/// Whatever the method: a change of a virtual table is refused with
/// `WriteRejected`, and nothing else is.
pub fn route(method: StoreMethod, table_name: &str) -> (r: Route)
    ensures
        r@ == route_of(method, table_name@),
        (method.is_mutation() && kind_of(table_name@) == TableKind::Virtual) ==> (r is Reject
            && r->Reject_0.kind() == ErrorKind::WriteRejected),
        r is Reject ==> (method.is_mutation() && kind_of(table_name@) == TableKind::Virtual),
{
    match method {
        StoreMethod::FetchAllSchemas
        | StoreMethod::Begin
        | StoreMethod::Rollback
        | StoreMethod::Commit
        | StoreMethod::FetchFunction
        | StoreMethod::FetchAllFunctions
        | StoreMethod::InsertFunction
        | StoreMethod::DeleteFunction => Route::Delegate,
        StoreMethod::FetchSchema => if is_virtual_table(table_name) {
            Route::VirtualSchema
        } else {
            Route::Delegate
        },
        StoreMethod::FetchData => if is_virtual_table(table_name) {
            Route::VirtualFetch
        } else {
            Route::Delegate
        },
        StoreMethod::ScanData | StoreMethod::ScanIndexedData => if is_virtual_table(table_name) {
            Route::VirtualScan
        } else {
            Route::Delegate
        },
        StoreMethod::InsertSchema
        | StoreMethod::DeleteSchema
        | StoreMethod::AppendData
        | StoreMethod::InsertData
        | StoreMethod::DeleteData
        | StoreMethod::CreateIndex
        | StoreMethod::DropIndex
        | StoreMethod::RenameSchema
        | StoreMethod::RenameColumn
        | StoreMethod::AddColumn
        | StoreMethod::DropColumn => if is_virtual_table(table_name) {
            Route::Reject(write_rejected(method, table_name))
        } else {
            Route::Delegate
        },
    }
}

/// What is done with the renaming of the table `table_name` to
/// `new_table_name`: it is refused where either name is that of a virtual
/// table, with the first such name in the refusal.
pub fn route_rename(table_name: &str, new_table_name: &str) -> (r: Route)
    ensures
        r@ == if kind_of(table_name@) == TableKind::Virtual {
            route_of(StoreMethod::RenameSchema, table_name@)
        } else {
            route_of(StoreMethod::RenameSchema, new_table_name@)
        },
        r is Reject <==> (kind_of(table_name@) == TableKind::Virtual || kind_of(new_table_name@)
            == TableKind::Virtual),
        r is Reject ==> r->Reject_0.kind() == ErrorKind::WriteRejected,
{
    if is_virtual_table(table_name) {
        route(StoreMethod::RenameSchema, table_name)
    } else {
        route(StoreMethod::RenameSchema, new_table_name)
    }
}

} // verus!
