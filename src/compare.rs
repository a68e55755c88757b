use vstd::prelude::*;
use itertools::Itertools;
use crate::catalog::{
    Catalog, Column, ColumnPrivilege, Index, Routine, RoutinePrivilege, Schema, Sequence, Table,
    TableConstraint, TablePrivilege, TableTrigger,
};
use crate::catalog::View as ViewRow;
use crate::privilege::Privilege;
use crate::properties::{
    routine_outcomes, schema_outcomes, sequence_outcomes, table_column_outcomes,
    table_constraint_outcomes, table_index_outcomes, table_outcomes, trigger_outcomes,
    view_outcomes,
};
use crate::reconcile::{
    lemma_plan_bounds, lemma_shared_bounds, pair_shared, pairing_in_bounds, reconcile,
    reconciliation, shared_pairs, Pairing,
};
use crate::report::{
    outcomes, IndexComparison, PrivilegeComparison, Report, RoutineComparison, SchemaComparison,
    SequenceComparison, TableColumnComparison, TableComparison, TableConstraintComparison,
    TableTriggerComparison, ViewComparison,
};
use crate::rows::{
    deref_all, in_schema, in_table, key_views, keys_of, named_stably, on_item, rows_in_schema,
    rows_in_table, rows_on_item, without_check_constraints,
};

verus! {

/// Compares two catalogs under a set of tolerance options.
pub struct Comparer {
    /// Compare routine and view definitions up to whitespace.
    pub ignore_whitespace: bool,
    /// Leave out the ordinal position of columns.
    pub ignore_column_ordinal: bool,
    /// Leave every privilege report empty.
    pub ignore_privileges: bool,
}

/// The keys of grants: privilege type, grantor and grantee.
pub open spec fn privilege_keys<P: Privilege>(v: Seq<P>) -> Seq<Seq<Seq<char>>> {
    v.map_values(|x: P| seq![x.privilege_type_view(), x.grantor_view(), x.grantee_view()])
}

/// The texts of a privilege comparison name the grant `x`.
pub open spec fn names_grant<P: Privilege>(
    privilege_name: String,
    grantor: String,
    grantee: String,
    x: P,
) -> bool {
    privilege_name@ == x.privilege_type_view() && grantor@ == x.grantor_view() && grantee@
        == x.grantee_view()
}

/// The entry that reports pairing `p` of the grants `l` and `r`.
pub open spec fn privilege_entry<P: Privilege>(
    l: Seq<P>,
    r: Seq<P>,
    p: Pairing,
    e: PrivilegeComparison,
) -> bool {
    match (p, e) {
        (
            Pairing::Removed { left },
            PrivilegeComparison::PrivilegeRemoved { privilege_name, grantor, grantee },
        ) => {
            names_grant(privilege_name, grantor, grantee, l[left as int])
        },
        (
            Pairing::Maintained { left, .. },
            PrivilegeComparison::PrivilegeMaintained { privilege_name, grantor, grantee },
        ) => names_grant(privilege_name, grantor, grantee, l[left as int]),
        (
            Pairing::Added { right },
            PrivilegeComparison::PrivilegeAdded { privilege_name, grantor, grantee },
        ) => {
            names_grant(privilege_name, grantor, grantee, r[right as int])
        },
        _ => false,
    }
}

/// `rep` reports the reconciliation of the grants `l` with the grants `r`.
pub open spec fn is_privilege_report<P: Privilege>(
    l: Seq<P>,
    r: Seq<P>,
    rep: Report<PrivilegeComparison>,
) -> bool {
    let plan = reconciliation(privilege_keys(l), privilege_keys(r));
    &&& rep.entries@.len() == plan.len()
    &&& forall|m: int|
        0 <= m < plan.len() ==> privilege_entry(l, r, plan[m], #[trigger] rep.entries@[m])
}

/// `rep` is empty where privileges are ignored, and else reports the grants.
pub open spec fn privileges_reported<P: Privilege>(
    c: Comparer,
    l: Seq<P>,
    r: Seq<P>,
    rep: Report<PrivilegeComparison>,
) -> bool {
    if c.ignore_privileges {
        rep.entries@.len() == 0
    } else {
        is_privilege_report(l, r, rep)
    }
}

fn privilege_keys_of<P: Privilege>(v: &Vec<&P>) -> (r: Vec<Vec<String>>)
    ensures
        r.deep_view() == privilege_keys(deref_all(v@)),
{
    let mut r: Vec<Vec<String>> = Vec::new();
    let mut i: usize = 0;
    while i < v.len()
        invariant
            0 <= i <= v.len(),
            r.len() == i,
            forall|k: int|
                0 <= k < i ==> (#[trigger] r@[k]).deep_view() == seq![
                    (*v@[k]).privilege_type_view(),
                    (*v@[k]).grantor_view(),
                    (*v@[k]).grantee_view(),
                ],
        decreases v.len() - i,
    {
        let x = v[i];
        let key = vec![
            x.privilege_type().to_owned(),
            x.grantor().to_owned(),
            x.grantee().to_owned(),
        ];
        assert(key.deep_view() =~= seq![x.privilege_type_view(), x.grantor_view(), x.grantee_view()]);
        r.push(key);
        i = i + 1;
    }
    assert(r.deep_view() =~= privilege_keys(deref_all(v@)));
    r
}

/// The entry that reports pairing `p` of the sequences `l` and `r`.
pub open spec fn sequence_entry(
    c: Comparer,
    l: Seq<Sequence>,
    r: Seq<Sequence>,
    p: Pairing,
    e: SequenceComparison,
) -> bool {
    match (p, e) {
        (Pairing::Removed { left }, SequenceComparison::SequenceRemoved { sequence_name }) => {
            sequence_name@ == l[left as int].sequence_name@
        },
        (Pairing::Added { right }, SequenceComparison::SequenceAdded { sequence_name }) => {
            sequence_name@ == r[right as int].sequence_name@
        },
        (
            Pairing::Maintained { left, right },
            SequenceComparison::SequenceMaintained { sequence_name, properties },
        ) => {
            sequence_name@ == l[left as int].sequence_name@ && outcomes(properties) == sequence_outcomes(
                l[left as int],
                r[right as int],
            )
        },
        _ => false,
    }
}

/// `rep` reports the reconciliation of the sequences `l` with those of `r`.
pub open spec fn is_sequence_report(
    c: Comparer,
    l: Seq<Sequence>,
    r: Seq<Sequence>,
    rep: Report<SequenceComparison>,
) -> bool {
    let plan = reconciliation(key_views(l), key_views(r));
    &&& rep.entries@.len() == plan.len()
    &&& forall|m: int|
        0 <= m < plan.len() ==> sequence_entry(c, l, r, plan[m], #[trigger] rep.entries@[m])
}

/// The entry that reports pairing `p` of the indices `l` and `r`.
pub open spec fn table_index_entry(
    c: Comparer,
    l: Seq<Index>,
    r: Seq<Index>,
    p: Pairing,
    e: IndexComparison,
) -> bool {
    match (p, e) {
        (Pairing::Removed { left }, IndexComparison::IndexRemoved { index_name }) => {
            index_name@ == l[left as int].index_name@
        },
        (Pairing::Added { right }, IndexComparison::IndexAdded { index_name }) => {
            index_name@ == r[right as int].index_name@
        },
        (
            Pairing::Maintained { left, right },
            IndexComparison::IndexMaintained { index_name, properties },
        ) => {
            index_name@ == l[left as int].index_name@ && outcomes(properties) == table_index_outcomes(
                l[left as int],
                r[right as int],
            )
        },
        _ => false,
    }
}

/// `rep` reports the reconciliation of the indices `l` with those of `r`.
pub open spec fn is_table_index_report(
    c: Comparer,
    l: Seq<Index>,
    r: Seq<Index>,
    rep: Report<IndexComparison>,
) -> bool {
    let plan = reconciliation(key_views(l), key_views(r));
    &&& rep.entries@.len() == plan.len()
    &&& forall|m: int|
        0 <= m < plan.len() ==> table_index_entry(c, l, r, plan[m], #[trigger] rep.entries@[m])
}

/// The entry that reports pairing `p` of the table constraints `l` and `r`.
pub open spec fn table_constraint_entry(
    c: Comparer,
    l: Seq<TableConstraint>,
    r: Seq<TableConstraint>,
    p: Pairing,
    e: TableConstraintComparison,
) -> bool {
    match (p, e) {
        (
            Pairing::Removed { left },
            TableConstraintComparison::ConstraintRemoved { constraint_name },
        ) => {
            constraint_name@ == l[left as int].constraint_name@
        },
        (
            Pairing::Added { right },
            TableConstraintComparison::ConstraintAdded { constraint_name },
        ) => {
            constraint_name@ == r[right as int].constraint_name@
        },
        (
            Pairing::Maintained { left, right },
            TableConstraintComparison::ConstraintMaintained { constraint_name, properties },
        ) => {
            constraint_name@ == l[left as int].constraint_name@ && outcomes(properties) == table_constraint_outcomes(
                l[left as int],
                r[right as int],
            )
        },
        _ => false,
    }
}

/// `rep` reports the reconciliation of the table constraints `l` with those of `r`.
pub open spec fn is_table_constraint_report(
    c: Comparer,
    l: Seq<TableConstraint>,
    r: Seq<TableConstraint>,
    rep: Report<TableConstraintComparison>,
) -> bool {
    let plan = reconciliation(key_views(l), key_views(r));
    &&& rep.entries@.len() == plan.len()
    &&& forall|m: int|
        0 <= m < plan.len() ==> table_constraint_entry(c, l, r, plan[m], #[trigger] rep.entries@[m])
}

/// The entry that reports pairing `p` of the triggers `l` and `r`.
pub open spec fn trigger_entry(
    c: Comparer,
    l: Seq<TableTrigger>,
    r: Seq<TableTrigger>,
    p: Pairing,
    e: TableTriggerComparison,
) -> bool {
    match (p, e) {
        (
            Pairing::Removed { left },
            TableTriggerComparison::TriggerRemoved { trigger_name, event_manipulation },
        ) => {
            trigger_name@ == l[left as int].trigger_name@
                && event_manipulation@ == l[left as int].event_manipulation@
        },
        (
            Pairing::Added { right },
            TableTriggerComparison::TriggerAdded { trigger_name, event_manipulation },
        ) => {
            trigger_name@ == r[right as int].trigger_name@
                && event_manipulation@ == r[right as int].event_manipulation@
        },
        (
            Pairing::Maintained { left, right },
            TableTriggerComparison::TriggerMaintained {
                trigger_name,
                event_manipulation,
                properties,
            },
        ) => {
            trigger_name@ == l[left as int].trigger_name@ && event_manipulation@ == l[left as int].event_manipulation@ && outcomes(properties) == trigger_outcomes(
                l[left as int],
                r[right as int],
            )
        },
        _ => false,
    }
}

/// `rep` reports the reconciliation of the triggers `l` with those of `r`.
pub open spec fn is_trigger_report(
    c: Comparer,
    l: Seq<TableTrigger>,
    r: Seq<TableTrigger>,
    rep: Report<TableTriggerComparison>,
) -> bool {
    let plan = reconciliation(key_views(l), key_views(r));
    &&& rep.entries@.len() == plan.len()
    &&& forall|m: int|
        0 <= m < plan.len() ==> trigger_entry(c, l, r, plan[m], #[trigger] rep.entries@[m])
}

/// The entry that reports pairing `p` of the columns `l` and `r`, whose grants are `lp` and `rp`.
pub open spec fn column_entry(
    c: Comparer,
    l: Seq<Column>,
    r: Seq<Column>,
    lp: Seq<ColumnPrivilege>,
    rp: Seq<ColumnPrivilege>,
    p: Pairing,
    e: TableColumnComparison,
) -> bool {
    match (p, e) {
        (Pairing::Removed { left }, TableColumnComparison::ColumnRemoved { column_name }) => {
            column_name@ == l[left as int].column_name@
        },
        (Pairing::Added { right }, TableColumnComparison::ColumnAdded { column_name }) => {
            column_name@ == r[right as int].column_name@
        },
        (
            Pairing::Maintained { left, right },
            TableColumnComparison::ColumnMaintained { column_name, properties, privileges },
        ) => {
            column_name@ == l[left as int].column_name@ && outcomes(properties) == table_column_outcomes(
                l[left as int],
                r[right as int],
                c.ignore_column_ordinal,
            ) && privileges_reported(c, lp.filter(on_item(l[left as int].column_name@)), rp.filter(on_item(r[right as int].column_name@)), privileges)
        },
        _ => false,
    }
}

/// `rep` reports the reconciliation of the columns `l` with the columns `r`.
pub open spec fn is_column_report(
    c: Comparer,
    l: Seq<Column>,
    r: Seq<Column>,
    lp: Seq<ColumnPrivilege>,
    rp: Seq<ColumnPrivilege>,
    rep: Report<TableColumnComparison>,
) -> bool {
    let plan = reconciliation(key_views(l), key_views(r));
    &&& rep.entries@.len() == plan.len()
    &&& forall|m: int|
        0 <= m < plan.len() ==> column_entry(c, l, r, lp, rp, plan[m], #[trigger] rep.entries@[m])
}

/// The entry that reports pairing `p` of the routines `l` and `r`, whose grants are `lp` and `rp`.
pub open spec fn routine_entry(
    c: Comparer,
    l: Seq<Routine>,
    r: Seq<Routine>,
    lp: Seq<RoutinePrivilege>,
    rp: Seq<RoutinePrivilege>,
    p: Pairing,
    e: RoutineComparison,
) -> bool {
    match (p, e) {
        (Pairing::Removed { left }, RoutineComparison::RoutineRemoved { routine_signature }) => {
            routine_signature@ == l[left as int].signature@
        },
        (Pairing::Added { right }, RoutineComparison::RoutineAdded { routine_signature }) => {
            routine_signature@ == r[right as int].signature@
        },
        (
            Pairing::Maintained { left, right },
            RoutineComparison::RoutineMaintained { routine_signature, properties, privileges },
        ) => {
            routine_signature@ == l[left as int].signature@ && outcomes(properties) == routine_outcomes(
                l[left as int],
                r[right as int],
                c.ignore_whitespace,
            ) && privileges_reported(c, lp.filter(on_item(l[left as int].signature@)), rp.filter(on_item(r[right as int].signature@)), privileges)
        },
        _ => false,
    }
}

/// `rep` reports the reconciliation of the routines `l` with the routines `r`, by signature.
pub open spec fn is_routine_report(
    c: Comparer,
    l: Seq<Routine>,
    r: Seq<Routine>,
    lp: Seq<RoutinePrivilege>,
    rp: Seq<RoutinePrivilege>,
    rep: Report<RoutineComparison>,
) -> bool {
    let plan = reconciliation(key_views(l), key_views(r));
    &&& rep.entries@.len() == plan.len()
    &&& forall|m: int|
        0 <= m < plan.len() ==> routine_entry(c, l, r, lp, rp, plan[m], #[trigger] rep.entries@[m])
}

/// The entry that reports pairing `p` of the tables `l` and `r`; the other sequences hold
/// the rows of both sides that belong to their tables.
pub open spec fn table_entry(
    c: Comparer,
    l: Seq<Table>,
    r: Seq<Table>,
    lc: Seq<Column>,
    rc: Seq<Column>,
    lcp: Seq<ColumnPrivilege>,
    rcp: Seq<ColumnPrivilege>,
    li: Seq<Index>,
    ri: Seq<Index>,
    ltp: Seq<TablePrivilege>,
    rtp: Seq<TablePrivilege>,
    lk: Seq<TableConstraint>,
    rk: Seq<TableConstraint>,
    lt: Seq<TableTrigger>,
    rt: Seq<TableTrigger>,
    p: Pairing,
    e: TableComparison,
) -> bool {
    match (p, e) {
        (Pairing::Removed { left }, TableComparison::TableRemoved { table_name }) => {
            table_name@ == l[left as int].table_name@
        },
        (Pairing::Added { right }, TableComparison::TableAdded { table_name }) => {
            table_name@ == r[right as int].table_name@
        },
        (
            Pairing::Maintained { left, right },
            TableComparison::TableMaintained {
                table_name,
                columns,
                constraints,
                indices,
                privileges,
                properties,
                triggers,
            },
        ) => {
            table_name@ == l[left as int].table_name@ && is_column_report(
                c,
                lc.filter(in_table(l[left as int].table_name@)),
                rc.filter(in_table(r[right as int].table_name@)),
                lcp.filter(in_table(l[left as int].table_name@)),
                rcp.filter(in_table(r[right as int].table_name@)),
                columns,
            ) && is_table_constraint_report(c, lk.filter(in_table(l[left as int].table_name@)), rk.filter(in_table(r[right as int].table_name@)), constraints) && is_table_index_report(c, li.filter(in_table(l[left as int].table_name@)), ri.filter(in_table(r[right as int].table_name@)), indices) && privileges_reported(c, ltp.filter(in_table(l[left as int].table_name@)), rtp.filter(in_table(r[right as int].table_name@)), privileges) && outcomes(properties) == table_outcomes(l[left as int], r[right as int]) && is_trigger_report(c, lt.filter(in_table(l[left as int].table_name@)), rt.filter(in_table(r[right as int].table_name@)), triggers)
        },
        _ => false,
    }
}

/// `rep` reports the reconciliation of the tables `l` with the tables `r`, each maintained
/// table with its columns, grants, indices, constraints and triggers.
pub open spec fn is_table_report(
    c: Comparer,
    l: Seq<Table>,
    r: Seq<Table>,
    lc: Seq<Column>,
    rc: Seq<Column>,
    lcp: Seq<ColumnPrivilege>,
    rcp: Seq<ColumnPrivilege>,
    li: Seq<Index>,
    ri: Seq<Index>,
    ltp: Seq<TablePrivilege>,
    rtp: Seq<TablePrivilege>,
    lk: Seq<TableConstraint>,
    rk: Seq<TableConstraint>,
    lt: Seq<TableTrigger>,
    rt: Seq<TableTrigger>,
    rep: Report<TableComparison>,
) -> bool {
    let plan = reconciliation(key_views(l), key_views(r));
    &&& rep.entries@.len() == plan.len()
    &&& forall|m: int|
        0 <= m < plan.len() ==> table_entry(
            c,
            l,
            r,
            lc,
            rc,
            lcp,
            rcp,
            li,
            ri,
            ltp,
            rtp,
            lk,
            rk,
            lt,
            rt,
            plan[m],
            #[trigger] rep.entries@[m],
        )
}

/// The entry that reports a view that both sides hold.
pub open spec fn view_entry(
    c: Comparer,
    l: Seq<ViewRow>,
    r: Seq<ViewRow>,
    p: Pairing,
    e: ViewComparison,
) -> bool {
    match (p, e) {
        (
            Pairing::Maintained { left, right },
            ViewComparison::ViewMaintained { view_name, properties },
        ) => {
            view_name@ == l[left as int].table_name@ && outcomes(properties) == view_outcomes(
                l[left as int],
                r[right as int],
                c.ignore_whitespace,
            )
        },
        _ => false,
    }
}

/// `rep` compares each view of `l` that `r` also holds, in the order of `l`; views that
/// one side lacks are left out, as their tables already report them.
pub open spec fn is_view_report(
    c: Comparer,
    l: Seq<ViewRow>,
    r: Seq<ViewRow>,
    rep: Report<ViewComparison>,
) -> bool {
    let pairs = shared_pairs(key_views(l), key_views(r));
    &&& rep.entries@.len() == pairs.len()
    &&& forall|m: int| 0 <= m < pairs.len() ==> view_entry(
        c,
        l,
        r,
        pairs[m],
        #[trigger] rep.entries@[m],
    )
}

/// Why a comparison of catalogs could not be made.
pub enum CompareError {
    /// A catalog lists more than one schema of this name.
    DuplicateSchema { schema_name: String },
}

/// Relies on `itertools::Itertools::at_most_one`: no item gives `Ok(None)`, exactly one
/// gives that item, and more give an error.
#[verifier::external_body]
fn at_most_one<T>(items: Vec<T>) -> (r: Result<Option<T>, ()>)
    ensures
        items@.len() == 0 ==> (r is Ok && r->Ok_0 is None),
        items@.len() == 1 ==> (r is Ok && r->Ok_0 == Some(items@[0])),
        items@.len() > 1 ==> r is Err,
{
    match items.into_iter().at_most_one() {
        Ok(found) => Ok(found),
        Err(_) => Err(()),
    }
}

/// The schema rows of `c` named `name`.
pub open spec fn schema_rows(c: Catalog, name: Seq<char>) -> Seq<Schema> {
    c.schemas@.filter(in_schema(name))
}

/// One side or the other lists more than one schema named `name`.
pub open spec fn duplicated(l: Catalog, r: Catalog, name: Seq<char>) -> bool {
    schema_rows(l, name).len() > 1 || schema_rows(r, name).len() > 1
}

/// The entry that reports the schema `name` of the catalogs `l` and `r`: missing where
/// neither side lists it, added or removed where one side does, and else compared with
/// its routines, sequences, tables and views. CHECK constraints are left out, as their
/// names are not stable.
pub open spec fn schema_entry(
    c: Comparer,
    name: Seq<char>,
    l: Catalog,
    r: Catalog,
    e: SchemaComparison,
) -> bool {
    let ls = schema_rows(l, name);
    let rs = schema_rows(r, name);
    if ls.len() == 0 && rs.len() == 0 {
        e matches SchemaComparison::SchemaMissing { schema_name } && schema_name@ == name
    } else if ls.len() == 0 {
        e matches SchemaComparison::SchemaAdded { schema_name } && schema_name@ == name
    } else if rs.len() == 0 {
        e matches SchemaComparison::SchemaRemoved { schema_name } && schema_name@ == name
    } else {
        match e {
            SchemaComparison::SchemaMaintained {
                schema_name,
                properties,
                routines,
                sequences,
                tables,
                views,
            } => {
                &&& schema_name@ == name
                &&& outcomes(properties) == schema_outcomes(ls[0], rs[0])
                &&& is_routine_report(
                    c,
                    l.routines@.filter(in_schema(name)),
                    r.routines@.filter(in_schema(name)),
                    l.routine_privileges@.filter(in_schema(name)),
                    r.routine_privileges@.filter(in_schema(name)),
                    routines,
                )
                &&& is_sequence_report(
                    c,
                    l.sequences@.filter(in_schema(name)),
                    r.sequences@.filter(in_schema(name)),
                    sequences,
                )
                &&& is_table_report(
                    c,
                    l.tables@.filter(in_schema(name)),
                    r.tables@.filter(in_schema(name)),
                    l.columns@.filter(in_schema(name)),
                    r.columns@.filter(in_schema(name)),
                    l.column_privileges@.filter(in_schema(name)),
                    r.column_privileges@.filter(in_schema(name)),
                    l.indices@.filter(in_schema(name)),
                    r.indices@.filter(in_schema(name)),
                    l.table_privileges@.filter(in_schema(name)),
                    r.table_privileges@.filter(in_schema(name)),
                    l.table_constraints@.filter(in_schema(name)).filter(named_stably()),
                    r.table_constraints@.filter(in_schema(name)).filter(named_stably()),
                    l.table_triggers@.filter(in_schema(name)),
                    r.table_triggers@.filter(in_schema(name)),
                    tables,
                )
                &&& is_view_report(
                    c,
                    l.views@.filter(in_schema(name)),
                    r.views@.filter(in_schema(name)),
                    views,
                )
            },
            _ => false,
        }
    }
}

impl Comparer {
    /// Compares the schemas named in `schemas`, in that order, as `left` and `right` list
    /// them. Fails on the first of them that one side lists more than once.
    pub fn compare(&self, schemas: Vec<String>, left: &Catalog, right: &Catalog) -> (r: Result<
        Report<SchemaComparison>,
        CompareError,
    >)
        ensures
            r is Ok <==> forall|i: int| 0 <= i < schemas.len() ==> !duplicated(
                *left,
                *right,
                #[trigger] schemas@[i]@,
            ),
            match r {
                Ok(report) => report.entries@.len() == schemas.len() && forall|i: int|
                    0 <= i < schemas.len() ==> schema_entry(
                        *self,
                        schemas@[i]@,
                        *left,
                        *right,
                        #[trigger] report.entries@[i],
                    ),
                Err(CompareError::DuplicateSchema { schema_name }) => exists|i: int|
                    0 <= i < schemas.len() && schema_name@ == schemas@[i]@ && duplicated(
                        *left,
                        *right,
                        schemas@[i]@,
                    )
                        && forall|j: int| 0 <= j < i ==> !duplicated(
                            *left,
                            *right,
                            #[trigger] schemas@[j]@,
                        ),
            },
    {
        let mut entries: Vec<SchemaComparison> = Vec::new();
        let mut i: usize = 0;
        while i < schemas.len()
            invariant
                0 <= i <= schemas.len(),
                entries.len() == i,
                forall|j: int| 0 <= j < i ==> !duplicated(*left, *right, #[trigger] schemas@[j]@),
                forall|j: int| 0 <= j < i ==> schema_entry(
                    *self,
                    schemas@[j]@,
                    *left,
                    *right,
                    #[trigger] entries@[j],
                ),
            decreases schemas.len() - i,
        {
            let schema = &schemas[i];
            let left_schema = match at_most_one(rows_in_schema(&left.schemas, schema)) {
                Ok(found) => found,
                Err(()) => {
                    return Err(CompareError::DuplicateSchema { schema_name: schema.clone() });
                },
            };
            let right_schema = match at_most_one(rows_in_schema(&right.schemas, schema)) {
                Ok(found) => found,
                Err(()) => {
                    return Err(CompareError::DuplicateSchema { schema_name: schema.clone() });
                },
            };
            let entry = match (left_schema, right_schema) {
                (None, None) => SchemaComparison::SchemaMissing { schema_name: schema.clone() },
                (None, Some(_)) => SchemaComparison::SchemaAdded { schema_name: schema.clone() },
                (Some(_), None) => SchemaComparison::SchemaRemoved { schema_name: schema.clone() },
                (Some(ls), Some(rs)) => {
                    let properties = self.compare_schema_properties(ls, rs);
                    let routines = self.compare_routines(
                        rows_in_schema(&left.routines, schema),
                        rows_in_schema(&right.routines, schema),
                        rows_in_schema(&left.routine_privileges, schema),
                        rows_in_schema(&right.routine_privileges, schema),
                    );
                    let sequences = self.compare_sequences(
                        rows_in_schema(&left.sequences, schema),
                        rows_in_schema(&right.sequences, schema),
                    );
                    let tables = self.compare_tables(
                        rows_in_schema(&left.tables, schema),
                        rows_in_schema(&right.tables, schema),
                        rows_in_schema(&left.columns, schema),
                        rows_in_schema(&right.columns, schema),
                        rows_in_schema(&left.column_privileges, schema),
                        rows_in_schema(&right.column_privileges, schema),
                        rows_in_schema(&left.indices, schema),
                        rows_in_schema(&right.indices, schema),
                        rows_in_schema(&left.table_privileges, schema),
                        rows_in_schema(&right.table_privileges, schema),
                        without_check_constraints(rows_in_schema(&left.table_constraints, schema)),
                        without_check_constraints(rows_in_schema(&right.table_constraints, schema)),
                        rows_in_schema(&left.table_triggers, schema),
                        rows_in_schema(&right.table_triggers, schema),
                    );
                    let views = self.compare_views(
                        rows_in_schema(&left.views, schema),
                        rows_in_schema(&right.views, schema),
                    );
                    SchemaComparison::SchemaMaintained {
                        schema_name: schema.clone(),
                        properties,
                        routines,
                        sequences,
                        tables,
                        views,
                    }
                },
            };
            entries.push(entry);
            i = i + 1;
        }
        Ok(Report { entries })
    }

    pub fn new(ignore_whitespace: bool, ignore_column_ordinal: bool, ignore_privileges: bool) -> (r:
        Comparer)
        ensures
            r.ignore_whitespace == ignore_whitespace,
            r.ignore_column_ordinal == ignore_column_ordinal,
            r.ignore_privileges == ignore_privileges,
    {
        Comparer { ignore_whitespace, ignore_column_ordinal, ignore_privileges }
    }

    /// Reconciles the sequences of both sides and compares those on both.
    pub fn compare_sequences(
        &self,
        left: Vec<&Sequence>,
        right: Vec<&Sequence>,
    ) -> (rep: Report<SequenceComparison>)
        ensures
            is_sequence_report(*self, deref_all(left@), deref_all(right@), rep),
    {
        let ghost l = deref_all(left@);
        let ghost r = deref_all(right@);
        let plan = reconcile(&keys_of(&left), &keys_of(&right));
        proof {
            lemma_plan_bounds(key_views(l), key_views(r), plan@);
        }
        let mut entries: Vec<SequenceComparison> = Vec::new();
        let mut m: usize = 0;
        while m < plan.len()
            invariant
                0 <= m <= plan.len(),
                entries.len() == m,
                l == deref_all(left@),
                r == deref_all(right@),
                plan@ == reconciliation(key_views(l), key_views(r)),
                forall|k: int|
                    0 <= k < plan.len() ==> pairing_in_bounds(
                        key_views(l),
                        key_views(r),
                        #[trigger] plan@[k],
                    ),
                forall|k: int| 0 <= k < m ==> sequence_entry(
                    *self,
                    l,
                    r,
                    plan@[k],
                    #[trigger] entries@[k],
                ),
            decreases plan.len() - m,
        {
            let e = match plan[m] {
                Pairing::Removed { left: i } => SequenceComparison::SequenceRemoved { sequence_name: left[i].sequence_name.clone() },
                Pairing::Added { right: j } => SequenceComparison::SequenceAdded { sequence_name: right[j].sequence_name.clone() },
                Pairing::Maintained { left: i, right: j } => {
                    SequenceComparison::SequenceMaintained {
                        sequence_name: left[i].sequence_name.clone(),
                        properties: self.compare_sequence_properties(left[i], right[j]),
                    }
                },
            };
            entries.push(e);
            m = m + 1;
        }
        Report { entries }
    }

    /// Reconciles the indices of both sides and compares those on both.
    pub fn compare_table_indices(
        &self,
        left: Vec<&Index>,
        right: Vec<&Index>,
    ) -> (rep: Report<IndexComparison>)
        ensures
            is_table_index_report(*self, deref_all(left@), deref_all(right@), rep),
    {
        let ghost l = deref_all(left@);
        let ghost r = deref_all(right@);
        let plan = reconcile(&keys_of(&left), &keys_of(&right));
        proof {
            lemma_plan_bounds(key_views(l), key_views(r), plan@);
        }
        let mut entries: Vec<IndexComparison> = Vec::new();
        let mut m: usize = 0;
        while m < plan.len()
            invariant
                0 <= m <= plan.len(),
                entries.len() == m,
                l == deref_all(left@),
                r == deref_all(right@),
                plan@ == reconciliation(key_views(l), key_views(r)),
                forall|k: int|
                    0 <= k < plan.len() ==> pairing_in_bounds(
                        key_views(l),
                        key_views(r),
                        #[trigger] plan@[k],
                    ),
                forall|k: int| 0 <= k < m ==> table_index_entry(
                    *self,
                    l,
                    r,
                    plan@[k],
                    #[trigger] entries@[k],
                ),
            decreases plan.len() - m,
        {
            let e = match plan[m] {
                Pairing::Removed { left: i } => IndexComparison::IndexRemoved { index_name: left[i].index_name.clone() },
                Pairing::Added { right: j } => IndexComparison::IndexAdded { index_name: right[j].index_name.clone() },
                Pairing::Maintained { left: i, right: j } => {
                    IndexComparison::IndexMaintained {
                        index_name: left[i].index_name.clone(),
                        properties: self.compare_table_index_properties(left[i], right[j]),
                    }
                },
            };
            entries.push(e);
            m = m + 1;
        }
        Report { entries }
    }

    /// Reconciles the table constraints of both sides and compares those on both.
    pub fn compare_table_constraints(
        &self,
        left: Vec<&TableConstraint>,
        right: Vec<&TableConstraint>,
    ) -> (rep: Report<TableConstraintComparison>)
        ensures
            is_table_constraint_report(*self, deref_all(left@), deref_all(right@), rep),
    {
        let ghost l = deref_all(left@);
        let ghost r = deref_all(right@);
        let plan = reconcile(&keys_of(&left), &keys_of(&right));
        proof {
            lemma_plan_bounds(key_views(l), key_views(r), plan@);
        }
        let mut entries: Vec<TableConstraintComparison> = Vec::new();
        let mut m: usize = 0;
        while m < plan.len()
            invariant
                0 <= m <= plan.len(),
                entries.len() == m,
                l == deref_all(left@),
                r == deref_all(right@),
                plan@ == reconciliation(key_views(l), key_views(r)),
                forall|k: int|
                    0 <= k < plan.len() ==> pairing_in_bounds(
                        key_views(l),
                        key_views(r),
                        #[trigger] plan@[k],
                    ),
                forall|k: int| 0 <= k < m ==> table_constraint_entry(
                    *self,
                    l,
                    r,
                    plan@[k],
                    #[trigger] entries@[k],
                ),
            decreases plan.len() - m,
        {
            let e = match plan[m] {
                Pairing::Removed { left: i } => TableConstraintComparison::ConstraintRemoved { constraint_name: left[i].constraint_name.clone() },
                Pairing::Added { right: j } => TableConstraintComparison::ConstraintAdded { constraint_name: right[j].constraint_name.clone() },
                Pairing::Maintained { left: i, right: j } => {
                    TableConstraintComparison::ConstraintMaintained {
                        constraint_name: left[i].constraint_name.clone(),
                        properties: self.compare_table_constraint_properties(left[i], right[j]),
                    }
                },
            };
            entries.push(e);
            m = m + 1;
        }
        Report { entries }
    }

    /// Reconciles the triggers, keyed by name and event of both sides and compares those on both.
    pub fn compare_table_triggers(
        &self,
        left: Vec<&TableTrigger>,
        right: Vec<&TableTrigger>,
    ) -> (rep: Report<TableTriggerComparison>)
        ensures
            is_trigger_report(*self, deref_all(left@), deref_all(right@), rep),
    {
        let ghost l = deref_all(left@);
        let ghost r = deref_all(right@);
        let plan = reconcile(&keys_of(&left), &keys_of(&right));
        proof {
            lemma_plan_bounds(key_views(l), key_views(r), plan@);
        }
        let mut entries: Vec<TableTriggerComparison> = Vec::new();
        let mut m: usize = 0;
        while m < plan.len()
            invariant
                0 <= m <= plan.len(),
                entries.len() == m,
                l == deref_all(left@),
                r == deref_all(right@),
                plan@ == reconciliation(key_views(l), key_views(r)),
                forall|k: int|
                    0 <= k < plan.len() ==> pairing_in_bounds(
                        key_views(l),
                        key_views(r),
                        #[trigger] plan@[k],
                    ),
                forall|k: int| 0 <= k < m ==> trigger_entry(
                    *self,
                    l,
                    r,
                    plan@[k],
                    #[trigger] entries@[k],
                ),
            decreases plan.len() - m,
        {
            let e = match plan[m] {
                Pairing::Removed { left: i } => TableTriggerComparison::TriggerRemoved {
                    trigger_name: left[i].trigger_name.clone(),
                    event_manipulation: left[i].event_manipulation.clone(),
                },
                Pairing::Added { right: j } => TableTriggerComparison::TriggerAdded {
                    trigger_name: right[j].trigger_name.clone(),
                    event_manipulation: right[j].event_manipulation.clone(),
                },
                Pairing::Maintained { left: i, right: j } => {
                    TableTriggerComparison::TriggerMaintained {
                        trigger_name: left[i].trigger_name.clone(), event_manipulation: left[i].event_manipulation.clone(),
                        properties: self.compare_trigger_properties(left[i], right[j]),
                    }
                },
            };
            entries.push(e);
            m = m + 1;
        }
        Report { entries }
    }

    /// Reconciles the columns of a table on both sides, with their grants.
    pub fn compare_table_columns(
        &self,
        left: Vec<&Column>,
        right: Vec<&Column>,
        left_privileges: Vec<&ColumnPrivilege>,
        right_privileges: Vec<&ColumnPrivilege>,
    ) -> (rep: Report<TableColumnComparison>)
        ensures
            is_column_report(
                *self,
                deref_all(left@),
                deref_all(right@),
                deref_all(left_privileges@),
                deref_all(right_privileges@),
                rep,
            ),
    {
        let ghost l = deref_all(left@);
        let ghost r = deref_all(right@);
        let plan = reconcile(&keys_of(&left), &keys_of(&right));
        proof {
            lemma_plan_bounds(key_views(l), key_views(r), plan@);
        }
        let mut entries: Vec<TableColumnComparison> = Vec::new();
        let mut m: usize = 0;
        while m < plan.len()
            invariant
                0 <= m <= plan.len(),
                entries.len() == m,
                l == deref_all(left@),
                r == deref_all(right@),
                plan@ == reconciliation(key_views(l), key_views(r)),
                forall|k: int|
                    0 <= k < plan.len() ==> pairing_in_bounds(
                        key_views(l),
                        key_views(r),
                        #[trigger] plan@[k],
                    ),
                forall|k: int| 0 <= k < m ==> column_entry(
                    *self,
                    l,
                    r,
                    deref_all(left_privileges@),
                    deref_all(right_privileges@),
                    plan@[k],
                    #[trigger] entries@[k],
                ),
            decreases plan.len() - m,
        {
            let e = match plan[m] {
                Pairing::Removed { left: i } => TableColumnComparison::ColumnRemoved { column_name: left[i].column_name.clone() },
                Pairing::Added { right: j } => TableColumnComparison::ColumnAdded { column_name: right[j].column_name.clone() },
                Pairing::Maintained { left: i, right: j } => {
                    let left_column_privileges = rows_on_item(
                        &left_privileges,
                        &left[i].column_name,
                    );
                    let right_column_privileges = rows_on_item(
                        &right_privileges,
                        &right[j].column_name,
                    );
                    TableColumnComparison::ColumnMaintained {
                        column_name: left[i].column_name.clone(),
                        properties: self.compare_table_column_properties(left[i], right[j]),
                        privileges: self.compare_table_column_privileges(
                            left_column_privileges,
                            right_column_privileges,
                        ),
                    }
                },
            };
            entries.push(e);
            m = m + 1;
        }
        Report { entries }
    }

    /// Reconciles the routines of a schema on both sides, by signature, with their grants.
    pub fn compare_routines(
        &self,
        left: Vec<&Routine>,
        right: Vec<&Routine>,
        left_privileges: Vec<&RoutinePrivilege>,
        right_privileges: Vec<&RoutinePrivilege>,
    ) -> (rep: Report<RoutineComparison>)
        ensures
            is_routine_report(
                *self,
                deref_all(left@),
                deref_all(right@),
                deref_all(left_privileges@),
                deref_all(right_privileges@),
                rep,
            ),
    {
        let ghost l = deref_all(left@);
        let ghost r = deref_all(right@);
        let plan = reconcile(&keys_of(&left), &keys_of(&right));
        proof {
            lemma_plan_bounds(key_views(l), key_views(r), plan@);
        }
        let mut entries: Vec<RoutineComparison> = Vec::new();
        let mut m: usize = 0;
        while m < plan.len()
            invariant
                0 <= m <= plan.len(),
                entries.len() == m,
                l == deref_all(left@),
                r == deref_all(right@),
                plan@ == reconciliation(key_views(l), key_views(r)),
                forall|k: int|
                    0 <= k < plan.len() ==> pairing_in_bounds(
                        key_views(l),
                        key_views(r),
                        #[trigger] plan@[k],
                    ),
                forall|k: int| 0 <= k < m ==> routine_entry(
                    *self,
                    l,
                    r,
                    deref_all(left_privileges@),
                    deref_all(right_privileges@),
                    plan@[k],
                    #[trigger] entries@[k],
                ),
            decreases plan.len() - m,
        {
            let e = match plan[m] {
                Pairing::Removed { left: i } => RoutineComparison::RoutineRemoved { routine_signature: left[i].signature.clone() },
                Pairing::Added { right: j } => RoutineComparison::RoutineAdded { routine_signature: right[j].signature.clone() },
                Pairing::Maintained { left: i, right: j } => {
                    let left_routine_privileges = rows_on_item(
                        &left_privileges,
                        &left[i].signature,
                    );
                    let right_routine_privileges = rows_on_item(
                        &right_privileges,
                        &right[j].signature,
                    );
                    RoutineComparison::RoutineMaintained {
                        routine_signature: left[i].signature.clone(),
                        properties: self.compare_routine_properties(left[i], right[j]),
                        privileges: self.compare_routine_privileges(
                            left_routine_privileges,
                            right_routine_privileges,
                        ),
                    }
                },
            };
            entries.push(e);
            m = m + 1;
        }
        Report { entries }
    }

    /// Reconciles the tables of a schema on both sides; a table on both sides is compared
    /// with its columns, indices, grants, constraints and triggers.
    pub fn compare_tables(
        &self,
        left: Vec<&Table>,
        right: Vec<&Table>,
        left_columns: Vec<&Column>,
        right_columns: Vec<&Column>,
        left_column_privileges: Vec<&ColumnPrivilege>,
        right_column_privileges: Vec<&ColumnPrivilege>,
        left_indices: Vec<&Index>,
        right_indices: Vec<&Index>,
        left_table_privileges: Vec<&TablePrivilege>,
        right_table_privileges: Vec<&TablePrivilege>,
        left_table_constraints: Vec<&TableConstraint>,
        right_table_constraints: Vec<&TableConstraint>,
        left_table_triggers: Vec<&TableTrigger>,
        right_table_triggers: Vec<&TableTrigger>,
    ) -> (rep: Report<TableComparison>)
        ensures
            is_table_report(
                *self,
                deref_all(left@),
                deref_all(right@),
                deref_all(left_columns@),
                deref_all(right_columns@),
                deref_all(left_column_privileges@),
                deref_all(right_column_privileges@),
                deref_all(left_indices@),
                deref_all(right_indices@),
                deref_all(left_table_privileges@),
                deref_all(right_table_privileges@),
                deref_all(left_table_constraints@),
                deref_all(right_table_constraints@),
                deref_all(left_table_triggers@),
                deref_all(right_table_triggers@),
                rep,
            ),
    {
        let ghost l = deref_all(left@);
        let ghost r = deref_all(right@);
        let plan = reconcile(&keys_of(&left), &keys_of(&right));
        proof {
            lemma_plan_bounds(key_views(l), key_views(r), plan@);
        }
        let mut entries: Vec<TableComparison> = Vec::new();
        let mut m: usize = 0;
        while m < plan.len()
            invariant
                0 <= m <= plan.len(),
                entries.len() == m,
                l == deref_all(left@),
                r == deref_all(right@),
                plan@ == reconciliation(key_views(l), key_views(r)),
                forall|k: int|
                    0 <= k < plan.len() ==> pairing_in_bounds(
                        key_views(l),
                        key_views(r),
                        #[trigger] plan@[k],
                    ),
                forall|k: int| 0 <= k < m ==> table_entry(
                    *self,
                    l,
                    r,
                    deref_all(left_columns@),
                    deref_all(right_columns@),
                    deref_all(left_column_privileges@),
                    deref_all(right_column_privileges@),
                    deref_all(left_indices@),
                    deref_all(right_indices@),
                    deref_all(left_table_privileges@),
                    deref_all(right_table_privileges@),
                    deref_all(left_table_constraints@),
                    deref_all(right_table_constraints@),
                    deref_all(left_table_triggers@),
                    deref_all(right_table_triggers@),
                    plan@[k],
                    #[trigger] entries@[k],
                ),
            decreases plan.len() - m,
        {
            let e = match plan[m] {
                Pairing::Removed { left: i } => TableComparison::TableRemoved { table_name: left[i].table_name.clone() },
                Pairing::Added { right: j } => TableComparison::TableAdded { table_name: right[j].table_name.clone() },
                Pairing::Maintained { left: i, right: j } => {
                    let ln = &left[i].table_name;
                    let rn = &right[j].table_name;
                    let columns = self.compare_table_columns(
                        rows_in_table(&left_columns, ln),
                        rows_in_table(&right_columns, rn),
                        rows_in_table(&left_column_privileges, ln),
                        rows_in_table(&right_column_privileges, rn),
                    );
                    let indices = self.compare_table_indices(
                        rows_in_table(&left_indices, ln),
                        rows_in_table(&right_indices, rn),
                    );
                    let privileges = self.compare_table_privileges(
                        rows_in_table(&left_table_privileges, ln),
                        rows_in_table(&right_table_privileges, rn),
                    );
                    let constraints = self.compare_table_constraints(
                        rows_in_table(&left_table_constraints, ln),
                        rows_in_table(&right_table_constraints, rn),
                    );
                    let triggers = self.compare_table_triggers(
                        rows_in_table(&left_table_triggers, ln),
                        rows_in_table(&right_table_triggers, rn),
                    );
                    TableComparison::TableMaintained {
                        table_name: left[i].table_name.clone(),
                        columns,
                        constraints,
                        indices,
                        privileges,
                        properties: self.compare_table_properties(left[i], right[j]),
                        triggers,
                    }
                },
            };
            entries.push(e);
            m = m + 1;
        }
        Report { entries }
    }

    /// Compares the views that both sides hold.
    pub fn compare_views(
        &self,
        left: Vec<&ViewRow>,
        right: Vec<&ViewRow>,
    ) -> (rep: Report<ViewComparison>)
        ensures
            is_view_report(*self, deref_all(left@), deref_all(right@), rep),
    {
        let ghost l = deref_all(left@);
        let ghost r = deref_all(right@);
        let left_count = left.len();
        let right_count = right.len();
        let pairs = pair_shared(&keys_of(&left), &keys_of(&right));
        proof {
            assert(key_views(l).len() == left_count && key_views(r).len() == right_count);
            lemma_shared_bounds(key_views(l), key_views(r));
        }
        let mut entries: Vec<ViewComparison> = Vec::new();
        let mut m: usize = 0;
        while m < pairs.len()
            invariant
                0 <= m <= pairs.len(),
                entries.len() == m,
                l == deref_all(left@),
                r == deref_all(right@),
                pairs@ == shared_pairs(key_views(l), key_views(r)),
                forall|k: int|
                    0 <= k < pairs.len() ==> (#[trigger] pairs@[k] is Maintained && pairing_in_bounds(
                        key_views(l),
                        key_views(r),
                        pairs@[k],
                    )),
                forall|k: int| 0 <= k < m ==> view_entry(
                    *self,
                    l,
                    r,
                    pairs@[k],
                    #[trigger] entries@[k],
                ),
            decreases pairs.len() - m,
        {
            match pairs[m] {
                Pairing::Maintained { left: i, right: j } => {
                    entries.push(
                        ViewComparison::ViewMaintained {
                            view_name: left[i].table_name.clone(),
                            properties: self.compare_view_properties(left[i], right[j]),
                        },
                    );
                },
                _ => {
                    assert(false);
                },
            }
            m = m + 1;
        }
        Report { entries }
    }

    /// Reconciles two lists of grants by privilege type, grantor and grantee.
    pub fn compare_privileges<P: Privilege>(&self, left: &Vec<&P>, right: &Vec<&P>) -> (rep: Report<
        PrivilegeComparison,
    >)
        ensures
            is_privilege_report(deref_all(left@), deref_all(right@), rep),
    {
        let ghost l = deref_all(left@);
        let ghost r = deref_all(right@);
        let plan = reconcile(&privilege_keys_of(left), &privilege_keys_of(right));
        proof {
            lemma_plan_bounds(privilege_keys(l), privilege_keys(r), plan@);
        }
        let mut entries: Vec<PrivilegeComparison> = Vec::new();
        let mut m: usize = 0;
        while m < plan.len()
            invariant
                0 <= m <= plan.len(),
                entries.len() == m,
                l == deref_all(left@),
                r == deref_all(right@),
                plan@ == reconciliation(privilege_keys(l), privilege_keys(r)),
                forall|k: int|
                    0 <= k < plan.len() ==> pairing_in_bounds(
                        privilege_keys(l),
                        privilege_keys(r),
                        #[trigger] plan@[k],
                    ),
                forall|k: int| 0 <= k < m ==> privilege_entry(
                    l,
                    r,
                    plan@[k],
                    #[trigger] entries@[k],
                ),
            decreases plan.len() - m,
        {
            let e = match plan[m] {
                Pairing::Removed { left: i } => {
                    let x = left[i];
                    PrivilegeComparison::PrivilegeRemoved {
                        privilege_name: x.privilege_type().to_owned(),
                        grantor: x.grantor().to_owned(),
                        grantee: x.grantee().to_owned(),
                    }
                },
                Pairing::Maintained { left: i, .. } => {
                    let x = left[i];
                    PrivilegeComparison::PrivilegeMaintained {
                        privilege_name: x.privilege_type().to_owned(),
                        grantor: x.grantor().to_owned(),
                        grantee: x.grantee().to_owned(),
                    }
                },
                Pairing::Added { right: j } => {
                    let x = right[j];
                    PrivilegeComparison::PrivilegeAdded {
                        privilege_name: x.privilege_type().to_owned(),
                        grantor: x.grantor().to_owned(),
                        grantee: x.grantee().to_owned(),
                    }
                },
            };
            entries.push(e);
            m = m + 1;
        }
        Report { entries }
    }

    pub fn compare_routine_privileges(
        &self,
        left: Vec<&RoutinePrivilege>,
        right: Vec<&RoutinePrivilege>,
    ) -> (rep: Report<
        PrivilegeComparison,
    >)
        ensures
            privileges_reported(*self, deref_all(left@), deref_all(right@), rep),
    {
        if self.ignore_privileges {
            return Report { entries: Vec::new() };
        }
        self.compare_privileges(&left, &right)
    }

    pub fn compare_table_privileges(
        &self,
        left: Vec<&TablePrivilege>,
        right: Vec<&TablePrivilege>,
    ) -> (rep: Report<
        PrivilegeComparison,
    >)
        ensures
            privileges_reported(*self, deref_all(left@), deref_all(right@), rep),
    {
        if self.ignore_privileges {
            return Report { entries: Vec::new() };
        }
        self.compare_privileges(&left, &right)
    }

    pub fn compare_table_column_privileges(
        &self,
        left: Vec<&ColumnPrivilege>,
        right: Vec<&ColumnPrivilege>,
    ) -> (rep: Report<
        PrivilegeComparison,
    >)
        ensures
            privileges_reported(*self, deref_all(left@), deref_all(right@), rep),
    {
        if self.ignore_privileges {
            return Report { entries: Vec::new() };
        }
        self.compare_privileges(&left, &right)
    }
}

} // verus!
