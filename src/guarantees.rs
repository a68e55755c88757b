use vstd::prelude::*;
use crate::catalog::{
    Catalog, Column, ColumnPrivilege, Index, Routine, RoutinePrivilege, Sequence, Table,
    TableConstraint, TablePrivilege, TableTrigger,
};
use crate::catalog::View as ViewRow;
use crate::compare::{
    column_entry, is_column_report, is_routine_report, is_sequence_report,
    is_table_constraint_report, is_table_index_report, is_table_report, is_trigger_report,
    is_view_report, privilege_entry, privilege_keys, privileges_reported, routine_entry,
    schema_entry, schema_rows, sequence_entry, table_constraint_entry, table_entry,
    table_index_entry, trigger_entry, view_entry, Comparer,
};
use crate::privilege::Privilege;
use crate::properties::table_column_outcomes;
use crate::property::decimal;
use crate::order::lemma_key_less_strict;
use crate::reconcile::{
    added_candidate, added_index, distinct_keys, identity_plan, last_index,
    law_reconcile_with_itself, law_reconciliation_exists, lemma_last_index, lemma_plan_bounds,
    lemma_shared_bounds, pairing_in_bounds, reconciliation, shared_pairs, Pairing,
};
use crate::report::{
    outcomes, HasChanges, IndexComparison, PrivilegeComparison, PropertyComparison, PropertyOutcome,
    Report, RoutineComparison, SchemaComparison, SequenceComparison, TableColumnComparison,
    TableComparison, TableConstraintComparison, TableTriggerComparison, ViewComparison,
};
use crate::rows::{in_schema, in_table, key_views, named_stably, on_item};

verus! {

/// No outcome of `s` is a change.
pub open spec fn all_unchanged(s: Seq<PropertyOutcome>) -> bool {
    forall|i: int| 0 <= i < s.len() ==> (#[trigger] s[i]) is Unchanged
}

proof fn lemma_unchanged_report(rep: Report<PropertyComparison>)
    requires
        all_unchanged(outcomes(rep)),
    ensures
        !rep.changed(),
{
    assert forall|i: int| 0 <= i < rep.entries@.len() implies !(#[trigger] rep.entries@[i]).changed() by {
        assert(outcomes(rep)[i] is Unchanged);
    }
}

/// Comparing a list of grants with itself reports no change, where their keys are distinct.
pub proof fn law_privileges_unchanged<P: Privilege>(
    c: Comparer,
    l: Seq<P>,
    rep: Report<PrivilegeComparison>,
)
    requires
        privileges_reported(c, l, l, rep),
        distinct_keys(privilege_keys(l)),
        l.len() <= usize::MAX,
    ensures
        !rep.changed(),
{
    if !c.ignore_privileges {
        let k = privilege_keys(l);
        law_reconcile_with_itself(k);
        assert forall|m: int| 0 <= m < rep.entries@.len() implies !(#[trigger] rep.entries@[m]).changed() by {
            assert(identity_plan(k.len())[m] == (Pairing::Maintained { left: m as usize, right: m as usize }));
            assert(privilege_entry(l, l, reconciliation(k, k)[m], rep.entries@[m]));
        }
    }
}

/// Comparing the sequences of one side with themselves reports no change, where their keys
/// are distinct.
pub proof fn law_sequences_unchanged(c: Comparer, l: Seq<Sequence>, rep: Report<SequenceComparison>)
    requires
        is_sequence_report(c, l, l, rep),
        distinct_keys(key_views(l)),
        l.len() <= usize::MAX,
    ensures
        !rep.changed(),
{
    let k = key_views(l);
    law_reconcile_with_itself(k);
    assert forall|m: int| 0 <= m < rep.entries@.len() implies !(#[trigger] rep.entries@[m]).changed() by {
        assert(identity_plan(k.len())[m] == (Pairing::Maintained { left: m as usize, right: m as usize }));
        assert(sequence_entry(c, l, l, reconciliation(k, k)[m], rep.entries@[m]));
        if let SequenceComparison::SequenceMaintained { properties, .. } = rep.entries@[m] {
            lemma_unchanged_report(properties);
        }
    }
}

/// Comparing the indices of a table of one side with themselves reports no change, where their keys
/// are distinct.
pub proof fn law_indices_unchanged(c: Comparer, l: Seq<Index>, rep: Report<IndexComparison>)
    requires
        is_table_index_report(c, l, l, rep),
        distinct_keys(key_views(l)),
        l.len() <= usize::MAX,
    ensures
        !rep.changed(),
{
    let k = key_views(l);
    law_reconcile_with_itself(k);
    assert forall|m: int| 0 <= m < rep.entries@.len() implies !(#[trigger] rep.entries@[m]).changed() by {
        assert(identity_plan(k.len())[m] == (Pairing::Maintained { left: m as usize, right: m as usize }));
        assert(table_index_entry(c, l, l, reconciliation(k, k)[m], rep.entries@[m]));
        if let IndexComparison::IndexMaintained { properties, .. } = rep.entries@[m] {
            lemma_unchanged_report(properties);
        }
    }
}

/// Comparing the constraints of a table of one side with themselves reports no change, where their keys
/// are distinct.
pub proof fn law_constraints_unchanged(
    c: Comparer,
    l: Seq<TableConstraint>,
    rep: Report<TableConstraintComparison>,
)
    requires
        is_table_constraint_report(c, l, l, rep),
        distinct_keys(key_views(l)),
        l.len() <= usize::MAX,
    ensures
        !rep.changed(),
{
    let k = key_views(l);
    law_reconcile_with_itself(k);
    assert forall|m: int| 0 <= m < rep.entries@.len() implies !(#[trigger] rep.entries@[m]).changed() by {
        assert(identity_plan(k.len())[m] == (Pairing::Maintained { left: m as usize, right: m as usize }));
        assert(table_constraint_entry(c, l, l, reconciliation(k, k)[m], rep.entries@[m]));
        if let TableConstraintComparison::ConstraintMaintained { properties, .. } = rep.entries@[m] {
            lemma_unchanged_report(properties);
        }
    }
}

/// Comparing the triggers of a table of one side with themselves reports no change, where their keys
/// are distinct.
pub proof fn law_triggers_unchanged(
    c: Comparer,
    l: Seq<TableTrigger>,
    rep: Report<TableTriggerComparison>,
)
    requires
        is_trigger_report(c, l, l, rep),
        distinct_keys(key_views(l)),
        l.len() <= usize::MAX,
    ensures
        !rep.changed(),
{
    let k = key_views(l);
    law_reconcile_with_itself(k);
    assert forall|m: int| 0 <= m < rep.entries@.len() implies !(#[trigger] rep.entries@[m]).changed() by {
        assert(identity_plan(k.len())[m] == (Pairing::Maintained { left: m as usize, right: m as usize }));
        assert(trigger_entry(c, l, l, reconciliation(k, k)[m], rep.entries@[m]));
        if let TableTriggerComparison::TriggerMaintained { properties, .. } = rep.entries@[m] {
            lemma_unchanged_report(properties);
        }
    }
}

/// Comparing the columns of a table of one side with themselves reports no change, where their keys
/// are distinct and so are those of the grants on each of them.
pub proof fn law_columns_unchanged(
    c: Comparer,
    l: Seq<Column>,
    lp: Seq<ColumnPrivilege>,
    rep: Report<TableColumnComparison>,
)
    requires
        is_column_report(c, l, l, lp, lp, rep),
        distinct_keys(key_views(l)),
        forall|item: Seq<char>| #[trigger] distinct_keys(privilege_keys(lp.filter(on_item(item)))),
        l.len() <= usize::MAX,
        lp.len() <= usize::MAX,
    ensures
        !rep.changed(),
{
    let k = key_views(l);
    law_reconcile_with_itself(k);
    assert forall|m: int| 0 <= m < rep.entries@.len() implies !(#[trigger] rep.entries@[m]).changed() by {
        assert(identity_plan(k.len())[m] == (Pairing::Maintained { left: m as usize, right: m as usize }));
        assert(column_entry(c, l, l, lp, lp, reconciliation(k, k)[m], rep.entries@[m]));
        if let TableColumnComparison::ColumnMaintained {
            properties,
            privileges,
            ..
        } = rep.entries@[m] {
            lemma_unchanged_report(properties);
            let g = lp.filter(on_item(l[m].column_name@));
            assert(distinct_keys(privilege_keys(g)));
            lp.lemma_filter_len(on_item(l[m].column_name@));
            law_privileges_unchanged(c, g, privileges);
        }
    }
}

/// Comparing the routines of a schema of one side with themselves reports no change, where their keys
/// are distinct and so are those of the grants on each of them.
pub proof fn law_routines_unchanged(
    c: Comparer,
    l: Seq<Routine>,
    lp: Seq<RoutinePrivilege>,
    rep: Report<RoutineComparison>,
)
    requires
        is_routine_report(c, l, l, lp, lp, rep),
        distinct_keys(key_views(l)),
        forall|item: Seq<char>| #[trigger] distinct_keys(privilege_keys(lp.filter(on_item(item)))),
        l.len() <= usize::MAX,
        lp.len() <= usize::MAX,
    ensures
        !rep.changed(),
{
    let k = key_views(l);
    law_reconcile_with_itself(k);
    assert forall|m: int| 0 <= m < rep.entries@.len() implies !(#[trigger] rep.entries@[m]).changed() by {
        assert(identity_plan(k.len())[m] == (Pairing::Maintained { left: m as usize, right: m as usize }));
        assert(routine_entry(c, l, l, lp, lp, reconciliation(k, k)[m], rep.entries@[m]));
        if let RoutineComparison::RoutineMaintained {
            properties,
            privileges,
            ..
        } = rep.entries@[m] {
            lemma_unchanged_report(properties);
            let g = lp.filter(on_item(l[m].signature@));
            assert(distinct_keys(privilege_keys(g)));
            lp.lemma_filter_len(on_item(l[m].signature@));
            law_privileges_unchanged(c, g, privileges);
        }
    }
}

/// Comparing the views of one side with themselves reports no change, where their names
/// are distinct.
pub proof fn law_views_unchanged(c: Comparer, l: Seq<ViewRow>, rep: Report<ViewComparison>)
    requires
        is_view_report(c, l, l, rep),
        distinct_keys(key_views(l)),
        l.len() <= usize::MAX,
    ensures
        !rep.changed(),
{
    let k = key_views(l);
    lemma_shared_bounds(k, k);
    assert forall|m: int| 0 <= m < rep.entries@.len() implies !(#[trigger] rep.entries@[m]).changed() by {
        let p = shared_pairs(k, k)[m];
        assert(pairing_in_bounds(k, k, p));
        assert(view_entry(c, l, l, p, rep.entries@[m]));
        if let Pairing::Maintained { left, right } = p {
            if left != right {
                if left < right {
                    assert(k[left as int] != k[right as int]);
                } else {
                    assert(k[right as int] != k[left as int]);
                }
            }
        }
        if let ViewComparison::ViewMaintained { properties, .. } = rep.entries@[m] {
            lemma_unchanged_report(properties);
        }
    }
}

/// Within the table named `t`, the natural keys of the columns, of the grants on each
/// column, of the indices, of the grants on the table, of the constraints and of the
/// triggers are distinct.
pub open spec fn keyed_table(
    lc: Seq<Column>,
    lcp: Seq<ColumnPrivilege>,
    li: Seq<Index>,
    ltp: Seq<TablePrivilege>,
    lk: Seq<TableConstraint>,
    lt: Seq<TableTrigger>,
    t: Seq<char>,
) -> bool {
    &&& distinct_keys(key_views(lc.filter(in_table(t))))
    &&& forall|col: Seq<char>|
        #[trigger] distinct_keys(privilege_keys(lcp.filter(in_table(t)).filter(on_item(col))))
    &&& distinct_keys(key_views(li.filter(in_table(t))))
    &&& distinct_keys(privilege_keys(ltp.filter(in_table(t))))
    &&& distinct_keys(key_views(lk.filter(in_table(t))))
    &&& distinct_keys(key_views(lt.filter(in_table(t))))
}

/// Comparing the tables of one side with themselves reports no change at any level, where
/// the table names are distinct and every table is keyed.
pub proof fn law_tables_unchanged(
    c: Comparer,
    l: Seq<Table>,
    lc: Seq<Column>,
    lcp: Seq<ColumnPrivilege>,
    li: Seq<Index>,
    ltp: Seq<TablePrivilege>,
    lk: Seq<TableConstraint>,
    lt: Seq<TableTrigger>,
    rep: Report<TableComparison>,
)
    requires
        is_table_report(c, l, l, lc, lc, lcp, lcp, li, li, ltp, ltp, lk, lk, lt, lt, rep),
        distinct_keys(key_views(l)),
        forall|t: Seq<char>| #[trigger] keyed_table(lc, lcp, li, ltp, lk, lt, t),
        l.len() <= usize::MAX,
        lc.len() <= usize::MAX,
        lcp.len() <= usize::MAX,
        li.len() <= usize::MAX,
        ltp.len() <= usize::MAX,
        lk.len() <= usize::MAX,
        lt.len() <= usize::MAX,
    ensures
        !rep.changed(),
{
    let k = key_views(l);
    law_reconcile_with_itself(k);
    assert forall|m: int| 0 <= m < rep.entries@.len() implies !(#[trigger] rep.entries@[m]).changed() by {
        assert(identity_plan(k.len())[m] == (Pairing::Maintained { left: m as usize, right: m as usize }));
        assert(table_entry(
            c,
            l,
            l,
            lc,
            lc,
            lcp,
            lcp,
            li,
            li,
            ltp,
            ltp,
            lk,
            lk,
            lt,
            lt,
            reconciliation(k, k)[m],
            rep.entries@[m],
        ));
        if let TableComparison::TableMaintained {
            columns,
            constraints,
            indices,
            privileges,
            properties,
            triggers,
            ..
        } = rep.entries@[m] {
            let t = l[m].table_name@;
            assert(keyed_table(lc, lcp, li, ltp, lk, lt, t));
            lemma_unchanged_report(properties);
            lc.lemma_filter_len(in_table(t));
            lcp.lemma_filter_len(in_table(t));
            li.lemma_filter_len(in_table(t));
            ltp.lemma_filter_len(in_table(t));
            lk.lemma_filter_len(in_table(t));
            lt.lemma_filter_len(in_table(t));
            let gc = lcp.filter(in_table(t));
            assert forall|col: Seq<char>| #[trigger] distinct_keys(privilege_keys(gc.filter(on_item(col)))) by {
                assert(distinct_keys(privilege_keys(lcp.filter(in_table(t)).filter(on_item(col)))));
            }
            law_columns_unchanged(c, lc.filter(in_table(t)), gc, columns);
            law_indices_unchanged(c, li.filter(in_table(t)), indices);
            law_privileges_unchanged(c, ltp.filter(in_table(t)), privileges);
            law_constraints_unchanged(c, lk.filter(in_table(t)), constraints);
            law_triggers_unchanged(c, lt.filter(in_table(t)), triggers);
        }
    }
}

/// The rows that `c` lists for the schema `name` have distinct natural keys within
/// their parents.
pub open spec fn keyed_schema(c: Catalog, name: Seq<char>) -> bool {
    &&& distinct_keys(key_views(c.routines@.filter(in_schema(name))))
    &&& forall|signature: Seq<char>|
        #[trigger] distinct_keys(
            privilege_keys(c.routine_privileges@.filter(in_schema(name)).filter(on_item(signature))),
        )
    &&& distinct_keys(key_views(c.sequences@.filter(in_schema(name))))
    &&& distinct_keys(key_views(c.tables@.filter(in_schema(name))))
    &&& forall|t: Seq<char>|
        #[trigger] keyed_table(
            c.columns@.filter(in_schema(name)),
            c.column_privileges@.filter(in_schema(name)),
            c.indices@.filter(in_schema(name)),
            c.table_privileges@.filter(in_schema(name)),
            c.table_constraints@.filter(in_schema(name)).filter(named_stably()),
            c.table_triggers@.filter(in_schema(name)),
            t,
        )
    &&& distinct_keys(key_views(c.views@.filter(in_schema(name))))
}

/// Every list of `c` has a length that a `usize` holds.
pub open spec fn catalog_fits(c: Catalog) -> bool {
    &&& c.routines@.len() <= usize::MAX
    &&& c.routine_privileges@.len() <= usize::MAX
    &&& c.sequences@.len() <= usize::MAX
    &&& c.tables@.len() <= usize::MAX
    &&& c.columns@.len() <= usize::MAX
    &&& c.column_privileges@.len() <= usize::MAX
    &&& c.indices@.len() <= usize::MAX
    &&& c.table_privileges@.len() <= usize::MAX
    &&& c.table_constraints@.len() <= usize::MAX
    &&& c.table_triggers@.len() <= usize::MAX
    &&& c.views@.len() <= usize::MAX
}

/// Reflexivity: comparing a catalog with itself reports no change for a schema that it
/// lists once and whose rows are keyed, at every level below.
pub proof fn law_schema_unchanged(c: Comparer, name: Seq<char>, cat: Catalog, e: SchemaComparison)
    requires
        schema_entry(c, name, cat, cat, e),
        schema_rows(cat, name).len() == 1,
        keyed_schema(cat, name),
        catalog_fits(cat),
    ensures
        !e.changed(),
{
    if let SchemaComparison::SchemaMaintained {
        properties,
        routines,
        sequences,
        tables,
        views,
        ..
    } = e {
        lemma_unchanged_report(properties);
        cat.routines@.lemma_filter_len(in_schema(name));
        cat.routine_privileges@.lemma_filter_len(in_schema(name));
        cat.sequences@.lemma_filter_len(in_schema(name));
        cat.tables@.lemma_filter_len(in_schema(name));
        cat.columns@.lemma_filter_len(in_schema(name));
        cat.column_privileges@.lemma_filter_len(in_schema(name));
        cat.indices@.lemma_filter_len(in_schema(name));
        cat.table_privileges@.lemma_filter_len(in_schema(name));
        cat.table_constraints@.lemma_filter_len(in_schema(name));
        cat.table_constraints@.filter(in_schema(name)).lemma_filter_len(named_stably());
        cat.table_triggers@.lemma_filter_len(in_schema(name));
        cat.views@.lemma_filter_len(in_schema(name));
        law_routines_unchanged(
            c,
            cat.routines@.filter(in_schema(name)),
            cat.routine_privileges@.filter(in_schema(name)),
            routines,
        );
        law_sequences_unchanged(c, cat.sequences@.filter(in_schema(name)), sequences);
        law_tables_unchanged(
            c,
            cat.tables@.filter(in_schema(name)),
            cat.columns@.filter(in_schema(name)),
            cat.column_privileges@.filter(in_schema(name)),
            cat.indices@.filter(in_schema(name)),
            cat.table_privileges@.filter(in_schema(name)),
            cat.table_constraints@.filter(in_schema(name)).filter(named_stably()),
            cat.table_triggers@.filter(in_schema(name)),
            tables,
        );
        law_views_unchanged(c, cat.views@.filter(in_schema(name)), views);
    }
}

/// Reflexivity of a whole report: where every requested schema is listed once and keyed,
/// the report of a catalog compared with itself holds no change.
pub proof fn law_report_unchanged(
    c: Comparer,
    schemas: Seq<String>,
    cat: Catalog,
    rep: Report<SchemaComparison>,
)
    requires
        rep.entries@.len() == schemas.len(),
        forall|i: int| 0 <= i < schemas.len() ==> schema_entry(
            c,
            schemas[i]@,
            cat,
            cat,
            #[trigger] rep.entries@[i],
        ),
        forall|i: int| 0 <= i < schemas.len() ==> schema_rows(
            cat,
            #[trigger] schemas[i]@,
        ).len() == 1,
        forall|i: int| 0 <= i < schemas.len() ==> keyed_schema(cat, #[trigger] schemas[i]@),
        catalog_fits(cat),
    ensures
        !rep.changed(),
{
    assert forall|i: int| 0 <= i < rep.entries@.len() implies !(#[trigger] rep.entries@[i]).changed() by {
        law_schema_unchanged(c, schemas[i]@, cat, rep.entries@[i]);
    }
}

/// `e` reports the table `name` as added.
pub open spec fn added_table(e: TableComparison, name: Seq<char>) -> bool {
    e matches TableComparison::TableAdded { table_name } && table_name@ == name
}

/// `e` reports on the view `name`.
pub open spec fn names_view(e: ViewComparison, name: Seq<char>) -> bool {
    match e {
        ViewComparison::ViewMaintained { view_name, .. } => view_name@ == name,
    }
}

/// View suppression: a table that only the right side lists is reported added exactly
/// once among the tables and never among the views, where the views of the left side are
/// among its tables.
pub proof fn law_added_view_reported_once(
    c: Comparer,
    lt: Seq<Table>,
    rt: Seq<Table>,
    lc: Seq<Column>,
    rc: Seq<Column>,
    lcp: Seq<ColumnPrivilege>,
    rcp: Seq<ColumnPrivilege>,
    li: Seq<Index>,
    ri: Seq<Index>,
    ltp: Seq<TablePrivilege>,
    rtp: Seq<TablePrivilege>,
    lk: Seq<TableConstraint>,
    rk: Seq<TableConstraint>,
    ltr: Seq<TableTrigger>,
    rtr: Seq<TableTrigger>,
    tables: Report<TableComparison>,
    lv: Seq<ViewRow>,
    rv: Seq<ViewRow>,
    views: Report<ViewComparison>,
    name: Seq<char>,
)
    requires
        is_table_report(c, lt, rt, lc, rc, lcp, rcp, li, ri, ltp, rtp, lk, rk, ltr, rtr, tables),
        is_view_report(c, lv, rv, views),
        key_views(rt).contains(seq![name]),
        !key_views(lt).contains(seq![name]),
        forall|i: int| 0 <= i < lv.len() ==> key_views(lt).contains(#[trigger] key_views(lv)[i]),
        lt.len() <= usize::MAX,
        rt.len() <= usize::MAX,
        lv.len() <= usize::MAX,
        rv.len() <= usize::MAX,
    ensures
        exists|m: int| 0 <= m < tables.entries@.len() && added_table(
            #[trigger] tables.entries@[m],
            name,
        ),
        forall|m1: int, m2: int|
            0 <= m1 < tables.entries@.len() && 0 <= m2 < tables.entries@.len() && added_table(
                #[trigger] tables.entries@[m1],
                name,
            ) && added_table(#[trigger] tables.entries@[m2], name) ==> m1 == m2,
        forall|m: int| 0 <= m < views.entries@.len() ==> !names_view(
            #[trigger] views.entries@[m],
            name,
        ),
{
    let kl = key_views(lt);
    let kr = key_views(rt);
    let key = seq![name];
    law_reconciliation_exists(kl, kr);
    let p = reconciliation(kl, kr);
    lemma_plan_bounds(kl, kr, p);
    lemma_last_index(kr, key);
    let r = last_index(kr, key);
    assert(added_candidate(kl, kr, r));
    let k = choose|k: int| kl.len() <= k < p.len() && added_index(p[k]) == r;
    assert(table_entry(c, lt, rt, lc, rc, lcp, rcp, li, ri, ltp, rtp, lk, rk, ltr, rtr, p[k], tables.entries@[k]));
    assert(kr[r] == seq![rt[r].table_name@]);
    assert(seq![rt[r].table_name@][0] == key[0]);
    assert(added_table(tables.entries@[k], name));
    assert forall|m1: int, m2: int|
        0 <= m1 < tables.entries@.len() && 0 <= m2 < tables.entries@.len() && added_table(
            #[trigger] tables.entries@[m1],
            name,
        ) && added_table(#[trigger] tables.entries@[m2], name) implies m1 == m2 by {
        assert(table_entry(c, lt, rt, lc, rc, lcp, rcp, li, ri, ltp, rtp, lk, rk, ltr, rtr, p[m1], tables.entries@[m1]));
        assert(table_entry(c, lt, rt, lc, rc, lcp, rcp, li, ri, ltp, rtp, lk, rk, ltr, rtr, p[m2], tables.entries@[m2]));
        let r1 = added_index(p[m1]);
        let r2 = added_index(p[m2]);
        assert(kr[r1] =~= key);
        assert(kr[r2] =~= key);
        if m1 != m2 {
            lemma_key_less_strict(key, key);
        }
    }
    lemma_shared_bounds(key_views(lv), key_views(rv));
    assert forall|m: int| 0 <= m < views.entries@.len() implies !names_view(
        #[trigger] views.entries@[m],
        name,
    ) by {
        let q = shared_pairs(key_views(lv), key_views(rv))[m];
        assert(view_entry(c, lv, rv, q, views.entries@[m]));
        if let Pairing::Maintained { left, .. } = q {
            if names_view(views.entries@[m], name) {
                assert(key_views(lv)[left as int] =~= key);
                assert(kl.contains(key));
            }
        }
    }
}

/// Ordinal toggle: two columns that differ only in ordinal position compare unchanged in
/// every property when ordinals are ignored; otherwise the ordinal position, compared
/// last, is the one property reported changed.
pub proof fn law_ordinal_toggle(l: Column, r: Column)
    requires
        r == (Column { ordinal_position: r.ordinal_position, ..l }),
        l.ordinal_position != r.ordinal_position,
    ensures
        all_unchanged(table_column_outcomes(l, r, true)),
        all_unchanged(table_column_outcomes(l, r, false).drop_last()),
        table_column_outcomes(l, r, false).last() == (PropertyOutcome::Changed {
            name: "ordinal_position"@,
            left: decimal(l.ordinal_position as int),
            right: decimal(r.ordinal_position as int),
        }),
{
}

} // verus!
