use vstd::prelude::*;
use crate::report::{
    HasChanges, IndexComparison, PrivilegeComparison, PropertyComparison, Report,
    RoutineComparison, SchemaComparison, SequenceComparison, TableColumnComparison,
    TableComparison, TableConstraintComparison, TableTriggerComparison, ViewComparison,
};

verus! {

/// When the report is coloured.
#[derive(Clone, Copy, Debug, PartialEq, Eq, PartialOrd, Ord)]
pub enum Colouring {
    Auto,
    Always,
    Never,
}

/// The options of one comparison run.
pub struct Args {
    /// The left database URL.
    pub left: String,
    /// The right database URL.
    pub right: String,
    /// The schemas to compare.
    pub schema: Vec<String>,
    /// Compare routine and view definitions up to whitespace.
    pub ignore_whitespace: bool,
    /// Leave out the ordinal position of columns.
    pub ignore_column_ordinal: bool,
    /// Leave out privileges.
    pub ignore_privileges: bool,
    /// Show what is unchanged too.
    pub verbose: bool,
    pub color: Colouring,
}

/// How a line of the report reads: a difference, a heading above differences, or an
/// unchanged item.
#[derive(Clone, Copy, Debug, PartialEq, Eq, Structural)]
pub enum Mark {
    Added,
    Removed,
    Missing,
    Changed,
    Heading,
    Unchanged,
}

/// What a line of the report is about.
#[derive(Clone, Debug, PartialEq, Eq)]
pub enum Subject {
    Schema { name: String },
    Routine { signature: String },
    Sequence { name: String },
    Table { name: String },
    Column { name: String },
    Index { name: String },
    Constraint { name: String },
    Trigger { name: String, event: String },
    View { name: String },
    /// A property; `left` and `right` are equal for an unchanged one.
    Property { name: String, left: String, right: String },
    Privilege { name: String, grantor: String, grantee: String },
}

/// One line of the rendered report, indented by `depth`.
#[derive(Clone, Debug, PartialEq, Eq)]
pub struct Line {
    pub depth: usize,
    pub mark: Mark,
    pub subject: Subject,
}

/// A line that counts as a difference.
pub open spec fn counts(l: Line) -> bool {
    !(l.mark is Heading) && !(l.mark is Unchanged)
}

/// The number of lines of `s` that count as differences.
pub open spec fn count_of(s: Seq<Line>) -> nat
    decreases s.len(),
{
    if s.len() == 0 {
        0
    } else {
        count_of(s.drop_last()) + if counts(s.last()) {
            1nat
        } else {
            0nat
        }
    }
}

/// No line of `s` shows an unchanged item.
pub open spec fn quiet(s: Seq<Line>) -> bool {
    forall|i: int| 0 <= i < s.len() ==> !((#[trigger] s[i]).mark is Unchanged)
}

pub proof fn lemma_count_bound(s: Seq<Line>)
    ensures
        count_of(s) <= s.len(),
    decreases s.len(),
{
    if s.len() > 0 {
        lemma_count_bound(s.drop_last());
    }
}

/// Appends `line` to `out`; returns 1 where it counts as a difference, else 0.
fn emit(out: &mut Vec<Line>, line: Line) -> (n: usize)
    ensures
        final(out)@ == old(out)@.push(line),
        count_of(final(out)@) == count_of(old(out)@) + n,
        n == (if counts(line) { 1usize } else { 0usize }),
        quiet(old(out)@) && !(line.mark is Unchanged) ==> quiet(final(out)@),
{
    let n: usize = match line.mark {
        Mark::Heading | Mark::Unchanged => 0,
        _ => 1,
    };
    out.push(line);
    proof {
        assert(final(out)@.drop_last() =~= old(out)@);
        lemma_count_bound(final(out)@);
    }
    n
}

/// The number of changed properties among `s`.
pub open spec fn property_differences(s: Seq<PropertyComparison>) -> nat
    decreases s.len(),
{
    if s.len() == 0 {
        0
    } else {
        property_differences(s.drop_last()) + if s.last().changed() {
            1nat
        } else {
            0nat
        }
    }
}

/// The number of grants added or removed among `s`.
pub open spec fn privilege_differences(s: Seq<PrivilegeComparison>) -> nat
    decreases s.len(),
{
    if s.len() == 0 {
        0
    } else {
        privilege_differences(s.drop_last()) + if s.last().changed() {
            1nat
        } else {
            0nat
        }
    }
}

/// The differences that the entries `s` hold: one per entry added, removed or missing,
/// and those below each entry on both sides.
pub open spec fn routine_differences(s: Seq<RoutineComparison>) -> nat
    decreases s.len(),
{
    if s.len() == 0 {
        0
    } else {
        routine_differences(s.drop_last()) + match s.last() {
            RoutineComparison::RoutineMaintained { properties, privileges, .. } => {
                property_differences(properties.entries@) + privilege_differences(privileges.entries@)
            },
        _ => 1,
        }
    }
}

/// The differences that the entries `s` hold: one per entry added, removed or missing,
/// and those below each entry on both sides.
pub open spec fn sequence_differences(s: Seq<SequenceComparison>) -> nat
    decreases s.len(),
{
    if s.len() == 0 {
        0
    } else {
        sequence_differences(s.drop_last()) + match s.last() {
            SequenceComparison::SequenceMaintained { properties, .. } => {
                property_differences(properties.entries@)
            },
        _ => 1,
        }
    }
}

/// The differences that the entries `s` hold: one per entry added, removed or missing,
/// and those below each entry on both sides.
pub open spec fn column_differences(s: Seq<TableColumnComparison>) -> nat
    decreases s.len(),
{
    if s.len() == 0 {
        0
    } else {
        column_differences(s.drop_last()) + match s.last() {
            TableColumnComparison::ColumnMaintained { properties, privileges, .. } => {
                property_differences(properties.entries@) + privilege_differences(privileges.entries@)
            },
        _ => 1,
        }
    }
}

/// The differences that the entries `s` hold: one per entry added, removed or missing,
/// and those below each entry on both sides.
pub open spec fn index_differences(s: Seq<IndexComparison>) -> nat
    decreases s.len(),
{
    if s.len() == 0 {
        0
    } else {
        index_differences(s.drop_last()) + match s.last() {
            IndexComparison::IndexMaintained { properties, .. } => {
                property_differences(properties.entries@)
            },
        _ => 1,
        }
    }
}

/// The differences that the entries `s` hold: one per entry added, removed or missing,
/// and those below each entry on both sides.
pub open spec fn constraint_differences(s: Seq<TableConstraintComparison>) -> nat
    decreases s.len(),
{
    if s.len() == 0 {
        0
    } else {
        constraint_differences(s.drop_last()) + match s.last() {
            TableConstraintComparison::ConstraintMaintained { properties, .. } => {
                property_differences(properties.entries@)
            },
        _ => 1,
        }
    }
}

/// The differences that the entries `s` hold: one per entry added, removed or missing,
/// and those below each entry on both sides.
pub open spec fn trigger_differences(s: Seq<TableTriggerComparison>) -> nat
    decreases s.len(),
{
    if s.len() == 0 {
        0
    } else {
        trigger_differences(s.drop_last()) + match s.last() {
            TableTriggerComparison::TriggerMaintained { properties, .. } => {
                property_differences(properties.entries@)
            },
        _ => 1,
        }
    }
}

/// The differences that the entries `s` hold: one per entry added, removed or missing,
/// and those below each entry on both sides.
pub open spec fn table_differences(s: Seq<TableComparison>) -> nat
    decreases s.len(),
{
    if s.len() == 0 {
        0
    } else {
        table_differences(s.drop_last()) + match s.last() {
            TableComparison::TableMaintained {
                properties,
                columns,
                indices,
                privileges,
                constraints,
                triggers,
                ..
            } => {
                property_differences(properties.entries@) + column_differences(columns.entries@)
                + index_differences(indices.entries@) + privilege_differences(privileges.entries@)
                + constraint_differences(constraints.entries@) + trigger_differences(triggers.entries@)
            },
        _ => 1,
        }
    }
}

/// The differences that the entries `s` hold: one per entry added, removed or missing,
/// and those below each entry on both sides.
pub open spec fn view_differences(s: Seq<ViewComparison>) -> nat
    decreases s.len(),
{
    if s.len() == 0 {
        0
    } else {
        view_differences(s.drop_last()) + match s.last() {
            ViewComparison::ViewMaintained { properties, .. } => {
                property_differences(properties.entries@)
            },
        }
    }
}

/// The differences that the entries `s` hold: one per entry added, removed or missing,
/// and those below each entry on both sides.
pub open spec fn schema_differences(s: Seq<SchemaComparison>) -> nat
    decreases s.len(),
{
    if s.len() == 0 {
        0
    } else {
        schema_differences(s.drop_last()) + match s.last() {
            SchemaComparison::SchemaMaintained {
                properties,
                routines,
                sequences,
                tables,
                views,
                ..
            } => {
                property_differences(properties.entries@) + routine_differences(routines.entries@)
                + sequence_differences(sequences.entries@) + table_differences(tables.entries@)
                + view_differences(views.entries@)
            },
        _ => 1,
        }
    }
}

/// The entries `s` hold differences exactly when one of them records a change.
pub proof fn lemma_property_differences(s: Seq<PropertyComparison>)
    ensures
        (property_differences(s) > 0) == (exists|i: int| 0 <= i < s.len() && (#[trigger] s[i]).changed()),
    decreases s.len(),
{
    if s.len() > 0 {
        let t = s.drop_last();
        lemma_property_differences(t);
        if exists|i: int| 0 <= i < t.len() && (#[trigger] t[i]).changed() {
            let i = choose|i: int| 0 <= i < t.len() && (#[trigger] t[i]).changed();
            assert(s[i] == t[i]);
        }
        if exists|i: int| 0 <= i < s.len() && (#[trigger] s[i]).changed() {
            let i = choose|i: int| 0 <= i < s.len() && (#[trigger] s[i]).changed();
            if i < t.len() {
                assert(t[i] == s[i]);
            }
        }
    }
}

/// The entries `s` hold differences exactly when one of them records a change.
pub proof fn lemma_privilege_differences(s: Seq<PrivilegeComparison>)
    ensures
        (privilege_differences(s) > 0) == (exists|i: int| 0 <= i < s.len() && (#[trigger] s[i]).changed()),
    decreases s.len(),
{
    if s.len() > 0 {
        let t = s.drop_last();
        lemma_privilege_differences(t);
        if exists|i: int| 0 <= i < t.len() && (#[trigger] t[i]).changed() {
            let i = choose|i: int| 0 <= i < t.len() && (#[trigger] t[i]).changed();
            assert(s[i] == t[i]);
        }
        if exists|i: int| 0 <= i < s.len() && (#[trigger] s[i]).changed() {
            let i = choose|i: int| 0 <= i < s.len() && (#[trigger] s[i]).changed();
            if i < t.len() {
                assert(t[i] == s[i]);
            }
        }
    }
}

/// The entries `s` hold differences exactly when one of them records a change.
pub proof fn lemma_routine_differences(s: Seq<RoutineComparison>)
    ensures
        (routine_differences(s) > 0) == (exists|i: int| 0 <= i < s.len() && (#[trigger] s[i]).changed()),
    decreases s.len(),
{
    if s.len() > 0 {
        let t = s.drop_last();
        lemma_routine_differences(t);
        if let RoutineComparison::RoutineMaintained { properties, privileges, .. } = s.last() {
                lemma_property_differences(properties.entries@);
                lemma_privilege_differences(privileges.entries@);
        }
        if exists|i: int| 0 <= i < t.len() && (#[trigger] t[i]).changed() {
            let i = choose|i: int| 0 <= i < t.len() && (#[trigger] t[i]).changed();
            assert(s[i] == t[i]);
        }
        if exists|i: int| 0 <= i < s.len() && (#[trigger] s[i]).changed() {
            let i = choose|i: int| 0 <= i < s.len() && (#[trigger] s[i]).changed();
            if i < t.len() {
                assert(t[i] == s[i]);
            }
        }
    }
}

/// The entries `s` hold differences exactly when one of them records a change.
pub proof fn lemma_sequence_differences(s: Seq<SequenceComparison>)
    ensures
        (sequence_differences(s) > 0) == (exists|i: int| 0 <= i < s.len() && (#[trigger] s[i]).changed()),
    decreases s.len(),
{
    if s.len() > 0 {
        let t = s.drop_last();
        lemma_sequence_differences(t);
        if let SequenceComparison::SequenceMaintained { properties, .. } = s.last() {
                lemma_property_differences(properties.entries@);
        }
        if exists|i: int| 0 <= i < t.len() && (#[trigger] t[i]).changed() {
            let i = choose|i: int| 0 <= i < t.len() && (#[trigger] t[i]).changed();
            assert(s[i] == t[i]);
        }
        if exists|i: int| 0 <= i < s.len() && (#[trigger] s[i]).changed() {
            let i = choose|i: int| 0 <= i < s.len() && (#[trigger] s[i]).changed();
            if i < t.len() {
                assert(t[i] == s[i]);
            }
        }
    }
}

/// The entries `s` hold differences exactly when one of them records a change.
pub proof fn lemma_column_differences(s: Seq<TableColumnComparison>)
    ensures
        (column_differences(s) > 0) == (exists|i: int| 0 <= i < s.len() && (#[trigger] s[i]).changed()),
    decreases s.len(),
{
    if s.len() > 0 {
        let t = s.drop_last();
        lemma_column_differences(t);
        if let TableColumnComparison::ColumnMaintained { properties, privileges, .. } = s.last() {
                lemma_property_differences(properties.entries@);
                lemma_privilege_differences(privileges.entries@);
        }
        if exists|i: int| 0 <= i < t.len() && (#[trigger] t[i]).changed() {
            let i = choose|i: int| 0 <= i < t.len() && (#[trigger] t[i]).changed();
            assert(s[i] == t[i]);
        }
        if exists|i: int| 0 <= i < s.len() && (#[trigger] s[i]).changed() {
            let i = choose|i: int| 0 <= i < s.len() && (#[trigger] s[i]).changed();
            if i < t.len() {
                assert(t[i] == s[i]);
            }
        }
    }
}

/// The entries `s` hold differences exactly when one of them records a change.
pub proof fn lemma_index_differences(s: Seq<IndexComparison>)
    ensures
        (index_differences(s) > 0) == (exists|i: int| 0 <= i < s.len() && (#[trigger] s[i]).changed()),
    decreases s.len(),
{
    if s.len() > 0 {
        let t = s.drop_last();
        lemma_index_differences(t);
        if let IndexComparison::IndexMaintained { properties, .. } = s.last() {
                lemma_property_differences(properties.entries@);
        }
        if exists|i: int| 0 <= i < t.len() && (#[trigger] t[i]).changed() {
            let i = choose|i: int| 0 <= i < t.len() && (#[trigger] t[i]).changed();
            assert(s[i] == t[i]);
        }
        if exists|i: int| 0 <= i < s.len() && (#[trigger] s[i]).changed() {
            let i = choose|i: int| 0 <= i < s.len() && (#[trigger] s[i]).changed();
            if i < t.len() {
                assert(t[i] == s[i]);
            }
        }
    }
}

/// The entries `s` hold differences exactly when one of them records a change.
pub proof fn lemma_constraint_differences(s: Seq<TableConstraintComparison>)
    ensures
        (constraint_differences(s) > 0) == (exists|i: int| 0 <= i < s.len() && (#[trigger] s[i]).changed()),
    decreases s.len(),
{
    if s.len() > 0 {
        let t = s.drop_last();
        lemma_constraint_differences(t);
        if let TableConstraintComparison::ConstraintMaintained { properties, .. } = s.last() {
                lemma_property_differences(properties.entries@);
        }
        if exists|i: int| 0 <= i < t.len() && (#[trigger] t[i]).changed() {
            let i = choose|i: int| 0 <= i < t.len() && (#[trigger] t[i]).changed();
            assert(s[i] == t[i]);
        }
        if exists|i: int| 0 <= i < s.len() && (#[trigger] s[i]).changed() {
            let i = choose|i: int| 0 <= i < s.len() && (#[trigger] s[i]).changed();
            if i < t.len() {
                assert(t[i] == s[i]);
            }
        }
    }
}

/// The entries `s` hold differences exactly when one of them records a change.
pub proof fn lemma_trigger_differences(s: Seq<TableTriggerComparison>)
    ensures
        (trigger_differences(s) > 0) == (exists|i: int| 0 <= i < s.len() && (#[trigger] s[i]).changed()),
    decreases s.len(),
{
    if s.len() > 0 {
        let t = s.drop_last();
        lemma_trigger_differences(t);
        if let TableTriggerComparison::TriggerMaintained { properties, .. } = s.last() {
                lemma_property_differences(properties.entries@);
        }
        if exists|i: int| 0 <= i < t.len() && (#[trigger] t[i]).changed() {
            let i = choose|i: int| 0 <= i < t.len() && (#[trigger] t[i]).changed();
            assert(s[i] == t[i]);
        }
        if exists|i: int| 0 <= i < s.len() && (#[trigger] s[i]).changed() {
            let i = choose|i: int| 0 <= i < s.len() && (#[trigger] s[i]).changed();
            if i < t.len() {
                assert(t[i] == s[i]);
            }
        }
    }
}

/// The entries `s` hold differences exactly when one of them records a change.
pub proof fn lemma_table_differences(s: Seq<TableComparison>)
    ensures
        (table_differences(s) > 0) == (exists|i: int| 0 <= i < s.len() && (#[trigger] s[i]).changed()),
    decreases s.len(),
{
    if s.len() > 0 {
        let t = s.drop_last();
        lemma_table_differences(t);
        if let TableComparison::TableMaintained {
            properties,
            columns,
            indices,
            privileges,
            constraints,
            triggers,
            ..
        } = s.last() {
                lemma_property_differences(properties.entries@);
                lemma_column_differences(columns.entries@);
                lemma_index_differences(indices.entries@);
                lemma_privilege_differences(privileges.entries@);
                lemma_constraint_differences(constraints.entries@);
                lemma_trigger_differences(triggers.entries@);
        }
        if exists|i: int| 0 <= i < t.len() && (#[trigger] t[i]).changed() {
            let i = choose|i: int| 0 <= i < t.len() && (#[trigger] t[i]).changed();
            assert(s[i] == t[i]);
        }
        if exists|i: int| 0 <= i < s.len() && (#[trigger] s[i]).changed() {
            let i = choose|i: int| 0 <= i < s.len() && (#[trigger] s[i]).changed();
            if i < t.len() {
                assert(t[i] == s[i]);
            }
        }
    }
}

/// The entries `s` hold differences exactly when one of them records a change.
pub proof fn lemma_view_differences(s: Seq<ViewComparison>)
    ensures
        (view_differences(s) > 0) == (exists|i: int| 0 <= i < s.len() && (#[trigger] s[i]).changed()),
    decreases s.len(),
{
    if s.len() > 0 {
        let t = s.drop_last();
        lemma_view_differences(t);
        if let ViewComparison::ViewMaintained { properties, .. } = s.last() {
                lemma_property_differences(properties.entries@);
        }
        if exists|i: int| 0 <= i < t.len() && (#[trigger] t[i]).changed() {
            let i = choose|i: int| 0 <= i < t.len() && (#[trigger] t[i]).changed();
            assert(s[i] == t[i]);
        }
        if exists|i: int| 0 <= i < s.len() && (#[trigger] s[i]).changed() {
            let i = choose|i: int| 0 <= i < s.len() && (#[trigger] s[i]).changed();
            if i < t.len() {
                assert(t[i] == s[i]);
            }
        }
    }
}

/// The differences counted in `out` fit a `usize`.
fn room(out: &Vec<Line>)
    ensures
        count_of(out@) <= usize::MAX,
{
    let _ = out.len();
    proof {
        lemma_count_bound(out@);
    }
}

/// Renders reports as lines and counts their differences.
pub struct CLI {
    pub args: Args,
}

impl CLI {
    /// Renders a property report at `depth`; returns the number of changed properties,
    /// which is positive exactly when the report holds a change.
    pub fn render_property_report(
        &self,
        report: &Report<PropertyComparison>,
        depth: usize,
        out: &mut Vec<Line>,
    ) -> (differences: usize)
        ensures
            count_of(final(out)@) == count_of(old(out)@) + differences,
            differences == property_differences(report.entries@),
            (differences > 0) == report.changed(),
            !self.args.verbose && quiet(old(out)@) ==> quiet(final(out)@),
    {
        let mut differences: usize = 0;
        let mut i: usize = 0;
        while i < report.entries.len()
            invariant
                0 <= i <= report.entries@.len(),
                count_of(out@) == count_of(old(out)@) + differences,
                differences == property_differences(report.entries@.take(i as int)),
                (differences > 0) == (exists|k: int|
                    0 <= k < i && (#[trigger] report.entries@[k]).changed()),
                !self.args.verbose && quiet(old(out)@) ==> quiet(out@),
            decreases report.entries@.len() - i,
        {
            let ghost before = count_of(out@);
            let n: usize;
            match &report.entries[i] {
                PropertyComparison::PropertyChanged { property_name, left_value, right_value } => {
                    n = emit(out, Line {
                        depth,
                        mark: Mark::Changed,
                        subject: Subject::Property {
                            name: property_name.clone(),
                            left: left_value.clone(),
                            right: right_value.clone(),
                        },
                    });
                },
                PropertyComparison::PropertyUnchanged { property_name, value } => {
                    n = 0;
                    if self.args.verbose {
                        let m = emit(out, Line {
                            depth,
                            mark: Mark::Unchanged,
                            subject: Subject::Property {
                                name: property_name.clone(),
                                left: value.clone(),
                                right: value.clone(),
                            },
                        });
                        assert(m == 0);
                    }
                },
            }
            proof {
                lemma_count_bound(out@);
                assert(report.entries@.take(i + 1).drop_last() =~= report.entries@.take(i as int));
                assert(report.entries@.take(i + 1).last() == report.entries@[i as int]);
                if differences + n > 0 {
                    if differences > 0 {
                        let k = choose|k: int| 0 <= k < i
                            && (#[trigger] report.entries@[k]).changed();
                        assert(0 <= k < i + 1 && report.entries@[k].changed());
                    } else {
                        assert(report.entries@[i as int].changed());
                    }
                }
            }
            room(out);
            differences = differences + n;
            i = i + 1;
        }
        assert(report.entries@.take(report.entries@.len() as int) =~= report.entries@);
        differences
    }

    /// Renders a privilege report at `depth`; returns the number of grants added or
    /// removed, which is positive exactly when the report holds a change.
    pub fn render_privilege_report(
        &self,
        report: &Report<PrivilegeComparison>,
        depth: usize,
        out: &mut Vec<Line>,
    ) -> (differences: usize)
        ensures
            count_of(final(out)@) == count_of(old(out)@) + differences,
            differences == privilege_differences(report.entries@),
            (differences > 0) == report.changed(),
            !self.args.verbose && quiet(old(out)@) ==> quiet(final(out)@),
    {
        let mut differences: usize = 0;
        let mut i: usize = 0;
        while i < report.entries.len()
            invariant
                0 <= i <= report.entries@.len(),
                count_of(out@) == count_of(old(out)@) + differences,
                differences == privilege_differences(report.entries@.take(i as int)),
                (differences > 0) == (exists|k: int|
                    0 <= k < i && (#[trigger] report.entries@[k]).changed()),
                !self.args.verbose && quiet(old(out)@) ==> quiet(out@),
            decreases report.entries@.len() - i,
        {
            let n: usize;
            match &report.entries[i] {
                PrivilegeComparison::PrivilegeAdded { privilege_name, grantor, grantee } => {
                    n = emit(out, Line {
                        depth,
                        mark: Mark::Added,
                        subject: Subject::Privilege {
                            name: privilege_name.clone(),
                            grantor: grantor.clone(),
                            grantee: grantee.clone(),
                        },
                    });
                },
                PrivilegeComparison::PrivilegeRemoved { privilege_name, grantor, grantee } => {
                    n = emit(out, Line {
                        depth,
                        mark: Mark::Removed,
                        subject: Subject::Privilege {
                            name: privilege_name.clone(),
                            grantor: grantor.clone(),
                            grantee: grantee.clone(),
                        },
                    });
                },
                PrivilegeComparison::PrivilegeMaintained { privilege_name, grantor, grantee } => {
                    n = 0;
                    if self.args.verbose {
                        let m = emit(out, Line {
                            depth,
                            mark: Mark::Unchanged,
                            subject: Subject::Privilege {
                                name: privilege_name.clone(),
                                grantor: grantor.clone(),
                                grantee: grantee.clone(),
                            },
                        });
                        assert(m == 0);
                    }
                },
            }
            proof {
                lemma_count_bound(out@);
                assert(report.entries@.take(i + 1).drop_last() =~= report.entries@.take(i as int));
                assert(report.entries@.take(i + 1).last() == report.entries@[i as int]);
                if differences + n > 0 {
                    if differences > 0 {
                        let k = choose|k: int| 0 <= k < i
                            && (#[trigger] report.entries@[k]).changed();
                        assert(0 <= k < i + 1 && report.entries@[k].changed());
                    } else {
                        assert(report.entries@[i as int].changed());
                    }
                }
            }
            room(out);
            differences = differences + n;
            i = i + 1;
        }
        assert(report.entries@.take(report.entries@.len() as int) =~= report.entries@);
        differences
    }

    /// Renders a routine report.
    ///
    /// Returns the number of differences, which is positive exactly when the report holds
    /// a change. Unchanged items show only when verbose.
    pub fn render_routine_report(
        &self,
        report: &Report<RoutineComparison>,
        out: &mut Vec<Line>,
    ) -> (differences: usize)
        ensures
            count_of(final(out)@) == count_of(old(out)@) + differences,
            differences == routine_differences(report.entries@),
            (differences > 0) == report.changed(),
            !self.args.verbose && quiet(old(out)@) ==> quiet(final(out)@),
    {
        let mut differences: usize = 0;
        let mut i: usize = 0;
        while i < report.entries.len()
            invariant
                0 <= i <= report.entries@.len(),
                count_of(out@) == count_of(old(out)@) + differences,
                differences == routine_differences(report.entries@.take(i as int)),
                (differences > 0) == (exists|k: int|
                    0 <= k < i && (#[trigger] report.entries@[k]).changed()),
                !self.args.verbose && quiet(old(out)@) ==> quiet(out@),
            decreases report.entries@.len() - i,
        {
            let entry = &report.entries[i];
            let ghost before = count_of(out@);
            let mut n: usize = 0;
            match entry {
                RoutineComparison::RoutineAdded { routine_signature } => {
                    n = emit(
                        out,
                        Line { depth: 1, mark: Mark::Added, subject: Subject::Routine { signature: routine_signature.clone() } },
                    );
                },
                RoutineComparison::RoutineRemoved { routine_signature } => {
                    n = emit(
                        out,
                        Line { depth: 1, mark: Mark::Removed, subject: Subject::Routine { signature: routine_signature.clone() } },
                    );
                },
                RoutineComparison::RoutineMaintained {
                    routine_signature,
                    properties,
                    privileges,
                } => {
                    let changed = entry.has_changes();
                    if changed || self.args.verbose {
                        let mark = if changed { Mark::Heading } else { Mark::Unchanged };
                        let m = emit(
                            out,
                            Line { depth: 1, mark, subject: Subject::Routine { signature: routine_signature.clone() } },
                        );
                        assert(m == 0);
                        let d = self.render_property_report(properties, 2, out);
                        room(out);
                        n = n + d;
                        let d = self.render_privilege_report(privileges, 2, out);
                        room(out);
                        n = n + d;
                    } else {
                        proof {
                            lemma_property_differences(properties.entries@);
                            lemma_privilege_differences(privileges.entries@);
                        }
                    }
                },
            }
            proof {
                lemma_count_bound(out@);
                assert(report.entries@.take(i + 1).drop_last() =~= report.entries@.take(i as int));
                assert(report.entries@.take(i + 1).last() == report.entries@[i as int]);
                assert(count_of(out@) == before + n);
                assert(n > 0 <==> report.entries@[i as int].changed());
                if differences + n > 0 {
                    if differences > 0 {
                        let k = choose|k: int| 0 <= k < i
                            && (#[trigger] report.entries@[k]).changed();
                        assert(0 <= k < i + 1 && report.entries@[k].changed());
                    } else {
                        assert(report.entries@[i as int].changed());
                    }
                }
            }
            room(out);
            differences = differences + n;
            i = i + 1;
        }
        assert(report.entries@.take(report.entries@.len() as int) =~= report.entries@);
        differences
    }

    /// Renders a sequence report.
    ///
    /// Returns the number of differences, which is positive exactly when the report holds
    /// a change. Unchanged items show only when verbose.
    pub fn render_sequence_report(
        &self,
        report: &Report<SequenceComparison>,
        out: &mut Vec<Line>,
    ) -> (differences: usize)
        ensures
            count_of(final(out)@) == count_of(old(out)@) + differences,
            differences == sequence_differences(report.entries@),
            (differences > 0) == report.changed(),
            !self.args.verbose && quiet(old(out)@) ==> quiet(final(out)@),
    {
        let mut differences: usize = 0;
        let mut i: usize = 0;
        while i < report.entries.len()
            invariant
                0 <= i <= report.entries@.len(),
                count_of(out@) == count_of(old(out)@) + differences,
                differences == sequence_differences(report.entries@.take(i as int)),
                (differences > 0) == (exists|k: int|
                    0 <= k < i && (#[trigger] report.entries@[k]).changed()),
                !self.args.verbose && quiet(old(out)@) ==> quiet(out@),
            decreases report.entries@.len() - i,
        {
            let entry = &report.entries[i];
            let ghost before = count_of(out@);
            let mut n: usize = 0;
            match entry {
                SequenceComparison::SequenceAdded { sequence_name } => {
                    n = emit(
                        out,
                        Line { depth: 1, mark: Mark::Added, subject: Subject::Sequence { name: sequence_name.clone() } },
                    );
                },
                SequenceComparison::SequenceRemoved { sequence_name } => {
                    n = emit(
                        out,
                        Line { depth: 1, mark: Mark::Removed, subject: Subject::Sequence { name: sequence_name.clone() } },
                    );
                },
                SequenceComparison::SequenceMaintained { sequence_name, properties } => {
                    let changed = entry.has_changes();
                    if changed || self.args.verbose {
                        let mark = if changed { Mark::Heading } else { Mark::Unchanged };
                        let m = emit(
                            out,
                            Line { depth: 1, mark, subject: Subject::Sequence { name: sequence_name.clone() } },
                        );
                        assert(m == 0);
                        let d = self.render_property_report(properties, 2, out);
                        room(out);
                        n = n + d;
                    } else {
                        proof {
                            lemma_property_differences(properties.entries@);
                        }
                    }
                },
            }
            proof {
                lemma_count_bound(out@);
                assert(report.entries@.take(i + 1).drop_last() =~= report.entries@.take(i as int));
                assert(report.entries@.take(i + 1).last() == report.entries@[i as int]);
                assert(count_of(out@) == before + n);
                assert(n > 0 <==> report.entries@[i as int].changed());
                if differences + n > 0 {
                    if differences > 0 {
                        let k = choose|k: int| 0 <= k < i
                            && (#[trigger] report.entries@[k]).changed();
                        assert(0 <= k < i + 1 && report.entries@[k].changed());
                    } else {
                        assert(report.entries@[i as int].changed());
                    }
                }
            }
            room(out);
            differences = differences + n;
            i = i + 1;
        }
        assert(report.entries@.take(report.entries@.len() as int) =~= report.entries@);
        differences
    }

    /// Renders the column report of a table.
    ///
    /// Returns the number of differences, which is positive exactly when the report holds
    /// a change. Unchanged items show only when verbose.
    pub fn render_table_column_report(
        &self,
        report: &Report<TableColumnComparison>,
        out: &mut Vec<Line>,
    ) -> (differences: usize)
        ensures
            count_of(final(out)@) == count_of(old(out)@) + differences,
            differences == column_differences(report.entries@),
            (differences > 0) == report.changed(),
            !self.args.verbose && quiet(old(out)@) ==> quiet(final(out)@),
    {
        let mut differences: usize = 0;
        let mut i: usize = 0;
        while i < report.entries.len()
            invariant
                0 <= i <= report.entries@.len(),
                count_of(out@) == count_of(old(out)@) + differences,
                differences == column_differences(report.entries@.take(i as int)),
                (differences > 0) == (exists|k: int|
                    0 <= k < i && (#[trigger] report.entries@[k]).changed()),
                !self.args.verbose && quiet(old(out)@) ==> quiet(out@),
            decreases report.entries@.len() - i,
        {
            let entry = &report.entries[i];
            let ghost before = count_of(out@);
            let mut n: usize = 0;
            match entry {
                TableColumnComparison::ColumnAdded { column_name } => {
                    n = emit(
                        out,
                        Line { depth: 2, mark: Mark::Added, subject: Subject::Column { name: column_name.clone() } },
                    );
                },
                TableColumnComparison::ColumnRemoved { column_name } => {
                    n = emit(
                        out,
                        Line { depth: 2, mark: Mark::Removed, subject: Subject::Column { name: column_name.clone() } },
                    );
                },
                TableColumnComparison::ColumnMaintained { column_name, properties, privileges } => {
                    let changed = entry.has_changes();
                    if changed || self.args.verbose {
                        let mark = if changed { Mark::Heading } else { Mark::Unchanged };
                        let m = emit(
                            out,
                            Line { depth: 2, mark, subject: Subject::Column { name: column_name.clone() } },
                        );
                        assert(m == 0);
                        let d = self.render_property_report(properties, 3, out);
                        room(out);
                        n = n + d;
                        let d = self.render_privilege_report(privileges, 3, out);
                        room(out);
                        n = n + d;
                    } else {
                        proof {
                            lemma_property_differences(properties.entries@);
                            lemma_privilege_differences(privileges.entries@);
                        }
                    }
                },
            }
            proof {
                lemma_count_bound(out@);
                assert(report.entries@.take(i + 1).drop_last() =~= report.entries@.take(i as int));
                assert(report.entries@.take(i + 1).last() == report.entries@[i as int]);
                assert(count_of(out@) == before + n);
                assert(n > 0 <==> report.entries@[i as int].changed());
                if differences + n > 0 {
                    if differences > 0 {
                        let k = choose|k: int| 0 <= k < i
                            && (#[trigger] report.entries@[k]).changed();
                        assert(0 <= k < i + 1 && report.entries@[k].changed());
                    } else {
                        assert(report.entries@[i as int].changed());
                    }
                }
            }
            room(out);
            differences = differences + n;
            i = i + 1;
        }
        assert(report.entries@.take(report.entries@.len() as int) =~= report.entries@);
        differences
    }

    /// Renders the index report of a table.
    ///
    /// Returns the number of differences, which is positive exactly when the report holds
    /// a change. Unchanged items show only when verbose.
    pub fn render_index_report(
        &self,
        report: &Report<IndexComparison>,
        out: &mut Vec<Line>,
    ) -> (differences: usize)
        ensures
            count_of(final(out)@) == count_of(old(out)@) + differences,
            differences == index_differences(report.entries@),
            (differences > 0) == report.changed(),
            !self.args.verbose && quiet(old(out)@) ==> quiet(final(out)@),
    {
        let mut differences: usize = 0;
        let mut i: usize = 0;
        while i < report.entries.len()
            invariant
                0 <= i <= report.entries@.len(),
                count_of(out@) == count_of(old(out)@) + differences,
                differences == index_differences(report.entries@.take(i as int)),
                (differences > 0) == (exists|k: int|
                    0 <= k < i && (#[trigger] report.entries@[k]).changed()),
                !self.args.verbose && quiet(old(out)@) ==> quiet(out@),
            decreases report.entries@.len() - i,
        {
            let entry = &report.entries[i];
            let ghost before = count_of(out@);
            let mut n: usize = 0;
            match entry {
                IndexComparison::IndexAdded { index_name } => {
                    n = emit(
                        out,
                        Line { depth: 2, mark: Mark::Added, subject: Subject::Index { name: index_name.clone() } },
                    );
                },
                IndexComparison::IndexRemoved { index_name } => {
                    n = emit(
                        out,
                        Line { depth: 2, mark: Mark::Removed, subject: Subject::Index { name: index_name.clone() } },
                    );
                },
                IndexComparison::IndexMaintained { index_name, properties } => {
                    let changed = entry.has_changes();
                    if changed || self.args.verbose {
                        let mark = if changed { Mark::Heading } else { Mark::Unchanged };
                        let m = emit(
                            out,
                            Line { depth: 2, mark, subject: Subject::Index { name: index_name.clone() } },
                        );
                        assert(m == 0);
                        let d = self.render_property_report(properties, 3, out);
                        room(out);
                        n = n + d;
                    } else {
                        proof {
                            lemma_property_differences(properties.entries@);
                        }
                    }
                },
            }
            proof {
                lemma_count_bound(out@);
                assert(report.entries@.take(i + 1).drop_last() =~= report.entries@.take(i as int));
                assert(report.entries@.take(i + 1).last() == report.entries@[i as int]);
                assert(count_of(out@) == before + n);
                assert(n > 0 <==> report.entries@[i as int].changed());
                if differences + n > 0 {
                    if differences > 0 {
                        let k = choose|k: int| 0 <= k < i
                            && (#[trigger] report.entries@[k]).changed();
                        assert(0 <= k < i + 1 && report.entries@[k].changed());
                    } else {
                        assert(report.entries@[i as int].changed());
                    }
                }
            }
            room(out);
            differences = differences + n;
            i = i + 1;
        }
        assert(report.entries@.take(report.entries@.len() as int) =~= report.entries@);
        differences
    }

    /// Renders the constraint report of a table.
    ///
    /// Returns the number of differences, which is positive exactly when the report holds
    /// a change. Unchanged items show only when verbose.
    pub fn render_table_constraint_report(
        &self,
        report: &Report<TableConstraintComparison>,
        out: &mut Vec<Line>,
    ) -> (differences: usize)
        ensures
            count_of(final(out)@) == count_of(old(out)@) + differences,
            differences == constraint_differences(report.entries@),
            (differences > 0) == report.changed(),
            !self.args.verbose && quiet(old(out)@) ==> quiet(final(out)@),
    {
        let mut differences: usize = 0;
        let mut i: usize = 0;
        while i < report.entries.len()
            invariant
                0 <= i <= report.entries@.len(),
                count_of(out@) == count_of(old(out)@) + differences,
                differences == constraint_differences(report.entries@.take(i as int)),
                (differences > 0) == (exists|k: int|
                    0 <= k < i && (#[trigger] report.entries@[k]).changed()),
                !self.args.verbose && quiet(old(out)@) ==> quiet(out@),
            decreases report.entries@.len() - i,
        {
            let entry = &report.entries[i];
            let ghost before = count_of(out@);
            let mut n: usize = 0;
            match entry {
                TableConstraintComparison::ConstraintAdded { constraint_name } => {
                    n = emit(
                        out,
                        Line { depth: 2, mark: Mark::Added, subject: Subject::Constraint { name: constraint_name.clone() } },
                    );
                },
                TableConstraintComparison::ConstraintRemoved { constraint_name } => {
                    n = emit(
                        out,
                        Line { depth: 2, mark: Mark::Removed, subject: Subject::Constraint { name: constraint_name.clone() } },
                    );
                },
                TableConstraintComparison::ConstraintMaintained { constraint_name, properties } => {
                    let changed = entry.has_changes();
                    if changed || self.args.verbose {
                        let mark = if changed { Mark::Heading } else { Mark::Unchanged };
                        let m = emit(
                            out,
                            Line { depth: 2, mark, subject: Subject::Constraint { name: constraint_name.clone() } },
                        );
                        assert(m == 0);
                        let d = self.render_property_report(properties, 3, out);
                        room(out);
                        n = n + d;
                    } else {
                        proof {
                            lemma_property_differences(properties.entries@);
                        }
                    }
                },
            }
            proof {
                lemma_count_bound(out@);
                assert(report.entries@.take(i + 1).drop_last() =~= report.entries@.take(i as int));
                assert(report.entries@.take(i + 1).last() == report.entries@[i as int]);
                assert(count_of(out@) == before + n);
                assert(n > 0 <==> report.entries@[i as int].changed());
                if differences + n > 0 {
                    if differences > 0 {
                        let k = choose|k: int| 0 <= k < i
                            && (#[trigger] report.entries@[k]).changed();
                        assert(0 <= k < i + 1 && report.entries@[k].changed());
                    } else {
                        assert(report.entries@[i as int].changed());
                    }
                }
            }
            room(out);
            differences = differences + n;
            i = i + 1;
        }
        assert(report.entries@.take(report.entries@.len() as int) =~= report.entries@);
        differences
    }

    /// Renders the trigger report of a table.
    ///
    /// Returns the number of differences, which is positive exactly when the report holds
    /// a change. Unchanged items show only when verbose.
    pub fn render_table_trigger_report(
        &self,
        report: &Report<TableTriggerComparison>,
        out: &mut Vec<Line>,
    ) -> (differences: usize)
        ensures
            count_of(final(out)@) == count_of(old(out)@) + differences,
            differences == trigger_differences(report.entries@),
            (differences > 0) == report.changed(),
            !self.args.verbose && quiet(old(out)@) ==> quiet(final(out)@),
    {
        let mut differences: usize = 0;
        let mut i: usize = 0;
        while i < report.entries.len()
            invariant
                0 <= i <= report.entries@.len(),
                count_of(out@) == count_of(old(out)@) + differences,
                differences == trigger_differences(report.entries@.take(i as int)),
                (differences > 0) == (exists|k: int|
                    0 <= k < i && (#[trigger] report.entries@[k]).changed()),
                !self.args.verbose && quiet(old(out)@) ==> quiet(out@),
            decreases report.entries@.len() - i,
        {
            let entry = &report.entries[i];
            let ghost before = count_of(out@);
            let mut n: usize = 0;
            match entry {
                TableTriggerComparison::TriggerAdded { trigger_name, event_manipulation } => {
                    n = emit(
                        out,
                        Line { depth: 2, mark: Mark::Added, subject: Subject::Trigger { name: trigger_name.clone(), event: event_manipulation.clone() } },
                    );
                },
                TableTriggerComparison::TriggerRemoved { trigger_name, event_manipulation } => {
                    n = emit(
                        out,
                        Line { depth: 2, mark: Mark::Removed, subject: Subject::Trigger { name: trigger_name.clone(), event: event_manipulation.clone() } },
                    );
                },
                TableTriggerComparison::TriggerMaintained {
                    trigger_name,
                    event_manipulation,
                    properties,
                } => {
                    let changed = entry.has_changes();
                    if changed || self.args.verbose {
                        let mark = if changed { Mark::Heading } else { Mark::Unchanged };
                        let m = emit(
                            out,
                            Line { depth: 2, mark, subject: Subject::Trigger { name: trigger_name.clone(), event: event_manipulation.clone() } },
                        );
                        assert(m == 0);
                        let d = self.render_property_report(properties, 3, out);
                        room(out);
                        n = n + d;
                    } else {
                        proof {
                            lemma_property_differences(properties.entries@);
                        }
                    }
                },
            }
            proof {
                lemma_count_bound(out@);
                assert(report.entries@.take(i + 1).drop_last() =~= report.entries@.take(i as int));
                assert(report.entries@.take(i + 1).last() == report.entries@[i as int]);
                assert(count_of(out@) == before + n);
                assert(n > 0 <==> report.entries@[i as int].changed());
                if differences + n > 0 {
                    if differences > 0 {
                        let k = choose|k: int| 0 <= k < i
                            && (#[trigger] report.entries@[k]).changed();
                        assert(0 <= k < i + 1 && report.entries@[k].changed());
                    } else {
                        assert(report.entries@[i as int].changed());
                    }
                }
            }
            room(out);
            differences = differences + n;
            i = i + 1;
        }
        assert(report.entries@.take(report.entries@.len() as int) =~= report.entries@);
        differences
    }

    /// Renders a table report.
    ///
    /// Returns the number of differences, which is positive exactly when the report holds
    /// a change. Unchanged items show only when verbose.
    pub fn render_table_report(
        &self,
        report: &Report<TableComparison>,
        out: &mut Vec<Line>,
    ) -> (differences: usize)
        ensures
            count_of(final(out)@) == count_of(old(out)@) + differences,
            differences == table_differences(report.entries@),
            (differences > 0) == report.changed(),
            !self.args.verbose && quiet(old(out)@) ==> quiet(final(out)@),
    {
        let mut differences: usize = 0;
        let mut i: usize = 0;
        while i < report.entries.len()
            invariant
                0 <= i <= report.entries@.len(),
                count_of(out@) == count_of(old(out)@) + differences,
                differences == table_differences(report.entries@.take(i as int)),
                (differences > 0) == (exists|k: int|
                    0 <= k < i && (#[trigger] report.entries@[k]).changed()),
                !self.args.verbose && quiet(old(out)@) ==> quiet(out@),
            decreases report.entries@.len() - i,
        {
            let entry = &report.entries[i];
            let ghost before = count_of(out@);
            let mut n: usize = 0;
            match entry {
                TableComparison::TableAdded { table_name } => {
                    n = emit(
                        out,
                        Line { depth: 1, mark: Mark::Added, subject: Subject::Table { name: table_name.clone() } },
                    );
                },
                TableComparison::TableRemoved { table_name } => {
                    n = emit(
                        out,
                        Line { depth: 1, mark: Mark::Removed, subject: Subject::Table { name: table_name.clone() } },
                    );
                },
                TableComparison::TableMaintained {
                    table_name,
                    properties,
                    columns,
                    indices,
                    privileges,
                    constraints,
                    triggers,
                } => {
                    let changed = entry.has_changes();
                    if changed || self.args.verbose {
                        let mark = if changed { Mark::Heading } else { Mark::Unchanged };
                        let m = emit(
                            out,
                            Line { depth: 1, mark, subject: Subject::Table { name: table_name.clone() } },
                        );
                        assert(m == 0);
                        let d = self.render_property_report(properties, 2, out);
                        room(out);
                        n = n + d;
                        let d = self.render_table_column_report(columns, out);
                        room(out);
                        n = n + d;
                        let d = self.render_index_report(indices, out);
                        room(out);
                        n = n + d;
                        let d = self.render_privilege_report(privileges, 2, out);
                        room(out);
                        n = n + d;
                        let d = self.render_table_constraint_report(constraints, out);
                        room(out);
                        n = n + d;
                        let d = self.render_table_trigger_report(triggers, out);
                        room(out);
                        n = n + d;
                    } else {
                        proof {
                            lemma_property_differences(properties.entries@);
                            lemma_column_differences(columns.entries@);
                            lemma_index_differences(indices.entries@);
                            lemma_privilege_differences(privileges.entries@);
                            lemma_constraint_differences(constraints.entries@);
                            lemma_trigger_differences(triggers.entries@);
                        }
                    }
                },
            }
            proof {
                lemma_count_bound(out@);
                assert(report.entries@.take(i + 1).drop_last() =~= report.entries@.take(i as int));
                assert(report.entries@.take(i + 1).last() == report.entries@[i as int]);
                assert(count_of(out@) == before + n);
                assert(n > 0 <==> report.entries@[i as int].changed());
                if differences + n > 0 {
                    if differences > 0 {
                        let k = choose|k: int| 0 <= k < i
                            && (#[trigger] report.entries@[k]).changed();
                        assert(0 <= k < i + 1 && report.entries@[k].changed());
                    } else {
                        assert(report.entries@[i as int].changed());
                    }
                }
            }
            room(out);
            differences = differences + n;
            i = i + 1;
        }
        assert(report.entries@.take(report.entries@.len() as int) =~= report.entries@);
        differences
    }

    /// Renders a view report.
    ///
    /// Returns the number of differences, which is positive exactly when the report holds
    /// a change. Unchanged items show only when verbose.
    pub fn render_view_report(
        &self,
        report: &Report<ViewComparison>,
        out: &mut Vec<Line>,
    ) -> (differences: usize)
        ensures
            count_of(final(out)@) == count_of(old(out)@) + differences,
            differences == view_differences(report.entries@),
            (differences > 0) == report.changed(),
            !self.args.verbose && quiet(old(out)@) ==> quiet(final(out)@),
    {
        let mut differences: usize = 0;
        let mut i: usize = 0;
        while i < report.entries.len()
            invariant
                0 <= i <= report.entries@.len(),
                count_of(out@) == count_of(old(out)@) + differences,
                differences == view_differences(report.entries@.take(i as int)),
                (differences > 0) == (exists|k: int|
                    0 <= k < i && (#[trigger] report.entries@[k]).changed()),
                !self.args.verbose && quiet(old(out)@) ==> quiet(out@),
            decreases report.entries@.len() - i,
        {
            let entry = &report.entries[i];
            let ghost before = count_of(out@);
            let mut n: usize = 0;
            match entry {
                ViewComparison::ViewMaintained { view_name, properties } => {
                    let changed = entry.has_changes();
                    if changed || self.args.verbose {
                        let mark = if changed { Mark::Heading } else { Mark::Unchanged };
                        let m = emit(
                            out,
                            Line { depth: 1, mark, subject: Subject::View { name: view_name.clone() } },
                        );
                        assert(m == 0);
                        let d = self.render_property_report(properties, 2, out);
                        room(out);
                        n = n + d;
                    } else {
                        proof {
                            lemma_property_differences(properties.entries@);
                        }
                    }
                },
            }
            proof {
                lemma_count_bound(out@);
                assert(report.entries@.take(i + 1).drop_last() =~= report.entries@.take(i as int));
                assert(report.entries@.take(i + 1).last() == report.entries@[i as int]);
                assert(count_of(out@) == before + n);
                assert(n > 0 <==> report.entries@[i as int].changed());
                if differences + n > 0 {
                    if differences > 0 {
                        let k = choose|k: int| 0 <= k < i
                            && (#[trigger] report.entries@[k]).changed();
                        assert(0 <= k < i + 1 && report.entries@[k].changed());
                    } else {
                        assert(report.entries@[i as int].changed());
                    }
                }
            }
            room(out);
            differences = differences + n;
            i = i + 1;
        }
        assert(report.entries@.take(report.entries@.len() as int) =~= report.entries@);
        differences
    }

    /// Renders the report of the compared schemas.
    ///
    /// Returns the number of differences, which is positive exactly when the report holds
    /// a change. Unchanged items show only when verbose.
    pub fn render_schema_report(
        &self,
        report: &Report<SchemaComparison>,
        out: &mut Vec<Line>,
    ) -> (differences: usize)
        ensures
            count_of(final(out)@) == count_of(old(out)@) + differences,
            differences == schema_differences(report.entries@),
            (differences > 0) == report.changed(),
            !self.args.verbose && quiet(old(out)@) ==> quiet(final(out)@),
    {
        let mut differences: usize = 0;
        let mut i: usize = 0;
        while i < report.entries.len()
            invariant
                0 <= i <= report.entries@.len(),
                count_of(out@) == count_of(old(out)@) + differences,
                differences == schema_differences(report.entries@.take(i as int)),
                (differences > 0) == (exists|k: int|
                    0 <= k < i && (#[trigger] report.entries@[k]).changed()),
                !self.args.verbose && quiet(old(out)@) ==> quiet(out@),
            decreases report.entries@.len() - i,
        {
            let entry = &report.entries[i];
            let ghost before = count_of(out@);
            let mut n: usize = 0;
            match entry {
                SchemaComparison::SchemaMissing { schema_name } => {
                    n = emit(
                        out,
                        Line { depth: 0, mark: Mark::Missing, subject: Subject::Schema { name: schema_name.clone() } },
                    );
                },
                SchemaComparison::SchemaAdded { schema_name } => {
                    n = emit(
                        out,
                        Line { depth: 0, mark: Mark::Added, subject: Subject::Schema { name: schema_name.clone() } },
                    );
                },
                SchemaComparison::SchemaRemoved { schema_name } => {
                    n = emit(
                        out,
                        Line { depth: 0, mark: Mark::Removed, subject: Subject::Schema { name: schema_name.clone() } },
                    );
                },
                SchemaComparison::SchemaMaintained {
                    schema_name,
                    properties,
                    routines,
                    sequences,
                    tables,
                    views,
                } => {
                    let changed = entry.has_changes();
                    if changed || self.args.verbose {
                        let mark = if changed { Mark::Heading } else { Mark::Unchanged };
                        let m = emit(
                            out,
                            Line { depth: 0, mark, subject: Subject::Schema { name: schema_name.clone() } },
                        );
                        assert(m == 0);
                        let d = self.render_property_report(properties, 1, out);
                        room(out);
                        n = n + d;
                        let d = self.render_routine_report(routines, out);
                        room(out);
                        n = n + d;
                        let d = self.render_sequence_report(sequences, out);
                        room(out);
                        n = n + d;
                        let d = self.render_table_report(tables, out);
                        room(out);
                        n = n + d;
                        let d = self.render_view_report(views, out);
                        room(out);
                        n = n + d;
                    } else {
                        proof {
                            lemma_property_differences(properties.entries@);
                            lemma_routine_differences(routines.entries@);
                            lemma_sequence_differences(sequences.entries@);
                            lemma_table_differences(tables.entries@);
                            lemma_view_differences(views.entries@);
                        }
                    }
                },
            }
            proof {
                lemma_count_bound(out@);
                assert(report.entries@.take(i + 1).drop_last() =~= report.entries@.take(i as int));
                assert(report.entries@.take(i + 1).last() == report.entries@[i as int]);
                assert(count_of(out@) == before + n);
                assert(n > 0 <==> report.entries@[i as int].changed());
                if differences + n > 0 {
                    if differences > 0 {
                        let k = choose|k: int| 0 <= k < i
                            && (#[trigger] report.entries@[k]).changed();
                        assert(0 <= k < i + 1 && report.entries@[k].changed());
                    } else {
                        assert(report.entries@[i as int].changed());
                    }
                }
            }
            room(out);
            differences = differences + n;
            i = i + 1;
        }
        assert(report.entries@.take(report.entries@.len() as int) =~= report.entries@);
        differences
    }
}

} // verus!
