use vstd::prelude::*;

verus! {

/// A comparison result that can tell whether it records a difference.
pub trait HasChanges {
    /// Whether this result records a difference, at its own level or below.
    spec fn changed(&self) -> bool;

    fn has_changes(&self) -> (r: bool)
        ensures
            r == self.changed(),
    ;
}

/// An ordered sequence of comparison results of one kind.
pub struct Report<T: HasChanges> {
    pub entries: Vec<T>,
}

impl<T: HasChanges> Report<T> {
    /// A report records a difference when one of its entries does.
    pub open spec fn changed(&self) -> bool {
        exists|i: int| 0 <= i < self.entries@.len() && (#[trigger] self.entries@[i]).changed()
    }

    pub fn has_changes(&self) -> (r: bool)
        ensures
            r == self.changed(),
    {
        let mut i: usize = 0;
        while i < self.entries.len()
            invariant
                0 <= i <= self.entries@.len(),
                forall|k: int| 0 <= k < i ==> !(#[trigger] self.entries@[k]).changed(),
            decreases self.entries@.len() - i,
        {
            if self.entries[i].has_changes() {
                return true;
            }
            i = i + 1;
        }
        false
    }
}

/// What a property comparison states, as mathematical text.
pub enum PropertyOutcome {
    Changed { name: Seq<char>, left: Seq<char>, right: Seq<char> },
    Unchanged { name: Seq<char>, value: Seq<char> },
}

/// The outcome of comparing one property whose values render as `left` and `right`:
/// unchanged at the left value when `same`, else changed from one to the other.
pub open spec fn outcome(
    name: Seq<char>,
    same: bool,
    left: Seq<char>,
    right: Seq<char>,
) -> PropertyOutcome {
    if same {
        PropertyOutcome::Unchanged { name, value: left }
    } else {
        PropertyOutcome::Changed { name, left, right }
    }
}

pub enum PropertyComparison {
    PropertyChanged { property_name: String, left_value: String, right_value: String },
    PropertyUnchanged { property_name: String, value: String },
}

impl View for PropertyComparison {
    type V = PropertyOutcome;

    open spec fn view(&self) -> PropertyOutcome {
        match self {
            PropertyComparison::PropertyChanged { property_name, left_value, right_value } => {
                PropertyOutcome::Changed {
                    name: property_name@,
                    left: left_value@,
                    right: right_value@,
                }
            },
            PropertyComparison::PropertyUnchanged { property_name, value } => {
                PropertyOutcome::Unchanged { name: property_name@, value: value@ }
            },
        }
    }
}

impl HasChanges for PropertyComparison {
    open spec fn changed(&self) -> bool {
        self is PropertyChanged
    }

    fn has_changes(&self) -> (r: bool) {
        match self {
            PropertyComparison::PropertyChanged { .. } => true,
            PropertyComparison::PropertyUnchanged { .. } => false,
        }
    }
}

/// The outcomes that a report of property comparisons states, in order.
pub open spec fn outcomes(r: Report<PropertyComparison>) -> Seq<PropertyOutcome> {
    r.entries@.map_values(|p: PropertyComparison| p@)
}

pub enum PrivilegeComparison {
    PrivilegeAdded { privilege_name: String, grantor: String, grantee: String },
    PrivilegeRemoved { privilege_name: String, grantor: String, grantee: String },
    PrivilegeMaintained { privilege_name: String, grantor: String, grantee: String },
}

impl HasChanges for PrivilegeComparison {
    open spec fn changed(&self) -> bool {
        !(self is PrivilegeMaintained)
    }

    fn has_changes(&self) -> (r: bool) {
        match self {
            PrivilegeComparison::PrivilegeAdded { .. } | PrivilegeComparison::PrivilegeRemoved {
                ..
            } => true,
            PrivilegeComparison::PrivilegeMaintained { .. } => false,
        }
    }
}

pub enum RoutineComparison {
    RoutineAdded { routine_signature: String },
    RoutineRemoved { routine_signature: String },
    RoutineMaintained {
        routine_signature: String,
        properties: Report<PropertyComparison>,
        privileges: Report<PrivilegeComparison>,
    },
}

impl HasChanges for RoutineComparison {
    open spec fn changed(&self) -> bool {
        match self {
            RoutineComparison::RoutineMaintained { properties, privileges, .. } => {
                properties.changed() || privileges.changed()
            },
            _ => true,
        }
    }

    fn has_changes(&self) -> (r: bool) {
        match self {
            RoutineComparison::RoutineMaintained { properties, privileges, .. } => {
                properties.has_changes() || privileges.has_changes()
            },
            _ => true,
        }
    }
}

pub enum SequenceComparison {
    SequenceAdded { sequence_name: String },
    SequenceRemoved { sequence_name: String },
    SequenceMaintained { sequence_name: String, properties: Report<PropertyComparison> },
}

impl HasChanges for SequenceComparison {
    open spec fn changed(&self) -> bool {
        match self {
            SequenceComparison::SequenceMaintained { properties, .. } => properties.changed(),
            _ => true,
        }
    }

    fn has_changes(&self) -> (r: bool) {
        match self {
            SequenceComparison::SequenceMaintained { properties, .. } => properties.has_changes(),
            _ => true,
        }
    }
}

pub enum TableColumnComparison {
    ColumnAdded { column_name: String },
    ColumnRemoved { column_name: String },
    ColumnMaintained {
        column_name: String,
        properties: Report<PropertyComparison>,
        privileges: Report<PrivilegeComparison>,
    },
}

impl HasChanges for TableColumnComparison {
    open spec fn changed(&self) -> bool {
        match self {
            TableColumnComparison::ColumnMaintained { properties, privileges, .. } => {
                properties.changed() || privileges.changed()
            },
            _ => true,
        }
    }

    fn has_changes(&self) -> (r: bool) {
        match self {
            TableColumnComparison::ColumnMaintained { properties, privileges, .. } => {
                properties.has_changes() || privileges.has_changes()
            },
            _ => true,
        }
    }
}

/// Columns are compared within a table; the two names denote one kind of result.
pub type ColumnComparison = TableColumnComparison;

pub enum IndexComparison {
    IndexAdded { index_name: String },
    IndexRemoved { index_name: String },
    IndexMaintained { index_name: String, properties: Report<PropertyComparison> },
}

impl HasChanges for IndexComparison {
    open spec fn changed(&self) -> bool {
        match self {
            IndexComparison::IndexMaintained { properties, .. } => properties.changed(),
            _ => true,
        }
    }

    fn has_changes(&self) -> (r: bool) {
        match self {
            IndexComparison::IndexMaintained { properties, .. } => properties.has_changes(),
            _ => true,
        }
    }
}

pub enum TableConstraintComparison {
    ConstraintAdded { constraint_name: String },
    ConstraintRemoved { constraint_name: String },
    ConstraintMaintained { constraint_name: String, properties: Report<PropertyComparison> },
}

impl HasChanges for TableConstraintComparison {
    open spec fn changed(&self) -> bool {
        match self {
            TableConstraintComparison::ConstraintMaintained { properties, .. } => {
                properties.changed()
            },
            _ => true,
        }
    }

    fn has_changes(&self) -> (r: bool) {
        match self {
            TableConstraintComparison::ConstraintMaintained { properties, .. } => {
                properties.has_changes()
            },
            _ => true,
        }
    }
}

pub enum TableTriggerComparison {
    TriggerAdded { trigger_name: String, event_manipulation: String },
    TriggerRemoved { trigger_name: String, event_manipulation: String },
    TriggerMaintained {
        trigger_name: String,
        event_manipulation: String,
        properties: Report<PropertyComparison>,
    },
}

impl HasChanges for TableTriggerComparison {
    open spec fn changed(&self) -> bool {
        match self {
            TableTriggerComparison::TriggerMaintained { properties, .. } => properties.changed(),
            _ => true,
        }
    }

    fn has_changes(&self) -> (r: bool) {
        match self {
            TableTriggerComparison::TriggerMaintained { properties, .. } => {
                properties.has_changes()
            },
            _ => true,
        }
    }
}

pub enum TableComparison {
    TableAdded { table_name: String },
    TableRemoved { table_name: String },
    TableMaintained {
        table_name: String,
        columns: Report<TableColumnComparison>,
        constraints: Report<TableConstraintComparison>,
        indices: Report<IndexComparison>,
        privileges: Report<PrivilegeComparison>,
        properties: Report<PropertyComparison>,
        triggers: Report<TableTriggerComparison>,
    },
}

impl HasChanges for TableComparison {
    open spec fn changed(&self) -> bool {
        match self {
            TableComparison::TableMaintained {
                columns,
                constraints,
                indices,
                privileges,
                properties,
                triggers,
                ..
            } => columns.changed() || indices.changed() || privileges.changed()
                || properties.changed() || constraints.changed() || triggers.changed(),
            _ => true,
        }
    }

    fn has_changes(&self) -> (r: bool) {
        match self {
            TableComparison::TableMaintained {
                columns,
                constraints,
                indices,
                privileges,
                properties,
                triggers,
                ..
            } => columns.has_changes() || indices.has_changes() || privileges.has_changes()
                || properties.has_changes() || constraints.has_changes() || triggers.has_changes(),
            _ => true,
        }
    }
}

/// Views are reported only where both sides hold them: a view that one side lacks
/// is already reported as a table added or removed.
pub enum ViewComparison {
    ViewMaintained { view_name: String, properties: Report<PropertyComparison> },
}

impl HasChanges for ViewComparison {
    open spec fn changed(&self) -> bool {
        match self {
            ViewComparison::ViewMaintained { properties, .. } => properties.changed(),
        }
    }

    fn has_changes(&self) -> (r: bool) {
        match self {
            ViewComparison::ViewMaintained { properties, .. } => properties.has_changes(),
        }
    }
}

pub enum SchemaComparison {
    SchemaAdded { schema_name: String },
    SchemaRemoved { schema_name: String },
    SchemaMissing { schema_name: String },
    SchemaMaintained {
        schema_name: String,
        properties: Report<PropertyComparison>,
        routines: Report<RoutineComparison>,
        sequences: Report<SequenceComparison>,
        tables: Report<TableComparison>,
        views: Report<ViewComparison>,
    },
}

impl HasChanges for SchemaComparison {
    open spec fn changed(&self) -> bool {
        match self {
            SchemaComparison::SchemaMaintained {
                properties,
                routines,
                sequences,
                tables,
                views,
                ..
            } => properties.changed() || routines.changed() || sequences.changed()
                || tables.changed() || views.changed(),
            _ => true,
        }
    }

    fn has_changes(&self) -> (r: bool) {
        match self {
            SchemaComparison::SchemaMaintained {
                properties,
                routines,
                sequences,
                tables,
                views,
                ..
            } => properties.has_changes() || routines.has_changes() || sequences.has_changes()
                || tables.has_changes() || views.has_changes(),
            _ => true,
        }
    }
}

pub type SchemaReport = Report<SchemaComparison>;

pub type PropertyReport = Report<PropertyComparison>;

pub type PrivilegeReport = Report<PrivilegeComparison>;

pub type RoutineReport = Report<RoutineComparison>;

pub type SequenceReport = Report<SequenceComparison>;

pub type TableReport = Report<TableComparison>;

pub type TableColumnReport = Report<TableColumnComparison>;

pub type TableConstraintReport = Report<TableConstraintComparison>;

pub type TableTriggerReport = Report<TableTriggerComparison>;

pub type ViewReport = Report<ViewComparison>;

} // verus!
