use schema_compare::catalog::{
    Catalog, Column, ColumnPrivilege, Index, Routine, RoutinePrivilege, Schema, Sequence, Table,
    TableConstraint, TablePrivilege, TableTrigger, View,
};
use schema_compare::compare::{CompareError, Comparer};
use schema_compare::report::{
    HasChanges, PrivilegeComparison, PropertyComparison, Report, RoutineComparison,
    SchemaComparison, TableColumnComparison, TableComparison, TableTriggerComparison,
};

fn s(v: &str) -> String {
    v.to_string()
}

fn schema(name: &str) -> Schema {
    Schema {
        schema_name: s(name),
        schema_owner: s("postgres"),
        default_character_set_catalog: None,
        default_character_set_schema: None,
        default_character_set_name: None,
        sql_path: None,
    }
}

fn table(schema: &str, name: &str) -> Table {
    Table {
        table_catalog: s("db"),
        table_schema: s(schema),
        table_name: s(name),
        table_type: s("BASE TABLE"),
        self_referencing_column_name: None,
        reference_generation: None,
        user_defined_type_catalog: None,
        user_defined_type_schema: None,
        user_defined_type_name: None,
        is_insertable_into: s("YES"),
        is_typed: s("NO"),
        commit_action: None,
    }
}

fn column(schema: &str, table: &str, name: &str, ordinal: i32) -> Column {
    Column {
        table_schema: s(schema),
        table_name: s(table),
        column_name: s(name),
        ordinal_position: ordinal,
        column_default: None,
        is_nullable: s("YES"),
        data_type: s("integer"),
        character_maximum_length: None,
        character_octet_length: None,
        numeric_precision: Some(32),
        numeric_precision_radix: Some(2),
        numeric_scale: Some(0),
        datetime_precision: None,
        interval_type: None,
        interval_precision: None,
        character_set_catalog: None,
        character_set_schema: None,
        character_set_name: None,
        collation_catalog: None,
        collation_schema: None,
        collation_name: None,
        domain_catalog: None,
        domain_schema: None,
        domain_name: None,
        udt_catalog: Some(s("db")),
        udt_schema: Some(s("pg_catalog")),
        udt_name: Some(s("int4")),
        scope_catalog: None,
        scope_schema: None,
        scope_name: None,
        maximum_cardinality: None,
        dtd_identifier: Some(s("1")),
        is_self_referencing: s("NO"),
        is_identity: s("NO"),
        identity_generation: None,
        identity_start: None,
        identity_increment: None,
        identity_maximum: None,
        identity_minimum: None,
        identity_cycle: Some(s("NO")),
        is_generated: s("NEVER"),
        generation_expression: None,
        is_updatable: s("YES"),
    }
}

fn view(schema: &str, name: &str, definition: &str) -> View {
    View {
        table_catalog: s("db"),
        table_schema: s(schema),
        table_name: s(name),
        view_definition: Some(s(definition)),
        check_option: s("NONE"),
        is_updatable: s("NO"),
        is_insertable_into: s("NO"),
        is_trigger_updatable: s("NO"),
        is_trigger_deletable: s("NO"),
        is_trigger_insertable_into: s("NO"),
    }
}

fn routine(schema: &str, signature: &str, definition: &str) -> Routine {
    Routine {
        routine_catalog: s("db"),
        routine_schema: s(schema),
        signature: s(signature),
        routine_type: Some(s("FUNCTION")),
        module_catalog: None,
        module_schema: None,
        module_name: None,
        udt_catalog: None,
        udt_schema: None,
        udt_name: None,
        data_type: Some(s("integer")),
        character_maximum_length: None,
        character_octet_length: None,
        character_set_catalog: None,
        character_set_schema: None,
        character_set_name: None,
        collation_catalog: None,
        collation_schema: None,
        collation_name: None,
        numeric_precision: None,
        numeric_precision_radix: None,
        numeric_scale: None,
        datetime_precision: None,
        interval_type: None,
        interval_precision: None,
        type_udt_catalog: Some(s("db")),
        type_udt_schema: Some(s("pg_catalog")),
        type_udt_name: Some(s("int4")),
        maximum_cardinality: None,
        dtd_identifier: Some(s("0")),
        routine_body: s("EXTERNAL"),
        routine_definition: Some(s(definition)),
        external_name: None,
        external_language: s("SQL"),
        parameter_style: s("GENERAL"),
        is_deterministic: s("NO"),
        sql_data_access: s("MODIFIES"),
        is_null_call: Some(s("NO")),
        sql_path: None,
        schema_level_routine: s("YES"),
        max_dynamic_result_sets: Some(0),
        is_user_defined_cast: None,
        is_implicitly_invocable: None,
        security_type: s("INVOKER"),
        is_udt_dependent: s("NO"),
    }
}

fn routine_grant(schema: &str, signature: &str, grantee: &str) -> RoutinePrivilege {
    RoutinePrivilege {
        grantor: s("postgres"),
        grantee: s(grantee),
        specific_catalog: s("db"),
        specific_schema: s(schema),
        specific_name: s("f_1"),
        routine_catalog: s("db"),
        routine_schema: s(schema),
        routine_name: s("f"),
        signature: s(signature),
        privilege_type: s("EXECUTE"),
        is_grantable: s("NO"),
    }
}

fn table_grant(schema: &str, table: &str, kind: &str, grantee: &str) -> TablePrivilege {
    TablePrivilege {
        grantor: s("postgres"),
        grantee: s(grantee),
        table_catalog: s("db"),
        table_schema: s(schema),
        table_name: s(table),
        privilege_type: s(kind),
        is_grantable: s("NO"),
        with_hierarchy: s("NO"),
    }
}

fn column_grant(schema: &str, table: &str, column: &str, grantee: &str) -> ColumnPrivilege {
    ColumnPrivilege {
        grantor: s("postgres"),
        grantee: s(grantee),
        table_catalog: s("db"),
        table_schema: s(schema),
        table_name: s(table),
        column_name: s(column),
        privilege_type: s("SELECT"),
        is_grantable: s("NO"),
    }
}

fn index(schema: &str, table: &str, name: &str, definition: &str) -> Index {
    Index {
        table_schema: s(schema),
        table_name: s(table),
        index_name: s(name),
        table_space: None,
        definition: s(definition),
    }
}

fn constraint(schema: &str, table: &str, name: &str) -> TableConstraint {
    TableConstraint {
        constraint_catalog: s("db"),
        constraint_schema: s(schema),
        constraint_name: s(name),
        table_catalog: s("db"),
        table_schema: s(schema),
        table_name: s(table),
        constraint_type: s("PRIMARY KEY"),
        is_deferrable: s("NO"),
        initially_deferred: s("NO"),
        enforced: s("YES"),
        nulls_distinct: None,
    }
}

fn trigger(schema: &str, table: &str, name: &str, event: &str) -> TableTrigger {
    TableTrigger {
        trigger_catalog: s("db"),
        trigger_schema: s(schema),
        trigger_name: s(name),
        event_manipulation: s(event),
        event_object_catalog: s("db"),
        event_object_schema: s(schema),
        event_object_table: s(table),
        action_order: 1,
        action_condition: None,
        action_statement: s("EXECUTE FUNCTION audit()"),
        action_orientation: s("ROW"),
        action_timing: s("AFTER"),
        action_reference_old_table: None,
        action_reference_new_table: None,
    }
}

fn empty() -> Catalog {
    Catalog {
        schemas: vec![],
        routines: vec![],
        routine_privileges: vec![],
        sequences: vec![],
        tables: vec![],
        columns: vec![],
        column_privileges: vec![],
        indices: vec![],
        table_privileges: vec![],
        table_constraints: vec![],
        table_triggers: vec![],
        views: vec![],
    }
}

fn sample() -> Catalog {
    let mut c = empty();
    c.schemas = vec![schema("public")];
    c.tables = vec![table("public", "orders"), table("public", "users"), table("public", "active_users")];
    c.columns = vec![
        column("public", "orders", "id", 1),
        column("public", "orders", "user_id", 2),
        column("public", "users", "id", 1),
    ];
    c.column_privileges = vec![column_grant("public", "users", "id", "reader")];
    c.indices = vec![index("public", "orders", "orders_pkey", "CREATE UNIQUE INDEX orders_pkey ON orders (id)")];
    c.table_privileges = vec![
        table_grant("public", "orders", "SELECT", "reader"),
        table_grant("public", "orders", "INSERT", "writer"),
    ];
    c.table_constraints = vec![constraint("public", "orders", "orders_pkey")];
    c.table_triggers = vec![
        trigger("public", "orders", "audit", "INSERT"),
        trigger("public", "orders", "audit", "UPDATE"),
    ];
    c.views = vec![view("public", "active_users", "SELECT * FROM users")];
    c.routines = vec![routine("public", "f(x IN pg_catalog.int4)", "select 1")];
    c.routine_privileges = vec![routine_grant("public", "f(x IN pg_catalog.int4)", "reader")];
    c.sequences = vec![Sequence {
        sequence_catalog: s("db"),
        sequence_schema: s("public"),
        sequence_name: s("orders_id_seq"),
        data_type: s("bigint"),
        numeric_precision: 64,
        numeric_precision_radix: 2,
        numeric_scale: 0,
        start_value: s("1"),
        minimum_value: s("1"),
        maximum_value: s("9223372036854775807"),
        increment: s("1"),
        cycle_option: s("NO"),
    }];
    c
}

fn maintained_tables(report: &Report<SchemaComparison>) -> &Report<TableComparison> {
    match &report.entries[0] {
        SchemaComparison::SchemaMaintained { tables, .. } => tables,
        _ => panic!("expected a maintained schema"),
    }
}

fn describe_tables(tables: &Report<TableComparison>) -> Vec<String> {
    tables
        .entries
        .iter()
        .map(|t| match t {
            TableComparison::TableAdded { table_name } => format!("+{}", table_name),
            TableComparison::TableRemoved { table_name } => format!("-{}", table_name),
            TableComparison::TableMaintained { table_name, .. } => format!("={}", table_name),
        })
        .collect()
}

#[test]
fn identical_catalogs_report_no_change() {
    let comparer = Comparer::new(false, false, false);
    let report = comparer.compare(vec![s("public")], &sample(), &sample()).ok().unwrap();
    assert_eq!(report.entries.len(), 1);
    assert!(!report.has_changes());
    let tables = maintained_tables(&report);
    assert_eq!(describe_tables(tables), vec!["=orders", "=users", "=active_users"]);
    for t in &tables.entries {
        assert!(!t.has_changes());
    }
}

#[test]
fn tables_removed_maintained_added() {
    let mut left = empty();
    left.schemas = vec![schema("public")];
    left.tables = vec![table("public", "A"), table("public", "B")];
    let mut right = empty();
    right.schemas = vec![schema("public")];
    right.tables = vec![table("public", "B"), table("public", "C")];
    let report = Comparer::new(false, false, false).compare(vec![s("public")], &left, &right).ok().unwrap();
    let tables = maintained_tables(&report);
    assert_eq!(describe_tables(tables), vec!["-A", "=B", "+C"]);
    assert!(!tables.entries[1].has_changes());
    assert!(report.entries[0].has_changes());
    assert!(report.has_changes());
}

#[test]
fn added_view_is_reported_once_as_a_table() {
    let left = sample();
    let mut right = sample();
    right.tables.push(table("public", "recent_orders"));
    right.views.push(view("public", "recent_orders", "SELECT * FROM orders"));
    let report = Comparer::new(false, false, false).compare(vec![s("public")], &left, &right).ok().unwrap();
    let tables = maintained_tables(&report);
    let added: Vec<String> = describe_tables(tables).into_iter().filter(|d| d == "+recent_orders").collect();
    assert_eq!(added.len(), 1);
    match &report.entries[0] {
        SchemaComparison::SchemaMaintained { views, .. } => {
            assert_eq!(views.entries.len(), 1);
            assert!(!views.has_changes());
        }
        _ => panic!("expected a maintained schema"),
    }
}

fn column_report(comparer: &Comparer, left: &Catalog, right: &Catalog) -> Vec<String> {
    let report = comparer.compare(vec![s("public")], left, right).ok().unwrap();
    let tables = maintained_tables(&report);
    let mut out = vec![];
    for t in &tables.entries {
        if let TableComparison::TableMaintained { columns, .. } = t {
            for c in &columns.entries {
                if let TableColumnComparison::ColumnMaintained { column_name, properties, .. } = c {
                    for p in &properties.entries {
                        if let PropertyComparison::PropertyChanged { property_name, left_value, right_value } = p {
                            out.push(format!("{}.{}: {} -> {}", column_name, property_name, left_value, right_value));
                        }
                    }
                }
            }
        }
    }
    out
}

#[test]
fn ordinal_position_toggle() {
    let left = sample();
    let mut right = sample();
    right.columns = vec![
        column("public", "orders", "user_id", 1),
        column("public", "orders", "id", 2),
        column("public", "users", "id", 1),
    ];
    assert_eq!(
        column_report(&Comparer::new(false, false, false), &left, &right),
        vec!["id.ordinal_position: 1 -> 2", "user_id.ordinal_position: 2 -> 1"]
    );
    assert!(column_report(&Comparer::new(false, true, false), &left, &right).is_empty());
    let report = Comparer::new(false, true, false).compare(vec![s("public")], &left, &right).ok().unwrap();
    assert!(!report.has_changes());
}

#[test]
fn schema_missing_added_removed() {
    let mut left = empty();
    left.schemas = vec![schema("old")];
    let mut right = empty();
    right.schemas = vec![schema("new")];
    let report = Comparer::new(false, false, false)
        .compare(vec![s("old"), s("new"), s("gone")], &left, &right)
        .ok()
        .unwrap();
    let kinds: Vec<String> = report
        .entries
        .iter()
        .map(|e| match e {
            SchemaComparison::SchemaRemoved { schema_name } => format!("-{}", schema_name),
            SchemaComparison::SchemaAdded { schema_name } => format!("+{}", schema_name),
            SchemaComparison::SchemaMissing { schema_name } => format!("?{}", schema_name),
            SchemaComparison::SchemaMaintained { schema_name, .. } => format!("={}", schema_name),
        })
        .collect();
    assert_eq!(kinds, vec!["-old", "+new", "?gone"]);
    assert!(report.entries.iter().all(|e| e.has_changes()));
}

#[test]
fn duplicate_schema_rows_are_an_error() {
    let mut left = empty();
    left.schemas = vec![schema("public"), schema("public")];
    let right = sample();
    match Comparer::new(false, false, false).compare(vec![s("other"), s("public")], &left, &right) {
        Err(CompareError::DuplicateSchema { schema_name }) => assert_eq!(schema_name, "public"),
        Ok(_) => panic!("expected an error"),
    }
}

#[test]
fn privileges_reported_unless_ignored() {
    let left = sample();
    let mut right = sample();
    right.table_privileges = vec![
        table_grant("public", "orders", "SELECT", "reader"),
        table_grant("public", "orders", "DELETE", "admin"),
    ];
    let report = Comparer::new(false, false, false).compare(vec![s("public")], &left, &right).ok().unwrap();
    let tables = maintained_tables(&report);
    match &tables.entries[0] {
        TableComparison::TableMaintained { privileges, .. } => {
            let described: Vec<String> = privileges
                .entries
                .iter()
                .map(|p| match p {
                    PrivilegeComparison::PrivilegeAdded { privilege_name, grantee, .. } => format!("+{} {}", privilege_name, grantee),
                    PrivilegeComparison::PrivilegeRemoved { privilege_name, grantee, .. } => format!("-{} {}", privilege_name, grantee),
                    PrivilegeComparison::PrivilegeMaintained { privilege_name, grantee, .. } => format!("={} {}", privilege_name, grantee),
                })
                .collect();
            assert_eq!(described, vec!["=SELECT reader", "-INSERT writer", "+DELETE admin"]);
        }
        _ => panic!("expected a maintained table"),
    }
    assert!(report.has_changes());
    let ignoring = Comparer::new(false, false, true).compare(vec![s("public")], &left, &right).ok().unwrap();
    assert!(!ignoring.has_changes());
    match &maintained_tables(&ignoring).entries[0] {
        TableComparison::TableMaintained { privileges, .. } => assert!(privileges.entries.is_empty()),
        _ => panic!("expected a maintained table"),
    }
}

#[test]
fn routine_definitions_up_to_whitespace() {
    let left = sample();
    let mut right = sample();
    right.routines = vec![routine("public", "f(x IN pg_catalog.int4)", "  select\n  1 ")];
    let strict = Comparer::new(false, false, false).compare(vec![s("public")], &left, &right).ok().unwrap();
    assert!(strict.has_changes());
    let loose = Comparer::new(true, false, false).compare(vec![s("public")], &left, &right).ok().unwrap();
    assert!(!loose.has_changes());
    match &loose.entries[0] {
        SchemaComparison::SchemaMaintained { routines, .. } => match &routines.entries[0] {
            RoutineComparison::RoutineMaintained { routine_signature, privileges, .. } => {
                assert_eq!(routine_signature, "f(x IN pg_catalog.int4)");
                assert_eq!(privileges.entries.len(), 1);
            }
            _ => panic!("expected a maintained routine"),
        },
        _ => panic!("expected a maintained schema"),
    }
}

#[test]
fn triggers_are_keyed_by_name_and_event() {
    let left = sample();
    let mut right = sample();
    right.table_triggers = vec![
        trigger("public", "orders", "audit", "UPDATE"),
        trigger("public", "orders", "audit", "DELETE"),
    ];
    let report = Comparer::new(false, false, false).compare(vec![s("public")], &left, &right).ok().unwrap();
    match &maintained_tables(&report).entries[0] {
        TableComparison::TableMaintained { triggers, .. } => {
            let described: Vec<String> = triggers
                .entries
                .iter()
                .map(|t| match t {
                    TableTriggerComparison::TriggerAdded { trigger_name, event_manipulation } => format!("+{} {}", trigger_name, event_manipulation),
                    TableTriggerComparison::TriggerRemoved { trigger_name, event_manipulation } => format!("-{} {}", trigger_name, event_manipulation),
                    TableTriggerComparison::TriggerMaintained { trigger_name, event_manipulation, .. } => format!("={} {}", trigger_name, event_manipulation),
                })
                .collect();
            assert_eq!(described, vec!["-audit INSERT", "=audit UPDATE", "+audit DELETE"]);
        }
        _ => panic!("expected a maintained table"),
    }
}

#[test]
fn changed_view_definition_is_reported() {
    let left = sample();
    let mut right = sample();
    right.views = vec![view("public", "active_users", "SELECT id FROM users")];
    let report = Comparer::new(false, false, false).compare(vec![s("public")], &left, &right).ok().unwrap();
    assert!(report.has_changes());
    assert!(!maintained_tables(&report).has_changes());
}

#[test]
fn empty_report_has_no_changes() {
    let report: Report<SchemaComparison> = Report { entries: vec![] };
    assert!(!report.has_changes());
}

#[test]
fn check_constraints_are_left_out() {
    let left = sample();
    let mut right = sample();
    let mut check = constraint("public", "orders", "orders_total_check");
    check.constraint_type = s("CHECK");
    right.table_constraints.push(check);
    let report = Comparer::new(false, false, false).compare(vec![s("public")], &left, &right).ok().unwrap();
    assert!(!report.has_changes());
    match &maintained_tables(&report).entries[0] {
        TableComparison::TableMaintained { constraints, .. } => assert_eq!(constraints.entries.len(), 1),
        _ => panic!("expected a maintained table"),
    }
}

#[test]
fn right_side_order_does_not_change_the_report() {
    let mut left = empty();
    left.schemas = vec![schema("public")];
    left.tables = vec![table("public", "m"), table("public", "a")];
    let mut right_one = empty();
    right_one.schemas = vec![schema("public")];
    right_one.tables = vec![table("public", "z"), table("public", "a"), table("public", "c")];
    let mut right_two = empty();
    right_two.schemas = vec![schema("public")];
    right_two.tables = vec![table("public", "c"), table("public", "z"), table("public", "a")];
    let comparer = Comparer::new(false, false, false);
    let one = comparer.compare(vec![s("public")], &left, &right_one).ok().unwrap();
    let two = comparer.compare(vec![s("public")], &left, &right_two).ok().unwrap();
    assert_eq!(describe_tables(maintained_tables(&one)), vec!["-m", "=a", "+c", "+z"]);
    assert_eq!(describe_tables(maintained_tables(&one)), describe_tables(maintained_tables(&two)));
}
