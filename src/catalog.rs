use vstd::prelude::*;

verus! {

/// One schema, as `information_schema.schemata` lists it.
#[derive(Clone, Debug, PartialEq, Eq)]
pub struct Schema {
    pub schema_name: String,
    pub schema_owner: String,
    pub default_character_set_catalog: Option<String>,
    pub default_character_set_schema: Option<String>,
    pub default_character_set_name: Option<String>,
    pub sql_path: Option<String>,
}

/// One function or procedure; `signature` is its name followed by its parameter list.
#[derive(Clone, Debug, PartialEq, Eq)]
pub struct Routine {
    pub routine_catalog: String,
    pub routine_schema: String,
    pub signature: String,
    pub routine_type: Option<String>,
    pub module_catalog: Option<String>,
    pub module_schema: Option<String>,
    pub module_name: Option<String>,
    pub udt_catalog: Option<String>,
    pub udt_schema: Option<String>,
    pub udt_name: Option<String>,
    pub data_type: Option<String>,
    pub character_maximum_length: Option<i32>,
    pub character_octet_length: Option<i32>,
    pub character_set_catalog: Option<String>,
    pub character_set_schema: Option<String>,
    pub character_set_name: Option<String>,
    pub collation_catalog: Option<String>,
    pub collation_schema: Option<String>,
    pub collation_name: Option<String>,
    pub numeric_precision: Option<i32>,
    pub numeric_precision_radix: Option<i32>,
    pub numeric_scale: Option<i32>,
    pub datetime_precision: Option<i32>,
    pub interval_type: Option<String>,
    pub interval_precision: Option<i32>,
    pub type_udt_catalog: Option<String>,
    pub type_udt_schema: Option<String>,
    pub type_udt_name: Option<String>,
    pub maximum_cardinality: Option<i32>,
    pub dtd_identifier: Option<String>,
    pub routine_body: String,
    pub routine_definition: Option<String>,
    pub external_name: Option<String>,
    pub external_language: String,
    pub parameter_style: String,
    pub is_deterministic: String,
    pub sql_data_access: String,
    pub is_null_call: Option<String>,
    pub sql_path: Option<String>,
    pub schema_level_routine: String,
    pub max_dynamic_result_sets: Option<i32>,
    pub is_user_defined_cast: Option<String>,
    pub is_implicitly_invocable: Option<String>,
    pub security_type: String,
    pub is_udt_dependent: String,
}

/// One parameter of a routine.
#[derive(Clone, Debug, PartialEq, Eq)]
pub struct RoutineParameter {
    pub specific_catalog: String,
    pub specific_schema: String,
    pub specific_name: String,
    pub ordinal_position: i32,
    pub parameter_mode: String,
    pub is_result: Option<String>,
    pub as_locator: Option<String>,
    pub parameter_name: Option<String>,
    pub data_type: String,
    pub character_maximum_length: Option<i32>,
    pub character_octet_length: Option<i32>,
    pub character_set_catalog: Option<String>,
    pub character_set_schema: Option<String>,
    pub character_set_name: Option<String>,
    pub collation_catalog: Option<String>,
    pub collation_schema: Option<String>,
    pub collation_name: Option<String>,
    pub numeric_precision: Option<i32>,
    pub numeric_precision_radix: Option<i32>,
    pub numeric_scale: Option<i32>,
    pub datetime_precision: Option<i32>,
    pub interval_type: Option<String>,
    pub interval_precision: Option<i32>,
    pub udt_catalog: String,
    pub udt_schema: String,
    pub udt_name: String,
    pub scope_catalog: Option<String>,
    pub scope_schema: Option<String>,
    pub scope_name: Option<String>,
    pub maximum_cardinality: Option<i32>,
    pub dtd_identifier: String,
    pub parameter_default: Option<String>,
}

/// A grant on a routine; `signature` names the routine as `Routine::signature` does.
#[derive(Clone, Debug, PartialEq, Eq)]
pub struct RoutinePrivilege {
    pub grantor: String,
    pub grantee: String,
    pub specific_catalog: String,
    pub specific_schema: String,
    pub specific_name: String,
    pub routine_catalog: String,
    pub routine_schema: String,
    pub routine_name: String,
    pub signature: String,
    pub privilege_type: String,
    pub is_grantable: String,
}

#[derive(Clone, Debug, PartialEq, Eq)]
pub struct Sequence {
    pub sequence_catalog: String,
    pub sequence_schema: String,
    pub sequence_name: String,
    pub data_type: String,
    pub numeric_precision: i32,
    pub numeric_precision_radix: i32,
    pub numeric_scale: i32,
    pub start_value: String,
    pub minimum_value: String,
    pub maximum_value: String,
    pub increment: String,
    pub cycle_option: String,
}

/// One table or view, as `information_schema.tables` lists it.
#[derive(Clone, Debug, PartialEq, Eq)]
pub struct Table {
    pub table_catalog: String,
    pub table_schema: String,
    pub table_name: String,
    pub table_type: String,
    pub self_referencing_column_name: Option<String>,
    pub reference_generation: Option<String>,
    pub user_defined_type_catalog: Option<String>,
    pub user_defined_type_schema: Option<String>,
    pub user_defined_type_name: Option<String>,
    pub is_insertable_into: String,
    pub is_typed: String,
    pub commit_action: Option<String>,
}

/// One column of a table.
#[derive(Clone, Debug, PartialEq, Eq)]
pub struct Column {
    pub table_schema: String,
    pub table_name: String,
    pub column_name: String,
    pub ordinal_position: i32,
    pub column_default: Option<String>,
    pub is_nullable: String,
    pub data_type: String,
    pub character_maximum_length: Option<i32>,
    pub character_octet_length: Option<i32>,
    pub numeric_precision: Option<i32>,
    pub numeric_precision_radix: Option<i32>,
    pub numeric_scale: Option<i32>,
    pub datetime_precision: Option<i32>,
    pub interval_type: Option<String>,
    pub interval_precision: Option<i32>,
    pub character_set_catalog: Option<String>,
    pub character_set_schema: Option<String>,
    pub character_set_name: Option<String>,
    pub collation_catalog: Option<String>,
    pub collation_schema: Option<String>,
    pub collation_name: Option<String>,
    pub domain_catalog: Option<String>,
    pub domain_schema: Option<String>,
    pub domain_name: Option<String>,
    pub udt_catalog: Option<String>,
    pub udt_schema: Option<String>,
    pub udt_name: Option<String>,
    pub scope_catalog: Option<String>,
    pub scope_schema: Option<String>,
    pub scope_name: Option<String>,
    pub maximum_cardinality: Option<i32>,
    pub dtd_identifier: Option<String>,
    pub is_self_referencing: String,
    pub is_identity: String,
    pub identity_generation: Option<String>,
    pub identity_start: Option<String>,
    pub identity_increment: Option<String>,
    pub identity_maximum: Option<String>,
    pub identity_minimum: Option<String>,
    pub identity_cycle: Option<String>,
    pub is_generated: String,
    pub generation_expression: Option<String>,
    pub is_updatable: String,
}

#[derive(Clone, Debug, PartialEq, Eq)]
pub struct ColumnPrivilege {
    pub grantor: String,
    pub grantee: String,
    pub table_catalog: String,
    pub table_schema: String,
    pub table_name: String,
    pub column_name: String,
    pub privilege_type: String,
    pub is_grantable: String,
}

#[derive(Clone, Debug, PartialEq, Eq)]
pub struct Index {
    pub table_schema: String,
    pub table_name: String,
    pub index_name: String,
    pub table_space: Option<String>,
    pub definition: String,
}

#[derive(Clone, Debug, PartialEq, Eq)]
pub struct TablePrivilege {
    pub grantor: String,
    pub grantee: String,
    pub table_catalog: String,
    pub table_schema: String,
    pub table_name: String,
    pub privilege_type: String,
    pub is_grantable: String,
    pub with_hierarchy: String,
}

/// A constraint of a table other than a CHECK constraint, whose names are not stable.
#[derive(Clone, Debug, PartialEq, Eq)]
pub struct TableConstraint {
    pub constraint_catalog: String,
    pub constraint_schema: String,
    pub constraint_name: String,
    pub table_catalog: String,
    pub table_schema: String,
    pub table_name: String,
    pub constraint_type: String,
    pub is_deferrable: String,
    pub initially_deferred: String,
    pub enforced: String,
    pub nulls_distinct: Option<String>,
}

/// One trigger of a table for one event.
#[derive(Clone, Debug, PartialEq, Eq)]
pub struct TableTrigger {
    pub trigger_catalog: String,
    pub trigger_schema: String,
    pub trigger_name: String,
    pub event_manipulation: String,
    pub event_object_catalog: String,
    pub event_object_schema: String,
    pub event_object_table: String,
    pub action_order: i32,
    pub action_condition: Option<String>,
    pub action_statement: String,
    pub action_orientation: String,
    pub action_timing: String,
    pub action_reference_old_table: Option<String>,
    pub action_reference_new_table: Option<String>,
}

pub type Trigger = TableTrigger;

/// One view; the same name also occurs among the tables.
#[derive(Clone, Debug, PartialEq, Eq)]
pub struct View {
    pub table_catalog: String,
    pub table_schema: String,
    pub table_name: String,
    pub view_definition: Option<String>,
    pub check_option: String,
    pub is_updatable: String,
    pub is_insertable_into: String,
    pub is_trigger_updatable: String,
    pub is_trigger_deletable: String,
    pub is_trigger_insertable_into: String,
}

/// A grant, whatever it is a grant on.
#[derive(Clone, Debug, PartialEq, Eq)]
pub struct Privilege {
    pub grantor: String,
    pub grantee: String,
    pub privilege_type: String,
    pub is_grantable: String,
}

/// Everything one side of a comparison lists for the schemas compared.
pub struct Catalog {
    pub schemas: Vec<Schema>,
    pub routines: Vec<Routine>,
    pub routine_privileges: Vec<RoutinePrivilege>,
    pub sequences: Vec<Sequence>,
    pub tables: Vec<Table>,
    pub columns: Vec<Column>,
    pub column_privileges: Vec<ColumnPrivilege>,
    pub indices: Vec<Index>,
    pub table_privileges: Vec<TablePrivilege>,
    pub table_constraints: Vec<TableConstraint>,
    pub table_triggers: Vec<TableTrigger>,
    pub views: Vec<View>,
}

} // verus!
