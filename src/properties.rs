use vstd::prelude::*;
use crate::catalog::{
    Column,
    Index,
    Routine,
    Schema,
    Sequence,
    Table,
    TableConstraint,
    TableTrigger,
};
use crate::catalog::View as ViewRow;
use crate::compare::Comparer;
use crate::property::{
    compare_int_property, compare_option_int_property, compare_option_property,
    compare_option_property_ignore_whitespace, compare_property, int_outcome, option_int_outcome,
    option_outcome, option_outcome_ignore_whitespace, text_outcome,
};
use crate::report::{outcomes, PropertyComparison, PropertyOutcome, Report};

verus! {

/// The property comparisons of two schemas, in order.
pub open spec fn schema_outcomes(l: Schema, r: Schema) -> Seq<PropertyOutcome> {
    seq![
        text_outcome("schema_owner"@, l.schema_owner@, r.schema_owner@),
        option_outcome(
            "default_character_set_catalog"@,
            l.default_character_set_catalog,
            r.default_character_set_catalog,
        ),
        option_outcome(
            "default_character_set_schema"@,
            l.default_character_set_schema,
            r.default_character_set_schema,
        ),
        option_outcome(
            "default_character_set_name"@,
            l.default_character_set_name,
            r.default_character_set_name,
        ),
    ]
}

/// The property comparisons of two routines, in order; with `ignore_whitespace` their
/// definitions are compared up to whitespace.
pub open spec fn routine_outcomes(
    l: Routine,
    r: Routine,
    ignore_whitespace: bool,
) -> Seq<PropertyOutcome> {
    seq![
        option_outcome("routine_type"@, l.routine_type, r.routine_type),
        option_outcome("module_catalog"@, l.module_catalog, r.module_catalog),
        option_outcome("module_schema"@, l.module_schema, r.module_schema),
        option_outcome("module_name"@, l.module_name, r.module_name),
        option_outcome("udt_catalog"@, l.udt_catalog, r.udt_catalog),
        option_outcome("udt_schema"@, l.udt_schema, r.udt_schema),
        option_outcome("udt_name"@, l.udt_name, r.udt_name),
        option_outcome("data_type"@, l.data_type, r.data_type),
        option_int_outcome(
            "character_maximum_length"@,
            l.character_maximum_length,
            r.character_maximum_length,
        ),
        option_int_outcome(
            "character_octet_length"@,
            l.character_octet_length,
            r.character_octet_length,
        ),
        option_outcome("character_set_catalog"@, l.character_set_catalog, r.character_set_catalog),
        option_outcome("character_set_schema"@, l.character_set_schema, r.character_set_schema),
        option_outcome("character_set_name"@, l.character_set_name, r.character_set_name),
        option_outcome("collation_catalog"@, l.collation_catalog, r.collation_catalog),
        option_outcome("collation_schema"@, l.collation_schema, r.collation_schema),
        option_outcome("collation_name"@, l.collation_name, r.collation_name),
        option_int_outcome("numeric_precision"@, l.numeric_precision, r.numeric_precision),
        option_int_outcome(
            "numeric_precision_radix"@,
            l.numeric_precision_radix,
            r.numeric_precision_radix,
        ),
        option_int_outcome("numeric_scale"@, l.numeric_scale, r.numeric_scale),
        option_int_outcome("datetime_precision"@, l.datetime_precision, r.datetime_precision),
        option_outcome("interval_type"@, l.interval_type, r.interval_type),
        option_int_outcome("interval_precision"@, l.interval_precision, r.interval_precision),
        option_outcome("type_udt_catalog"@, l.type_udt_catalog, r.type_udt_catalog),
        option_outcome("type_udt_schema"@, l.type_udt_schema, r.type_udt_schema),
        option_outcome("type_udt_name"@, l.type_udt_name, r.type_udt_name),
        option_int_outcome("maximum_cardinality"@, l.maximum_cardinality, r.maximum_cardinality),
        option_outcome("dtd_identifier"@, l.dtd_identifier, r.dtd_identifier),
        text_outcome("routine_body"@, l.routine_body@, r.routine_body@),
        if ignore_whitespace {
            option_outcome_ignore_whitespace(
                "routine_definition"@,
                l.routine_definition,
                r.routine_definition,
            )
        } else {
            option_outcome("routine_definition"@, l.routine_definition, r.routine_definition)
        },
        option_outcome("external_name"@, l.external_name, r.external_name),
        text_outcome("external_language"@, l.external_language@, r.external_language@),
        text_outcome("parameter_style"@, l.parameter_style@, r.parameter_style@),
        text_outcome("is_deterministic"@, l.is_deterministic@, r.is_deterministic@),
        text_outcome("sql_data_access"@, l.sql_data_access@, r.sql_data_access@),
        option_outcome("is_null_call"@, l.is_null_call, r.is_null_call),
        option_outcome("sql_path"@, l.sql_path, r.sql_path),
        text_outcome("schema_level_routine"@, l.schema_level_routine@, r.schema_level_routine@),
        option_int_outcome(
            "max_dynamic_result_sets"@,
            l.max_dynamic_result_sets,
            r.max_dynamic_result_sets,
        ),
        option_outcome("is_user_defined_cast"@, l.is_user_defined_cast, r.is_user_defined_cast),
        option_outcome(
            "is_implicitly_invocable"@,
            l.is_implicitly_invocable,
            r.is_implicitly_invocable,
        ),
        text_outcome("security_type"@, l.security_type@, r.security_type@),
    ]
}

/// The property comparisons of two sequences, in order.
pub open spec fn sequence_outcomes(l: Sequence, r: Sequence) -> Seq<PropertyOutcome> {
    seq![
        text_outcome("sequence_catalog"@, l.sequence_catalog@, r.sequence_catalog@),
        text_outcome("sequence_schema"@, l.sequence_schema@, r.sequence_schema@),
        text_outcome("sequence_name"@, l.sequence_name@, r.sequence_name@),
        text_outcome("data_type"@, l.data_type@, r.data_type@),
        int_outcome("numeric_precision"@, l.numeric_precision, r.numeric_precision),
        int_outcome(
            "numeric_precision_radix"@,
            l.numeric_precision_radix,
            r.numeric_precision_radix,
        ),
        int_outcome("numeric_scale"@, l.numeric_scale, r.numeric_scale),
        text_outcome("start_value"@, l.start_value@, r.start_value@),
        text_outcome("minimum_value"@, l.minimum_value@, r.minimum_value@),
        text_outcome("maximum_value"@, l.maximum_value@, r.maximum_value@),
        text_outcome("increment"@, l.increment@, r.increment@),
        text_outcome("cycle_option"@, l.cycle_option@, r.cycle_option@),
    ]
}

/// The property comparisons of two tables, in order.
pub open spec fn table_outcomes(l: Table, r: Table) -> Seq<PropertyOutcome> {
    seq![
        text_outcome("table_catalog"@, l.table_catalog@, r.table_catalog@),
        text_outcome("table_schema"@, l.table_schema@, r.table_schema@),
        text_outcome("table_name"@, l.table_name@, r.table_name@),
        text_outcome("table_type"@, l.table_type@, r.table_type@),
        option_outcome(
            "self_referencing_column_name"@,
            l.self_referencing_column_name,
            r.self_referencing_column_name,
        ),
        option_outcome("reference_generation"@, l.reference_generation, r.reference_generation),
        option_outcome(
            "user_defined_type_catalog"@,
            l.user_defined_type_catalog,
            r.user_defined_type_catalog,
        ),
        option_outcome(
            "user_defined_type_schema"@,
            l.user_defined_type_schema,
            r.user_defined_type_schema,
        ),
        option_outcome(
            "user_defined_type_name"@,
            l.user_defined_type_name,
            r.user_defined_type_name,
        ),
        text_outcome("is_insertable_into"@, l.is_insertable_into@, r.is_insertable_into@),
        text_outcome("is_typed"@, l.is_typed@, r.is_typed@),
        option_outcome("commit_action"@, l.commit_action, r.commit_action),
    ]
}

/// The property comparisons of two columns, in order; the ordinal position comes last,
/// and only without `ignore_column_ordinal`.
pub open spec fn table_column_outcomes(
    l: Column,
    r: Column,
    ignore_column_ordinal: bool,
) -> Seq<PropertyOutcome> {
    let base = seq![
        option_outcome("column_default"@, l.column_default, r.column_default),
        text_outcome("is_nullable"@, l.is_nullable@, r.is_nullable@),
        text_outcome("data_type"@, l.data_type@, r.data_type@),
        option_int_outcome(
            "character_maximum_length"@,
            l.character_maximum_length,
            r.character_maximum_length,
        ),
        option_int_outcome(
            "character_octet_length"@,
            l.character_octet_length,
            r.character_octet_length,
        ),
        option_int_outcome("numeric_precision"@, l.numeric_precision, r.numeric_precision),
        option_int_outcome(
            "numeric_precision_radix"@,
            l.numeric_precision_radix,
            r.numeric_precision_radix,
        ),
        option_int_outcome("numeric_scale"@, l.numeric_scale, r.numeric_scale),
        option_int_outcome("datetime_precision"@, l.datetime_precision, r.datetime_precision),
        option_outcome("interval_type"@, l.interval_type, r.interval_type),
        option_int_outcome("interval_precision"@, l.interval_precision, r.interval_precision),
        option_outcome("character_set_catalog"@, l.character_set_catalog, r.character_set_catalog),
        option_outcome("character_set_schema"@, l.character_set_schema, r.character_set_schema),
        option_outcome("character_set_name"@, l.character_set_name, r.character_set_name),
        option_outcome("collation_catalog"@, l.collation_catalog, r.collation_catalog),
        option_outcome("collation_schema"@, l.collation_schema, r.collation_schema),
        option_outcome("collation_name"@, l.collation_name, r.collation_name),
        option_outcome("domain_catalog"@, l.domain_catalog, r.domain_catalog),
        option_outcome("domain_schema"@, l.domain_schema, r.domain_schema),
        option_outcome("domain_name"@, l.domain_name, r.domain_name),
        option_outcome("udt_catalog"@, l.udt_catalog, r.udt_catalog),
        option_outcome("udt_schema"@, l.udt_schema, r.udt_schema),
        option_outcome("udt_name"@, l.udt_name, r.udt_name),
        option_outcome("scope_catalog"@, l.scope_catalog, r.scope_catalog),
        option_outcome("scope_schema"@, l.scope_schema, r.scope_schema),
        option_outcome("scope_name"@, l.scope_name, r.scope_name),
        option_int_outcome("maximum_cardinality"@, l.maximum_cardinality, r.maximum_cardinality),
        option_outcome("dtd_identifier"@, l.dtd_identifier, r.dtd_identifier),
        text_outcome("is_self_referencing"@, l.is_self_referencing@, r.is_self_referencing@),
        text_outcome("is_identity"@, l.is_identity@, r.is_identity@),
        option_outcome("identity_generation"@, l.identity_generation, r.identity_generation),
        option_outcome("identity_start"@, l.identity_start, r.identity_start),
        option_outcome("identity_increment"@, l.identity_increment, r.identity_increment),
        option_outcome("identity_maximum"@, l.identity_maximum, r.identity_maximum),
        option_outcome("identity_minimum"@, l.identity_minimum, r.identity_minimum),
        option_outcome("identity_cycle"@, l.identity_cycle, r.identity_cycle),
        text_outcome("is_generated"@, l.is_generated@, r.is_generated@),
        option_outcome("generation_expression"@, l.generation_expression, r.generation_expression),
        text_outcome("is_updatable"@, l.is_updatable@, r.is_updatable@),
    ];
    if ignore_column_ordinal {
        base
    } else {
        base.push(int_outcome("ordinal_position"@, l.ordinal_position, r.ordinal_position))
    }
}

/// The property comparisons of two table constraints, in order.
pub open spec fn table_constraint_outcomes(
    l: TableConstraint,
    r: TableConstraint,
) -> Seq<PropertyOutcome> {
    seq![
        text_outcome("constraint_catalog"@, l.constraint_catalog@, r.constraint_catalog@),
        text_outcome("constraint_schema"@, l.constraint_schema@, r.constraint_schema@),
        text_outcome("table_name"@, l.table_name@, r.table_name@),
        text_outcome("constraint_type"@, l.constraint_type@, r.constraint_type@),
        text_outcome("is_deferrable"@, l.is_deferrable@, r.is_deferrable@),
        text_outcome("initially_deferred"@, l.initially_deferred@, r.initially_deferred@),
        text_outcome("enforced"@, l.enforced@, r.enforced@),
        option_outcome("nulls_distinct"@, l.nulls_distinct, r.nulls_distinct),
    ]
}

/// The property comparisons of two indices: their definitions.
pub open spec fn table_index_outcomes(l: Index, r: Index) -> Seq<PropertyOutcome> {
    seq![
        text_outcome("definition"@, l.definition@, r.definition@),
    ]
}

/// The property comparisons of two triggers, in order.
pub open spec fn trigger_outcomes(l: TableTrigger, r: TableTrigger) -> Seq<PropertyOutcome> {
    seq![
        text_outcome("trigger_catalog"@, l.trigger_catalog@, r.trigger_catalog@),
        text_outcome("trigger_schema"@, l.trigger_schema@, r.trigger_schema@),
        int_outcome("action_order"@, l.action_order, r.action_order),
        option_outcome("action_condition"@, l.action_condition, r.action_condition),
        text_outcome("action_statement"@, l.action_statement@, r.action_statement@),
        text_outcome("action_orientation"@, l.action_orientation@, r.action_orientation@),
        text_outcome("action_timing"@, l.action_timing@, r.action_timing@),
        option_outcome(
            "action_reference_old_table"@,
            l.action_reference_old_table,
            r.action_reference_old_table,
        ),
        option_outcome(
            "action_reference_new_table"@,
            l.action_reference_new_table,
            r.action_reference_new_table,
        ),
    ]
}

/// The property comparisons of two views, in order; with `ignore_whitespace` their
/// definitions are compared up to whitespace.
pub open spec fn view_outcomes(
    l: ViewRow,
    r: ViewRow,
    ignore_whitespace: bool,
) -> Seq<PropertyOutcome> {
    seq![
        if ignore_whitespace {
            option_outcome_ignore_whitespace(
                "view_definition"@,
                l.view_definition,
                r.view_definition,
            )
        } else {
            option_outcome("view_definition"@, l.view_definition, r.view_definition)
        },
        text_outcome("check_option"@, l.check_option@, r.check_option@),
        text_outcome("is_updatable"@, l.is_updatable@, r.is_updatable@),
        text_outcome("is_insertable_into"@, l.is_insertable_into@, r.is_insertable_into@),
        text_outcome("is_trigger_updatable"@, l.is_trigger_updatable@, r.is_trigger_updatable@),
        text_outcome("is_trigger_deletable"@, l.is_trigger_deletable@, r.is_trigger_deletable@),
        text_outcome(
            "is_trigger_insertable_into"@,
            l.is_trigger_insertable_into@,
            r.is_trigger_insertable_into@,
        ),
    ]
}

impl Comparer {
    pub fn compare_schema_properties(&self, left: &Schema, right: &Schema) -> (r: Report<
        PropertyComparison,
    >)
        ensures
            outcomes(r) == schema_outcomes(*left, *right),
    {
        let r = Report {
            entries: vec![
                compare_property("schema_owner", &left.schema_owner, &right.schema_owner),
                compare_option_property(
                    "default_character_set_catalog",
                    &left.default_character_set_catalog,
                    &right.default_character_set_catalog,
                ),
                compare_option_property(
                    "default_character_set_schema",
                    &left.default_character_set_schema,
                    &right.default_character_set_schema,
                ),
                compare_option_property(
                    "default_character_set_name",
                    &left.default_character_set_name,
                    &right.default_character_set_name,
                ),
            ],
        };
        assert(outcomes(r) =~= schema_outcomes(*left, *right));
        r
    }

    pub fn compare_routine_properties(&self, left: &Routine, right: &Routine) -> (r: Report<
        PropertyComparison,
    >)
        ensures
            outcomes(r) == routine_outcomes(*left, *right, self.ignore_whitespace),
    {
        let r = Report {
            entries: vec![
                compare_option_property("routine_type", &left.routine_type, &right.routine_type),
                compare_option_property(
                    "module_catalog",
                    &left.module_catalog,
                    &right.module_catalog,
                ),
                compare_option_property(
                    "module_schema",
                    &left.module_schema,
                    &right.module_schema,
                ),
                compare_option_property("module_name", &left.module_name, &right.module_name),
                compare_option_property("udt_catalog", &left.udt_catalog, &right.udt_catalog),
                compare_option_property("udt_schema", &left.udt_schema, &right.udt_schema),
                compare_option_property("udt_name", &left.udt_name, &right.udt_name),
                compare_option_property("data_type", &left.data_type, &right.data_type),
                compare_option_int_property(
                    "character_maximum_length",
                    left.character_maximum_length,
                    right.character_maximum_length,
                ),
                compare_option_int_property(
                    "character_octet_length",
                    left.character_octet_length,
                    right.character_octet_length,
                ),
                compare_option_property(
                    "character_set_catalog",
                    &left.character_set_catalog,
                    &right.character_set_catalog,
                ),
                compare_option_property(
                    "character_set_schema",
                    &left.character_set_schema,
                    &right.character_set_schema,
                ),
                compare_option_property(
                    "character_set_name",
                    &left.character_set_name,
                    &right.character_set_name,
                ),
                compare_option_property(
                    "collation_catalog",
                    &left.collation_catalog,
                    &right.collation_catalog,
                ),
                compare_option_property(
                    "collation_schema",
                    &left.collation_schema,
                    &right.collation_schema,
                ),
                compare_option_property(
                    "collation_name",
                    &left.collation_name,
                    &right.collation_name,
                ),
                compare_option_int_property(
                    "numeric_precision",
                    left.numeric_precision,
                    right.numeric_precision,
                ),
                compare_option_int_property(
                    "numeric_precision_radix",
                    left.numeric_precision_radix,
                    right.numeric_precision_radix,
                ),
                compare_option_int_property(
                    "numeric_scale",
                    left.numeric_scale,
                    right.numeric_scale,
                ),
                compare_option_int_property(
                    "datetime_precision",
                    left.datetime_precision,
                    right.datetime_precision,
                ),
                compare_option_property(
                    "interval_type",
                    &left.interval_type,
                    &right.interval_type,
                ),
                compare_option_int_property(
                    "interval_precision",
                    left.interval_precision,
                    right.interval_precision,
                ),
                compare_option_property(
                    "type_udt_catalog",
                    &left.type_udt_catalog,
                    &right.type_udt_catalog,
                ),
                compare_option_property(
                    "type_udt_schema",
                    &left.type_udt_schema,
                    &right.type_udt_schema,
                ),
                compare_option_property(
                    "type_udt_name",
                    &left.type_udt_name,
                    &right.type_udt_name,
                ),
                compare_option_int_property(
                    "maximum_cardinality",
                    left.maximum_cardinality,
                    right.maximum_cardinality,
                ),
                compare_option_property(
                    "dtd_identifier",
                    &left.dtd_identifier,
                    &right.dtd_identifier,
                ),
                compare_property("routine_body", &left.routine_body, &right.routine_body),
                if self.ignore_whitespace {
                    compare_option_property_ignore_whitespace(
                        "routine_definition",
                        &left.routine_definition,
                        &right.routine_definition,
                    )
                } else {
                    compare_option_property(
                        "routine_definition",
                        &left.routine_definition,
                        &right.routine_definition,
                    )
                },
                compare_option_property(
                    "external_name",
                    &left.external_name,
                    &right.external_name,
                ),
                compare_property(
                    "external_language",
                    &left.external_language,
                    &right.external_language,
                ),
                compare_property("parameter_style", &left.parameter_style, &right.parameter_style),
                compare_property(
                    "is_deterministic",
                    &left.is_deterministic,
                    &right.is_deterministic,
                ),
                compare_property("sql_data_access", &left.sql_data_access, &right.sql_data_access),
                compare_option_property("is_null_call", &left.is_null_call, &right.is_null_call),
                compare_option_property("sql_path", &left.sql_path, &right.sql_path),
                compare_property(
                    "schema_level_routine",
                    &left.schema_level_routine,
                    &right.schema_level_routine,
                ),
                compare_option_int_property(
                    "max_dynamic_result_sets",
                    left.max_dynamic_result_sets,
                    right.max_dynamic_result_sets,
                ),
                compare_option_property(
                    "is_user_defined_cast",
                    &left.is_user_defined_cast,
                    &right.is_user_defined_cast,
                ),
                compare_option_property(
                    "is_implicitly_invocable",
                    &left.is_implicitly_invocable,
                    &right.is_implicitly_invocable,
                ),
                compare_property("security_type", &left.security_type, &right.security_type),
            ],
        };
        assert(outcomes(r) =~= routine_outcomes(*left, *right, self.ignore_whitespace));
        r
    }

    pub fn compare_sequence_properties(&self, left: &Sequence, right: &Sequence) -> (r: Report<
        PropertyComparison,
    >)
        ensures
            outcomes(r) == sequence_outcomes(*left, *right),
    {
        let r = Report {
            entries: vec![
                compare_property(
                    "sequence_catalog",
                    &left.sequence_catalog,
                    &right.sequence_catalog,
                ),
                compare_property("sequence_schema", &left.sequence_schema, &right.sequence_schema),
                compare_property("sequence_name", &left.sequence_name, &right.sequence_name),
                compare_property("data_type", &left.data_type, &right.data_type),
                compare_int_property(
                    "numeric_precision",
                    left.numeric_precision,
                    right.numeric_precision,
                ),
                compare_int_property(
                    "numeric_precision_radix",
                    left.numeric_precision_radix,
                    right.numeric_precision_radix,
                ),
                compare_int_property("numeric_scale", left.numeric_scale, right.numeric_scale),
                compare_property("start_value", &left.start_value, &right.start_value),
                compare_property("minimum_value", &left.minimum_value, &right.minimum_value),
                compare_property("maximum_value", &left.maximum_value, &right.maximum_value),
                compare_property("increment", &left.increment, &right.increment),
                compare_property("cycle_option", &left.cycle_option, &right.cycle_option),
            ],
        };
        assert(outcomes(r) =~= sequence_outcomes(*left, *right));
        r
    }

    pub fn compare_table_properties(&self, left: &Table, right: &Table) -> (r: Report<
        PropertyComparison,
    >)
        ensures
            outcomes(r) == table_outcomes(*left, *right),
    {
        let r = Report {
            entries: vec![
                compare_property("table_catalog", &left.table_catalog, &right.table_catalog),
                compare_property("table_schema", &left.table_schema, &right.table_schema),
                compare_property("table_name", &left.table_name, &right.table_name),
                compare_property("table_type", &left.table_type, &right.table_type),
                compare_option_property(
                    "self_referencing_column_name",
                    &left.self_referencing_column_name,
                    &right.self_referencing_column_name,
                ),
                compare_option_property(
                    "reference_generation",
                    &left.reference_generation,
                    &right.reference_generation,
                ),
                compare_option_property(
                    "user_defined_type_catalog",
                    &left.user_defined_type_catalog,
                    &right.user_defined_type_catalog,
                ),
                compare_option_property(
                    "user_defined_type_schema",
                    &left.user_defined_type_schema,
                    &right.user_defined_type_schema,
                ),
                compare_option_property(
                    "user_defined_type_name",
                    &left.user_defined_type_name,
                    &right.user_defined_type_name,
                ),
                compare_property(
                    "is_insertable_into",
                    &left.is_insertable_into,
                    &right.is_insertable_into,
                ),
                compare_property("is_typed", &left.is_typed, &right.is_typed),
                compare_option_property(
                    "commit_action",
                    &left.commit_action,
                    &right.commit_action,
                ),
            ],
        };
        assert(outcomes(r) =~= table_outcomes(*left, *right));
        r
    }

    pub fn compare_table_column_properties(&self, left: &Column, right: &Column) -> (r: Report<
        PropertyComparison,
    >)
        ensures
            outcomes(r) == table_column_outcomes(*left, *right, self.ignore_column_ordinal),
    {
        let mut entries = vec![
            compare_option_property("column_default", &left.column_default, &right.column_default),
            compare_property("is_nullable", &left.is_nullable, &right.is_nullable),
            compare_property("data_type", &left.data_type, &right.data_type),
            compare_option_int_property(
                "character_maximum_length",
                left.character_maximum_length,
                right.character_maximum_length,
            ),
            compare_option_int_property(
                "character_octet_length",
                left.character_octet_length,
                right.character_octet_length,
            ),
            compare_option_int_property(
                "numeric_precision",
                left.numeric_precision,
                right.numeric_precision,
            ),
            compare_option_int_property(
                "numeric_precision_radix",
                left.numeric_precision_radix,
                right.numeric_precision_radix,
            ),
            compare_option_int_property("numeric_scale", left.numeric_scale, right.numeric_scale),
            compare_option_int_property(
                "datetime_precision",
                left.datetime_precision,
                right.datetime_precision,
            ),
            compare_option_property("interval_type", &left.interval_type, &right.interval_type),
            compare_option_int_property(
                "interval_precision",
                left.interval_precision,
                right.interval_precision,
            ),
            compare_option_property(
                "character_set_catalog",
                &left.character_set_catalog,
                &right.character_set_catalog,
            ),
            compare_option_property(
                "character_set_schema",
                &left.character_set_schema,
                &right.character_set_schema,
            ),
            compare_option_property(
                "character_set_name",
                &left.character_set_name,
                &right.character_set_name,
            ),
            compare_option_property(
                "collation_catalog",
                &left.collation_catalog,
                &right.collation_catalog,
            ),
            compare_option_property(
                "collation_schema",
                &left.collation_schema,
                &right.collation_schema,
            ),
            compare_option_property("collation_name", &left.collation_name, &right.collation_name),
            compare_option_property("domain_catalog", &left.domain_catalog, &right.domain_catalog),
            compare_option_property("domain_schema", &left.domain_schema, &right.domain_schema),
            compare_option_property("domain_name", &left.domain_name, &right.domain_name),
            compare_option_property("udt_catalog", &left.udt_catalog, &right.udt_catalog),
            compare_option_property("udt_schema", &left.udt_schema, &right.udt_schema),
            compare_option_property("udt_name", &left.udt_name, &right.udt_name),
            compare_option_property("scope_catalog", &left.scope_catalog, &right.scope_catalog),
            compare_option_property("scope_schema", &left.scope_schema, &right.scope_schema),
            compare_option_property("scope_name", &left.scope_name, &right.scope_name),
            compare_option_int_property(
                "maximum_cardinality",
                left.maximum_cardinality,
                right.maximum_cardinality,
            ),
            compare_option_property("dtd_identifier", &left.dtd_identifier, &right.dtd_identifier),
            compare_property(
                "is_self_referencing",
                &left.is_self_referencing,
                &right.is_self_referencing,
            ),
            compare_property("is_identity", &left.is_identity, &right.is_identity),
            compare_option_property(
                "identity_generation",
                &left.identity_generation,
                &right.identity_generation,
            ),
            compare_option_property("identity_start", &left.identity_start, &right.identity_start),
            compare_option_property(
                "identity_increment",
                &left.identity_increment,
                &right.identity_increment,
            ),
            compare_option_property(
                "identity_maximum",
                &left.identity_maximum,
                &right.identity_maximum,
            ),
            compare_option_property(
                "identity_minimum",
                &left.identity_minimum,
                &right.identity_minimum,
            ),
            compare_option_property("identity_cycle", &left.identity_cycle, &right.identity_cycle),
            compare_property("is_generated", &left.is_generated, &right.is_generated),
            compare_option_property(
                "generation_expression",
                &left.generation_expression,
                &right.generation_expression,
            ),
            compare_property("is_updatable", &left.is_updatable, &right.is_updatable),
        ];
        if !self.ignore_column_ordinal {
            entries.push(
                compare_int_property(
                    "ordinal_position",
                    left.ordinal_position,
                    right.ordinal_position,
                ),
            );
        }
        let r = Report { entries };
        assert(outcomes(r) =~= table_column_outcomes(*left, *right, self.ignore_column_ordinal));
        r
    }

    pub fn compare_table_constraint_properties(
        &self,
        left: &TableConstraint,
        right: &TableConstraint,
    ) -> (r: Report<
        PropertyComparison,
    >)
        ensures
            outcomes(r) == table_constraint_outcomes(*left, *right),
    {
        let r = Report {
            entries: vec![
                compare_property(
                    "constraint_catalog",
                    &left.constraint_catalog,
                    &right.constraint_catalog,
                ),
                compare_property(
                    "constraint_schema",
                    &left.constraint_schema,
                    &right.constraint_schema,
                ),
                compare_property("table_name", &left.table_name, &right.table_name),
                compare_property("constraint_type", &left.constraint_type, &right.constraint_type),
                compare_property("is_deferrable", &left.is_deferrable, &right.is_deferrable),
                compare_property(
                    "initially_deferred",
                    &left.initially_deferred,
                    &right.initially_deferred,
                ),
                compare_property("enforced", &left.enforced, &right.enforced),
                compare_option_property(
                    "nulls_distinct",
                    &left.nulls_distinct,
                    &right.nulls_distinct,
                ),
            ],
        };
        assert(outcomes(r) =~= table_constraint_outcomes(*left, *right));
        r
    }

    pub fn compare_table_index_properties(&self, left: &Index, right: &Index) -> (r: Report<
        PropertyComparison,
    >)
        ensures
            outcomes(r) == table_index_outcomes(*left, *right),
    {
        let r = Report {
            entries: vec![
                compare_property("definition", &left.definition, &right.definition),
            ],
        };
        assert(outcomes(r) =~= table_index_outcomes(*left, *right));
        r
    }

    pub fn compare_trigger_properties(
        &self,
        left: &TableTrigger,
        right: &TableTrigger,
    ) -> (r: Report<
        PropertyComparison,
    >)
        ensures
            outcomes(r) == trigger_outcomes(*left, *right),
    {
        let r = Report {
            entries: vec![
                compare_property("trigger_catalog", &left.trigger_catalog, &right.trigger_catalog),
                compare_property("trigger_schema", &left.trigger_schema, &right.trigger_schema),
                compare_int_property("action_order", left.action_order, right.action_order),
                compare_option_property(
                    "action_condition",
                    &left.action_condition,
                    &right.action_condition,
                ),
                compare_property(
                    "action_statement",
                    &left.action_statement,
                    &right.action_statement,
                ),
                compare_property(
                    "action_orientation",
                    &left.action_orientation,
                    &right.action_orientation,
                ),
                compare_property("action_timing", &left.action_timing, &right.action_timing),
                compare_option_property(
                    "action_reference_old_table",
                    &left.action_reference_old_table,
                    &right.action_reference_old_table,
                ),
                compare_option_property(
                    "action_reference_new_table",
                    &left.action_reference_new_table,
                    &right.action_reference_new_table,
                ),
            ],
        };
        assert(outcomes(r) =~= trigger_outcomes(*left, *right));
        r
    }

    pub fn compare_view_properties(&self, left: &ViewRow, right: &ViewRow) -> (r: Report<
        PropertyComparison,
    >)
        ensures
            outcomes(r) == view_outcomes(*left, *right, self.ignore_whitespace),
    {
        let r = Report {
            entries: vec![
                if self.ignore_whitespace {
                    compare_option_property_ignore_whitespace(
                        "view_definition",
                        &left.view_definition,
                        &right.view_definition,
                    )
                } else {
                    compare_option_property(
                        "view_definition",
                        &left.view_definition,
                        &right.view_definition,
                    )
                },
                compare_property("check_option", &left.check_option, &right.check_option),
                compare_property("is_updatable", &left.is_updatable, &right.is_updatable),
                compare_property(
                    "is_insertable_into",
                    &left.is_insertable_into,
                    &right.is_insertable_into,
                ),
                compare_property(
                    "is_trigger_updatable",
                    &left.is_trigger_updatable,
                    &right.is_trigger_updatable,
                ),
                compare_property(
                    "is_trigger_deletable",
                    &left.is_trigger_deletable,
                    &right.is_trigger_deletable,
                ),
                compare_property(
                    "is_trigger_insertable_into",
                    &left.is_trigger_insertable_into,
                    &right.is_trigger_insertable_into,
                ),
            ],
        };
        assert(outcomes(r) =~= view_outcomes(*left, *right, self.ignore_whitespace));
        r
    }
}

} // verus!
