use schema_compare::cli::{Args, Colouring, Line, Mark, Subject, CLI};
use schema_compare::report::{
    PrivilegeComparison, PropertyComparison, Report, SchemaComparison, TableComparison,
};

fn cli(verbose: bool) -> CLI {
    CLI {
        args: Args {
            left: "postgres://left".to_string(),
            right: "postgres://right".to_string(),
            schema: vec!["public".to_string()],
            ignore_whitespace: false,
            ignore_column_ordinal: false,
            ignore_privileges: false,
            verbose,
            color: Colouring::Never,
        },
    }
}

fn table(name: &str, changed_property: bool) -> TableComparison {
    let property = if changed_property {
        PropertyComparison::PropertyChanged {
            property_name: "table_type".to_string(),
            left_value: "BASE TABLE".to_string(),
            right_value: "VIEW".to_string(),
        }
    } else {
        PropertyComparison::PropertyUnchanged { property_name: "table_type".to_string(), value: "BASE TABLE".to_string() }
    };
    TableComparison::TableMaintained {
        table_name: name.to_string(),
        columns: Report { entries: vec![] },
        constraints: Report { entries: vec![] },
        indices: Report { entries: vec![] },
        privileges: Report {
            entries: vec![PrivilegeComparison::PrivilegeMaintained {
                privilege_name: "SELECT".to_string(),
                grantor: "postgres".to_string(),
                grantee: "reader".to_string(),
            }],
        },
        properties: Report { entries: vec![property] },
        triggers: Report { entries: vec![] },
    }
}

fn schema_report(tables: Vec<TableComparison>) -> Report<SchemaComparison> {
    Report {
        entries: vec![SchemaComparison::SchemaMaintained {
            schema_name: "public".to_string(),
            properties: Report { entries: vec![] },
            routines: Report { entries: vec![] },
            sequences: Report { entries: vec![] },
            tables: Report { entries: tables },
            views: Report { entries: vec![] },
        }],
    }
}

#[test]
fn quiet_report_shows_only_differences() {
    let report = schema_report(vec![
        table("kept", false),
        table("altered", true),
        TableComparison::TableAdded { table_name: "fresh".to_string() },
    ]);
    let mut lines = Vec::new();
    let differences = cli(false).render_schema_report(&report, &mut lines);
    assert_eq!(differences, 2);
    assert_eq!(
        lines,
        vec![
            Line { depth: 0, mark: Mark::Heading, subject: Subject::Schema { name: "public".to_string() } },
            Line { depth: 1, mark: Mark::Heading, subject: Subject::Table { name: "altered".to_string() } },
            Line {
                depth: 2,
                mark: Mark::Changed,
                subject: Subject::Property {
                    name: "table_type".to_string(),
                    left: "BASE TABLE".to_string(),
                    right: "VIEW".to_string(),
                },
            },
            Line { depth: 1, mark: Mark::Added, subject: Subject::Table { name: "fresh".to_string() } },
        ]
    );
}

#[test]
fn verbose_report_shows_unchanged_items() {
    let report = schema_report(vec![table("kept", false)]);
    let mut lines = Vec::new();
    let differences = cli(true).render_schema_report(&report, &mut lines);
    assert_eq!(differences, 0);
    let marks: Vec<Mark> = lines.iter().map(|l| l.mark).collect();
    assert_eq!(marks, vec![Mark::Unchanged, Mark::Unchanged, Mark::Unchanged, Mark::Unchanged]);
    assert_eq!(lines[3].depth, 2);
    let mut quiet = Vec::new();
    assert_eq!(cli(false).render_schema_report(&report, &mut quiet), 0);
    assert!(quiet.is_empty());
}

#[test]
fn missing_schema_counts_once() {
    let report = Report {
        entries: vec![
            SchemaComparison::SchemaMissing { schema_name: "nowhere".to_string() },
            SchemaComparison::SchemaRemoved { schema_name: "old".to_string() },
        ],
    };
    let mut lines = Vec::new();
    assert_eq!(cli(false).render_schema_report(&report, &mut lines), 2);
    assert_eq!(lines[0].mark, Mark::Missing);
    assert_eq!(lines[1].mark, Mark::Removed);
}

#[test]
fn privilege_lines_count_additions_and_removals() {
    let report = Report {
        entries: vec![
            PrivilegeComparison::PrivilegeAdded {
                privilege_name: "INSERT".to_string(),
                grantor: "postgres".to_string(),
                grantee: "writer".to_string(),
            },
            PrivilegeComparison::PrivilegeRemoved {
                privilege_name: "DELETE".to_string(),
                grantor: "postgres".to_string(),
                grantee: "admin".to_string(),
            },
        ],
    };
    let mut lines = Vec::new();
    assert_eq!(cli(false).render_privilege_report(&report, 3, &mut lines), 2);
    assert!(lines.iter().all(|l| l.depth == 3));
}
