use mrcli::completion::{
    command_hints, completion_context, completions, normalize_sql_keyword, CompletionContext,
    CompletionKind, MAX_COMPLETIONS,
};
use mrcli::model::{ColumnMetadata, DatabaseMetadata, TableMetadata};

fn column(name: &str, data_type: &str) -> ColumnMetadata {
    ColumnMetadata { name: name.to_string(), data_type: data_type.to_string() }
}

fn metadata() -> DatabaseMetadata {
    DatabaseMetadata {
        tables: vec![TableMetadata {
            name: "actor".to_string(),
            columns: vec![column("actor_id", "smallint"), column("first_name", "varchar")],
        }],
    }
}

#[test]
fn suggests_tables_after_from() {
    let (prefix, context) = completion_context("SELECT * FROM ac");
    let items = completions(&prefix, context, Some(&metadata()));

    assert!(items.iter().any(|item| item.label == "actor"));
}

#[test]
fn suggests_columns_after_table_dot() {
    let (prefix, context) = completion_context("SELECT actor.fi");
    assert!(matches!(context, CompletionContext::TableColumn { .. }));
    let items = completions(&prefix, context, Some(&metadata()));

    assert_eq!(items.len(), 1);
    assert_eq!(items[0].label, "first_name");
    assert_eq!(items[0].detail.as_deref(), Some("varchar"));
}

#[test]
fn table_context_after_join_in_any_case() {
    let (prefix, context) = completion_context("select * from a join fi");
    assert_eq!(prefix, "fi");
    assert!(matches!(context, CompletionContext::Table));
}

#[test]
fn mixed_context_elsewhere() {
    let (prefix, context) = completion_context("SELECT co");
    assert_eq!(prefix, "co");
    assert!(matches!(context, CompletionContext::Mixed));
}

#[test]
fn dotted_prefix_names_the_table() {
    let (prefix, context) = completion_context("SELECT x FROM t WHERE actor.");
    assert_eq!(prefix, "");
    match context {
        CompletionContext::TableColumn { table } => assert_eq!(table, "actor"),
        _ => panic!("expected a table column context"),
    }
}

#[test]
fn table_items_describe_the_column_count() {
    let items = completions("ac", CompletionContext::Table, Some(&metadata()));
    assert_eq!(items[0].label, "actor");
    assert_eq!(items[0].insert_text, "actor");
    assert_eq!(items[0].kind, CompletionKind::Table);
    assert_eq!(items[0].detail.as_deref(), Some("2 cols"));
    // The keyword ALTER TABLE does not start with AC; nothing else matches.
    assert_eq!(items.len(), 1);
}

#[test]
fn mixed_items_list_tables_columns_keywords_and_functions() {
    let items = completions("", CompletionContext::Mixed, Some(&metadata()));
    assert_eq!(items.len(), MAX_COMPLETIONS);
    assert_eq!(items[0].label, "actor");
    assert_eq!(items[1].label, "actor_id");
    assert_eq!(items[1].detail.as_deref(), Some("actor.actor_id:smallint"));
    assert_eq!(items[2].label, "first_name");
    assert_eq!(items[3].label, "SELECT");
    assert_eq!(items[3].kind, CompletionKind::Keyword);
    assert_eq!(items[15].label, "CREATE TABLE");
}

#[test]
fn prefix_matching_ignores_case() {
    let items = completions("sel", CompletionContext::Mixed, None);
    assert_eq!(items.len(), 1);
    assert_eq!(items[0].label, "SELECT");
    let items = completions("m", CompletionContext::Mixed, None);
    let labels: Vec<&str> = items.iter().map(|i| i.label.as_str()).collect();
    assert_eq!(labels, vec!["MIN", "MAX"]);
    assert!(items.iter().all(|i| i.kind == CompletionKind::Function));
}

#[test]
fn every_completion_matches_the_prefix() {
    let items = completions("DE", CompletionContext::Mixed, Some(&metadata()));
    assert!(!items.is_empty());
    for item in &items {
        assert!(item.label.to_ascii_uppercase().starts_with("DE"));
    }
}

#[test]
fn unknown_table_after_dot_gives_nothing() {
    let items = completions("", CompletionContext::TableColumn { table: "film".to_string() }, Some(&metadata()));
    assert!(items.is_empty());
    let items = completions("", CompletionContext::TableColumn { table: "ACTOR".to_string() }, Some(&metadata()));
    assert_eq!(items.len(), 2);
}

#[test]
fn normalizes_known_sql_words_only() {
    assert_eq!(normalize_sql_keyword("select"), Some("SELECT"));
    assert_eq!(normalize_sql_keyword("Count"), Some("COUNT"));
    assert_eq!(normalize_sql_keyword("from"), Some("FROM"));
    assert_eq!(normalize_sql_keyword("actor"), None);
    assert_eq!(normalize_sql_keyword(""), None);
    let once = normalize_sql_keyword("gRoUp").unwrap();
    assert_eq!(normalize_sql_keyword(once), Some(once));
}

#[test]
fn command_hints_filter_by_prefix() {
    assert_eq!(command_hints(""), vec!["w", "q", "wq", "x", "run", "q!"]);
    assert_eq!(command_hints("q"), vec!["q", "q!"]);
    assert_eq!(command_hints("W"), vec!["w", "wq"]);
    assert!(command_hints("z").is_empty());
}

#[test]
fn a_longer_prefix_narrows_the_hints() {
    let all = command_hints("");
    let q = command_hints("q");
    let q_bang = command_hints("Q!");
    assert!(q.iter().all(|c| all.contains(c)));
    assert_eq!(q_bang, vec!["q!"]);
    assert!(q_bang.iter().all(|c| q.contains(c)));
    let mut seen = all.clone();
    seen.dedup();
    assert_eq!(seen.len(), all.len());
}
