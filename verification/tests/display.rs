use shuffle_exchange::expr::Expr;
use shuffle_exchange::schema::{Field, Schema};
use shuffle_exchange::sink::ShuffleSink;
use shuffle_exchange::source::ShuffleSource;

fn layout() -> Schema {
    Schema::new(vec![
        Field::new("id".to_string(), "Int64".to_string()),
        Field::new("name".to_string(), "Utf8".to_string()),
    ])
}

#[test]
fn sink_is_named() {
    let sink = ShuffleSink::new(vec![], Schema::empty());
    assert_eq!(sink.name(), "ShuffleSink");
}

#[test]
fn source_is_named() {
    let source = ShuffleSource::new(Schema::empty());
    assert_eq!(source.name(), "ShuffleSource");
}

#[test]
fn sink_display_names_the_partition_expressions_in_order() {
    let sink = ShuffleSink::new(
        vec![
            Expr::new("col(a)".to_string()),
            Expr::new("col(b) + 1".to_string()),
            Expr::new("hash(c)".to_string()),
        ],
        layout(),
    );
    assert_eq!(
        sink.multiline_display(),
        vec!["ShuffleSink: Partition by = col(a), col(b) + 1, hash(c)".to_string()]
    );
}

#[test]
fn sink_display_of_one_expression_has_no_separator() {
    let sink = ShuffleSink::new(vec![Expr::new("col(a)".to_string())], layout());
    assert_eq!(
        sink.multiline_display(),
        vec!["ShuffleSink: Partition by = col(a)".to_string()]
    );
}

#[test]
fn sink_display_without_expressions_ends_after_the_heading() {
    let sink = ShuffleSink::new(vec![], layout());
    assert_eq!(
        sink.multiline_display(),
        vec!["ShuffleSink: Partition by = ".to_string()]
    );
}

#[test]
fn source_display_shows_the_layout() {
    let source = ShuffleSource::new(layout());
    assert_eq!(
        source.multiline_display(),
        vec!["ShuffleSource:".to_string(), "Schema = id#Int64, name#Utf8".to_string()]
    );
}

#[test]
fn source_display_of_the_layout_without_columns() {
    let source = ShuffleSource::new(Schema::empty());
    assert_eq!(
        source.multiline_display(),
        vec!["ShuffleSource:".to_string(), "Schema = ".to_string()]
    );
}

#[test]
fn schema_short_string_joins_the_columns() {
    assert_eq!(layout().short_string(), "id#Int64, name#Utf8");
    assert_eq!(Schema::empty().short_string(), "");
    let one = Schema::new(vec![Field::new("x".to_string(), "Boolean".to_string())]);
    assert_eq!(one.short_string(), "x#Boolean");
}

#[test]
fn field_short_string_is_name_then_type() {
    let field = Field::new("price".to_string(), "Float64".to_string());
    assert_eq!(field.short_string(), "price#Float64");
}

#[test]
fn expression_text_is_kept() {
    let expr = Expr::new("col(a) % 4".to_string());
    assert_eq!(expr.to_text(), "col(a) % 4");
    assert_eq!(expr.clone(), expr);
}
