use shuffle_exchange::batch::{MicroPartition, Row};
use shuffle_exchange::expr::Expr;
use shuffle_exchange::schema::{Field, Schema};
use shuffle_exchange::{ShuffleSink, ShuffleSource};

fn layout() -> Schema {
    Schema::new(vec![
        Field::new("id".to_string(), "Int64".to_string()),
        Field::new("name".to_string(), "Utf8".to_string()),
        Field::new("id2".to_string(), "Int64".to_string()),
    ])
}

#[test]
fn source_yields_one_empty_batch_of_its_layout() {
    let source = ShuffleSource::new(layout());
    let batches = source.get_data(true).unwrap();
    assert_eq!(batches.len(), 1);
    assert_eq!(batches[0].schema(), &layout());
    assert_eq!(batches[0].len(), 0);
    assert_eq!(batches[0], MicroPartition::empty(layout()));
}

#[test]
fn source_does_not_read_the_ordering_hint() {
    let source = ShuffleSource::new(layout());
    assert_eq!(source.get_data(true).unwrap(), source.get_data(false).unwrap());
}

#[test]
fn source_yields_the_same_again() {
    let source = ShuffleSource::new(layout());
    let first = source.get_data(false).unwrap();
    let second = source.get_data(false).unwrap();
    assert_eq!(first, second);
    assert_eq!(second.len(), 1);
}

#[test]
fn source_of_the_layout_without_columns_yields_one_batch() {
    let source = ShuffleSource::new(Schema::empty());
    let batches = source.get_data(false).unwrap();
    assert_eq!(batches, vec![MicroPartition::empty(Schema::empty())]);
    assert_eq!(batches[0].schema().len(), 0);
}

#[test]
fn source_declares_the_layout_it_was_given() {
    let source = ShuffleSource::new(layout());
    assert_eq!(source.schema(), &layout());
    assert_eq!(source.schema().len(), 3);
    assert_eq!(source.schema().fields()[1], Field::new("name".to_string(), "Utf8".to_string()));
}

#[test]
fn source_batch_has_the_layout_of_the_sinks_input() {
    let sink = ShuffleSink::new(vec![Expr::new("col(id)".to_string())], layout());
    let source = ShuffleSource::new(layout());
    let input = MicroPartition::new(layout(), vec![Row { key: 1, value: 2 }]);
    let state = sink.make_state(Ok(())).unwrap();
    let produced = source.get_data(false).unwrap();
    assert_eq!(produced.len(), 1);
    assert_eq!(produced[0].schema(), input.schema());
    assert!(sink.sink(input, state, Ok(())).is_ok());
}

#[test]
fn batch_keeps_its_rows_in_order() {
    let rows = vec![Row { key: 3, value: 1 }, Row { key: 1, value: 2 }, Row { key: 3, value: 1 }];
    let batch = MicroPartition::new(layout(), rows.clone());
    assert_eq!(batch.rows(), &rows);
    assert_eq!(batch.len(), 3);
    assert_eq!(batch.clone(), batch);
}

#[test]
fn schema_clone_keeps_columns_and_order() {
    let schema = layout();
    let copy = schema.clone();
    assert_eq!(copy, schema);
    assert_eq!(copy.fields()[0].name, "id");
    assert_eq!(copy.fields()[2].name, "id2");
}
