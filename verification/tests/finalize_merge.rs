use shuffle_exchange::batch::{MicroPartition, Row};
use shuffle_exchange::cache::ShuffleCache;
use shuffle_exchange::error::{ShuffleError, TaskFailure};
use shuffle_exchange::expr::Expr;
use shuffle_exchange::schema::Schema;
use shuffle_exchange::sink::{
    BlockingSinkState, BlockingSinkStatus, FinalizedShuffle, LaneOutcome, ShuffleSink,
};

fn row(key: u64, value: u64) -> Row {
    Row { key, value }
}

fn keyed_sink() -> ShuffleSink {
    ShuffleSink::new(vec![Expr::new("col(k)".to_string())], Schema::empty())
}

/// Plays the write cache with one partition per key below `partitions`.
fn bucket_by_key(batches: &[Vec<Row>], partitions: usize) -> ShuffleCache {
    let mut buckets: Vec<Vec<Row>> = vec![Vec::new(); partitions];
    for rows in batches {
        for r in rows {
            buckets[(r.key as usize) % partitions].push(*r);
        }
    }
    ShuffleCache::new(buckets)
}

/// Runs one lane: sinks its batches in order, then closes it.
fn run_lane(sink: &ShuffleSink, batches: &[Vec<Row>], partitions: usize) -> LaneOutcome {
    let mut state = sink.make_state(Ok(())).unwrap();
    for rows in batches {
        let input = MicroPartition::new(Schema::empty(), rows.clone());
        state = match sink.sink(input, state, Ok(())).unwrap() {
            BlockingSinkStatus::NeedMoreInput(state) => state,
            BlockingSinkStatus::Finished(_) => panic!("the sink never has enough input"),
        };
    }
    let lane = match &mut state {
        BlockingSinkState::Shuffle(lane) => lane,
        BlockingSinkState::Other => panic!("expected a shuffle lane"),
    };
    assert!(!lane.is_closed());
    LaneOutcome::Completed(lane.finalize(Ok(bucket_by_key(batches, partitions))))
}

fn sorted(mut rows: Vec<Row>) -> Vec<(u64, u64)> {
    rows.sort_by_key(|r| (r.key, r.value));
    rows.into_iter().map(|r| (r.key, r.value)).collect()
}

#[test]
fn two_lanes_share_the_bucket_of_a_common_key() {
    let sink = keyed_sink();
    let lane_a = run_lane(&sink, &[vec![row(1, 10), row(2, 20)]], 4);
    let lane_b = run_lane(&sink, &[vec![row(2, 21), row(3, 30)]], 4);
    let done = sink.finalize(vec![lane_a, lane_b]).unwrap();
    assert_eq!(done.output, None);
    assert_eq!(done.artifact.num_partitions(), 4);
    assert_eq!(done.artifact.rows(0), vec![]);
    assert_eq!(done.artifact.rows(1), vec![row(1, 10)]);
    assert_eq!(done.artifact.rows(2), vec![row(2, 20), row(2, 21)]);
    assert_eq!(done.artifact.rows(3), vec![row(3, 30)]);
    let total: usize = done.artifact.partitions().iter().map(|rows| rows.len()).sum();
    assert_eq!(total, 4);
}

#[test]
fn finalize_without_lanes_gives_the_artifact_without_partitions() {
    let sink = keyed_sink();
    let done = sink.finalize(vec![]).unwrap();
    assert_eq!(
        done,
        FinalizedShuffle { artifact: ShuffleCache::new(vec![]), output: None }
    );
    assert_eq!(done.artifact.num_partitions(), 0);
    assert_eq!(done.artifact.rows(0), vec![]);
}

#[test]
fn finalize_of_one_lane_is_that_lanes_cache() {
    let sink = keyed_sink();
    let lane = run_lane(&sink, &[vec![row(0, 1)], vec![row(1, 2), row(0, 3)]], 2);
    let done = sink.finalize(vec![lane]).unwrap();
    assert_eq!(
        done.artifact,
        ShuffleCache::new(vec![vec![row(0, 1), row(0, 3)], vec![row(1, 2)]])
    );
}

#[test]
fn finalize_fails_when_one_lanes_close_fails() {
    let sink = keyed_sink();
    let lanes = vec![
        run_lane(&sink, &[vec![row(1, 10)]], 2),
        LaneOutcome::Completed(Err(ShuffleError::Storage("flush failed".to_string()))),
        run_lane(&sink, &[vec![row(0, 11)]], 2),
    ];
    assert_eq!(
        sink.finalize(lanes),
        Err(ShuffleError::Storage("flush failed".to_string()))
    );
}

#[test]
fn finalize_fails_when_the_last_lane_fails() {
    let sink = keyed_sink();
    let lanes = vec![
        run_lane(&sink, &[vec![row(1, 10)]], 2),
        run_lane(&sink, &[vec![row(0, 11)]], 2),
        LaneOutcome::Completed(Err(ShuffleError::Storage("seal failed".to_string()))),
    ];
    assert_eq!(
        sink.finalize(lanes),
        Err(ShuffleError::Storage("seal failed".to_string()))
    );
}

#[test]
fn finalize_fails_when_a_lanes_task_panicked() {
    let sink = keyed_sink();
    let lanes = vec![
        run_lane(&sink, &[vec![row(1, 10)]], 2),
        LaneOutcome::Aborted(TaskFailure::Panicked),
    ];
    assert_eq!(
        sink.finalize(lanes),
        Err(ShuffleError::LaneTask(TaskFailure::Panicked))
    );
}

#[test]
fn finalize_fails_when_a_lanes_task_was_cancelled() {
    let sink = keyed_sink();
    let lanes = vec![LaneOutcome::Aborted(TaskFailure::Cancelled)];
    assert_eq!(
        sink.finalize(lanes),
        Err(ShuffleError::LaneTask(TaskFailure::Cancelled))
    );
}

#[test]
fn finalize_reports_the_first_failure_in_lane_order() {
    let sink = keyed_sink();
    let lanes = vec![
        run_lane(&sink, &[vec![row(1, 10)]], 2),
        LaneOutcome::Aborted(TaskFailure::Cancelled),
        LaneOutcome::Completed(Err(ShuffleError::Storage("flush failed".to_string()))),
        LaneOutcome::Completed(Err(ShuffleError::Evaluation("bad key".to_string()))),
    ];
    assert_eq!(
        sink.finalize(lanes),
        Err(ShuffleError::LaneTask(TaskFailure::Cancelled))
    );
}

#[test]
fn merge_does_not_depend_on_the_order_of_the_lanes() {
    let sink = keyed_sink();
    let batches_a = [vec![row(1, 10), row(2, 20)], vec![row(5, 50)]];
    let batches_b = [vec![row(2, 21), row(3, 30)]];
    let batches_c = [vec![row(4, 40)], vec![row(1, 11)], vec![row(2, 22)]];
    let forward = sink
        .finalize(vec![
            run_lane(&sink, &batches_a, 3),
            run_lane(&sink, &batches_b, 3),
            run_lane(&sink, &batches_c, 3),
        ])
        .unwrap();
    let backward = sink
        .finalize(vec![
            run_lane(&sink, &batches_c, 3),
            run_lane(&sink, &batches_b, 3),
            run_lane(&sink, &batches_a, 3),
        ])
        .unwrap();
    assert_eq!(forward.artifact.num_partitions(), backward.artifact.num_partitions());
    for p in 0..3 {
        assert_eq!(sorted(forward.artifact.rows(p)), sorted(backward.artifact.rows(p)));
    }
}

#[test]
fn partitions_do_not_depend_on_how_batches_are_dealt_to_lanes() {
    let sink = keyed_sink();
    let input = vec![
        vec![row(1, 10), row(2, 20), row(2, 23)],
        vec![row(3, 30)],
        vec![row(4, 40), row(1, 11)],
        vec![row(6, 60), row(7, 70), row(2, 21)],
    ];
    let partitions = 3;
    let whole = bucket_by_key(&input, partitions);

    let one_lane = sink.finalize(vec![run_lane(&sink, &input, partitions)]).unwrap();
    let two_lanes = sink
        .finalize(vec![
            run_lane(&sink, &input[..1], partitions),
            run_lane(&sink, &input[1..], partitions),
        ])
        .unwrap();
    let four_lanes = sink
        .finalize(vec![
            run_lane(&sink, &input[3..], partitions),
            run_lane(&sink, &input[..1], partitions),
            run_lane(&sink, &input[2..3], partitions),
            run_lane(&sink, &input[1..2], partitions),
        ])
        .unwrap();
    for p in 0..partitions {
        let expected = sorted(whole.rows(p));
        assert_eq!(sorted(one_lane.artifact.rows(p)), expected);
        assert_eq!(sorted(two_lanes.artifact.rows(p)), expected);
        assert_eq!(sorted(four_lanes.artifact.rows(p)), expected);
    }
}

#[test]
fn rows_of_one_lane_stay_together_in_the_merge() {
    let sink = keyed_sink();
    let lane_a = run_lane(&sink, &[vec![row(0, 1), row(0, 2)], vec![row(0, 3)]], 1);
    let lane_b = run_lane(&sink, &[vec![row(0, 4)], vec![row(0, 5)]], 1);
    let done = sink.finalize(vec![lane_a, lane_b]).unwrap();
    assert_eq!(
        done.artifact.rows(0),
        vec![row(0, 1), row(0, 2), row(0, 3), row(0, 4), row(0, 5)]
    );
}
