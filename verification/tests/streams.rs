use mixed_pipeline::block::{BlockItem, DataBlock};
use mixed_pipeline::error::ErrorCode;
use mixed_pipeline::fanin::{branch_continues, pump_branch};
use mixed_pipeline::fanout::{distribute, route_target};
use mixed_pipeline::indexing::IndexSchemaVersion;

fn ok(num_rows: usize) -> BlockItem {
    Ok(DataBlock { num_rows })
}

fn err() -> BlockItem {
    Err(ErrorCode::UpstreamFailure)
}

#[test]
fn branch_decision_forwards_then_stops_on_error() {
    assert!(branch_continues(&ok(1)));
    assert!(!branch_continues(&err()));
}

#[test]
fn error_free_branch_is_forwarded_whole() {
    let items = vec![ok(1), ok(2), ok(3)];
    assert_eq!(pump_branch(&items), items);
}

#[test]
fn branch_forwards_its_error_then_goes_quiet() {
    let items = vec![ok(1), err(), ok(3), ok(4)];
    assert_eq!(pump_branch(&items), vec![ok(1), err()]);
}

#[test]
fn empty_branch_forwards_nothing() {
    let items: Vec<BlockItem> = Vec::new();
    assert_eq!(pump_branch(&items), Vec::new());
}

#[test]
fn routing_follows_the_arrival_counter() {
    assert_eq!(route_target(0, 3), 0);
    assert_eq!(route_target(1, 3), 1);
    assert_eq!(route_target(2, 3), 2);
    assert_eq!(route_target(3, 3), 0);
    assert_eq!(route_target(7, 3), 1);
    assert_eq!(route_target(5, 1), 0);
}

#[test]
fn round_robin_splits_positions_by_congruence() {
    let merged: Vec<BlockItem> = (1..=7).map(ok).collect();
    let out = distribute(&merged, 3);
    assert_eq!(out.len(), 3);
    assert_eq!(out[0], vec![ok(1), ok(4), ok(7)]);
    assert_eq!(out[1], vec![ok(2), ok(5)]);
    assert_eq!(out[2], vec![ok(3), ok(6)]);
}

#[test]
fn round_robin_over_one_slot_keeps_the_stream() {
    let merged: Vec<BlockItem> = (1..=4).map(ok).collect();
    let out = distribute(&merged, 1);
    assert_eq!(out.len(), 1);
    assert_eq!(out[0], merged);
}

#[test]
fn round_robin_of_empty_stream_gives_empty_slots() {
    let merged: Vec<BlockItem> = Vec::new();
    let out = distribute(&merged, 2);
    assert_eq!(out, vec![Vec::new(), Vec::new()]);
}

#[test]
fn fan_in_loses_nothing_when_no_branch_fails() {
    // Three finite upstreams, merged under one arrival schedule; the merged
    // stream must hold every upstream item exactly once.
    let a = vec![ok(11), ok(12)];
    let b = vec![ok(21)];
    let c = vec![ok(31), ok(32), ok(33)];
    let schedule = [2usize, 0, 1, 2, 0, 2];
    let mut cursors = vec![0usize; 3];
    let mut merged: Vec<BlockItem> = Vec::new();
    let branches = [&a, &b, &c];
    for &source in schedule.iter() {
        merged.push(branches[source][cursors[source]]);
        cursors[source] += 1;
    }
    assert_eq!(merged.len(), a.len() + b.len() + c.len());
    for item in a.iter().chain(b.iter()).chain(c.iter()) {
        let expected = branches
            .iter()
            .map(|s| s.iter().filter(|x| *x == item).count())
            .sum::<usize>();
        let merged_count = merged.iter().filter(|x| *x == item).count();
        assert_eq!(merged_count, expected);
    }
}

#[test]
fn failing_branch_leaves_siblings_alone() {
    // Upstreams A, B, C feed a mixing stage of width 2; B fails on its
    // second item. B contributes its first item and one error, A and C run
    // to completion, and the merged stream is distributed round-robin.
    let a = vec![ok(11), ok(12)];
    let b_upstream = vec![ok(21), err(), ok(23)];
    let c = vec![ok(31), ok(32)];
    let b = pump_branch(&b_upstream);
    assert_eq!(b, vec![ok(21), err()]);

    // Arrival order: a1, b1, c1, b_err, a2, c2.
    let merged = vec![a[0], b[0], c[0], b[1], a[1], c[1]];
    assert_eq!(merged.len(), a.len() + b.len() + c.len());

    let out = distribute(&merged, 2);
    assert_eq!(out[0], vec![a[0], c[0], a[1]]);
    assert_eq!(out[1], vec![b[0], b[1], c[1]]);
    let delivered = out[0].len() + out[1].len();
    assert_eq!(delivered, merged.len());
}

#[test]
fn index_schema_version_round_trips_by_value() {
    let version = IndexSchemaVersion::V1;
    let copy = version;
    assert_eq!(version, copy);
    assert_eq!(version, IndexSchemaVersion::V1);
}
