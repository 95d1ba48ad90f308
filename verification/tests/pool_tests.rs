use xtemp::batching::{batch_len, batch_start, num_batches};
use xtemp::pool::{render_list, TempfilePool};

fn strings(v: &[&str]) -> Vec<String> {
    v.iter().map(|s| s.to_string()).collect()
}

#[test]
fn five_slots_one_record_one_path() {
    let mut pool = TempfilePool::allocate(5).unwrap();
    assert_eq!(pool.len(), 5);
    pool.write_batch(&strings(&["x"]), 0, 1, false).unwrap();
    let active = pool.paths(1);
    assert_eq!(active.len(), 1);
    assert_eq!(pool.slot_content(0).unwrap(), "x");
}

#[test]
fn slot_round_trips_without_newline() {
    let mut pool = TempfilePool::allocate(1).unwrap();
    pool.write_slot(0, &"record one".to_string(), false).unwrap();
    assert_eq!(pool.slot_content(0).unwrap(), "record one");
}

#[test]
fn slot_round_trips_with_newline() {
    let mut pool = TempfilePool::allocate(1).unwrap();
    pool.write_slot(0, &"record one".to_string(), true).unwrap();
    assert_eq!(pool.slot_content(0).unwrap(), "record one\n");
}

#[test]
fn rewrite_truncates_previous_contents() {
    let mut pool = TempfilePool::allocate(1).unwrap();
    pool.write_slot(0, &"a much longer record".to_string(), false).unwrap();
    pool.write_slot(0, &"tiny".to_string(), false).unwrap();
    assert_eq!(pool.slot_content(0).unwrap(), "tiny");
}

#[test]
fn slot_paths_are_stable_across_batches() {
    let mut pool = TempfilePool::allocate(2).unwrap();
    let before = pool.paths(2);
    pool.write_batch(&strings(&["a", "b"]), 0, 2, false).unwrap();
    let mid = pool.paths(2);
    pool.write_batch(&strings(&["c", "d"]), 0, 2, false).unwrap();
    let after = pool.paths(2);
    assert_eq!(before, mid);
    assert_eq!(mid, after);
}

#[test]
fn shorter_batch_leaves_later_slots_out_of_paths() {
    let mut pool = TempfilePool::allocate(3).unwrap();
    pool.write_batch(&strings(&["a", "b", "c"]), 0, 3, false).unwrap();
    pool.write_batch(&strings(&["z"]), 0, 1, false).unwrap();
    assert_eq!(pool.paths(1).len(), 1);
    // The stale slot keeps its old content but is never listed as active.
    assert_eq!(pool.slot_content(0).unwrap(), "z");
    assert_eq!(pool.slot_content(1).unwrap(), "b");
}

#[test]
fn empty_record_round_trips() {
    let mut pool = TempfilePool::allocate(1).unwrap();
    pool.write_slot(0, &String::new(), false).unwrap();
    assert_eq!(pool.slot_content(0).unwrap(), "");
    pool.write_slot(0, &String::new(), true).unwrap();
    assert_eq!(pool.slot_content(0).unwrap(), "\n");
}

#[test]
fn multibyte_record_round_trips() {
    let mut pool = TempfilePool::allocate(1).unwrap();
    pool.write_slot(0, &"héllo wörld ☃".to_string(), false).unwrap();
    assert_eq!(pool.slot_content(0).unwrap(), "héllo wörld ☃");
}

#[test]
fn render_list_joins_with_newlines() {
    assert_eq!(render_list(&strings(&["/t/a", "/t/b"])), "/t/a\n/t/b\n");
    assert_eq!(render_list(&Vec::new()), "");
}

#[test]
fn batch_counts_match_ceiling() {
    assert_eq!(num_batches(5, 2), 3);
    assert_eq!(num_batches(4, 2), 2);
    assert_eq!(num_batches(1, 5), 1);
    assert_eq!(num_batches(0, 3), 0);
    assert_eq!(num_batches(6, 3), 2);
}

#[test]
fn final_batch_length_is_remainder_or_full() {
    // 5 records at size 2: batches of 2, 2, 1.
    assert_eq!(batch_len(0, 5, 2), 2);
    assert_eq!(batch_len(1, 5, 2), 2);
    assert_eq!(batch_len(2, 5, 2), 1);
    // 4 records at size 2: the last batch is full.
    assert_eq!(batch_len(1, 4, 2), 2);
    assert_eq!(batch_start(2, 5, 2), 4);
}
