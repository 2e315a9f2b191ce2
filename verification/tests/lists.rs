use propagation_nation::lists::{upload_status, CounterList, DynamicListState};
use propagation_nation::point::Point;

#[test]
fn dynamic_list_add_and_remove() {
    let mut state = DynamicListState::new();
    assert_eq!(state.list, vec![(10, 0)]);
    state.add();
    state.add();
    assert_eq!(state.counter, 2);
    assert_eq!(state.list, vec![(10, 0), (10, 1), (10, 2)]);
    state.remove(1);
    assert_eq!(state.list, vec![(10, 0), (10, 2)]);
    state.remove(7);
    assert_eq!(state.list, vec![(10, 0), (10, 2)]);
    state.add();
    assert_eq!(state.list, vec![(10, 0), (10, 2), (10, 3)]);
}

#[test]
fn counter_list_add_and_remove() {
    let mut counters = CounterList::from_values(vec!["a", "b"]);
    assert_eq!(counters.next_counter_id, 2);
    assert_eq!(counters.counters, vec![(0, "a"), (1, "b")]);
    assert_eq!(counters.next_start_value(), 3);
    counters.add("c");
    assert_eq!(counters.counters, vec![(0, "a"), (1, "b"), (2, "c")]);
    assert_eq!(counters.next_counter_id, 3);
    counters.remove(1);
    assert_eq!(counters.counters, vec![(0, "a"), (2, "c")]);
    counters.remove(1);
    assert_eq!(counters.counters, vec![(0, "a"), (2, "c")]);
    let empty: CounterList<u8> = CounterList::from_values(vec![]);
    assert_eq!(empty.next_counter_id, 0);
    assert!(empty.counters.is_empty());
}

#[test]
fn upload_status_lines() {
    assert_eq!(upload_status(true, false, false).as_deref(), Some("Upload a file."));
    assert_eq!(upload_status(true, true, true).as_deref(), Some("Upload a file."));
    assert_eq!(upload_status(false, true, false).as_deref(), Some("Uploading..."));
    assert_eq!(upload_status(false, false, true).as_deref(), Some("Success!"));
    assert_eq!(upload_status(false, false, false), None);
}

#[test]
fn points_are_equal_by_place() {
    let a = Point { lat: 1, lon: 2, data: 3u8 };
    let b = Point { lat: 1, lon: 2, data: 9u8 };
    let c = Point { lat: 1, lon: 3, data: 3u8 };
    assert!(a == b);
    assert!(a != c);
}

#[test]
fn list_ids_stay_distinct() {
    let mut state = DynamicListState::new();
    for round in 0..20 {
        state.add();
        if round % 3 == 0 {
            state.remove(round);
        }
        let ids: Vec<i32> = state.list.iter().map(|e| e.1).collect();
        assert!(ids.windows(2).all(|w| w[0] < w[1]));
        assert!(ids.iter().all(|id| *id <= state.counter));
    }
}
