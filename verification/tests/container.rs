use tickloop::container::Container;

#[test]
fn new_container_is_empty() {
    let c: Container<u32> = Container::new();
    assert_eq!(c.size(), 0);
    assert_eq!(c.len(), 4);
}

#[test]
fn push_fills_first_empty_slot() {
    let mut c: Container<u32> = Container::new();
    assert_eq!(c.push(10), 0);
    assert_eq!(c.push(11), 1);
    assert_eq!(c.push(12), 2);
    assert_eq!(c.push(13), 3);
    assert_eq!(c.size(), 4);
}

#[test]
fn live_count_tracks_pushes_minus_removes() {
    let mut c: Container<u32> = Container::new();
    c.push(1);
    c.push(2);
    c.push(3);
    assert_eq!(c.size(), 3);
    c.remove(1);
    assert_eq!(c.size(), 2);
    c.remove(0);
    assert_eq!(c.size(), 1);
    c.push(4);
    assert_eq!(c.size(), 2);
}

#[test]
fn push_reuses_vacated_slot() {
    let mut c: Container<u32> = Container::new();
    c.push(1);
    c.push(2);
    c.push(3);
    c.remove(1);
    assert_eq!(c.push(9), 1);
    assert_eq!(c.get(1).copied(), Some(9));
}

#[test]
fn push_into_full_container_overwrites_slot_zero() {
    let mut c: Container<u32> = Container::new();
    c.push(1);
    c.push(2);
    c.push(3);
    c.push(4);
    assert_eq!(c.push(99), 0);
    assert_eq!(c.size(), 4);
    assert_eq!(c.get(0).copied(), Some(99));
    assert_eq!(c.get(1).copied(), Some(2));
}

#[test]
fn get_distinguishes_occupied_and_empty() {
    let mut c: Container<u32> = Container::new();
    c.push(7);
    assert_eq!(c.get(0).copied(), Some(7));
    assert!(c.get(1).is_none());
    c.remove(0);
    assert!(c.get(0).is_none());
}

#[test]
fn iteration_visits_live_entries_in_ascending_order() {
    let mut c: Container<u32> = Container::new();
    c.push(10);
    c.push(11);
    c.push(12);
    c.push(13);
    c.remove(1);
    let mut seen: Vec<(usize, u32)> = Vec::new();
    let mut it = c.iter();
    while let (i, Some(v)) = it.next() {
        seen.push((i, *v));
    }
    assert_eq!(seen, vec![(0, 10), (2, 12), (3, 13)]);
}

#[test]
fn iteration_reaches_entries_after_a_gap_at_the_front() {
    let mut c: Container<u32> = Container::new();
    c.push(10);
    c.push(11);
    c.push(12);
    c.push(13);
    c.remove(0);
    c.remove(1);
    let mut seen: Vec<(usize, u32)> = Vec::new();
    let mut it = c.iter();
    while let (i, Some(v)) = it.next() {
        seen.push((i, *v));
    }
    assert_eq!(seen, vec![(2, 12), (3, 13)]);
}

#[test]
fn iteration_of_empty_container_ends_at_once() {
    let c: Container<u32> = Container::new();
    let mut it = c.iter();
    let (i, v) = it.next();
    assert_eq!(i, 0);
    assert!(v.is_none());
}

#[test]
fn exhausted_iterator_stays_exhausted() {
    let mut c: Container<u32> = Container::new();
    c.push(5);
    let mut it = c.iter();
    assert!(it.next().1.is_some());
    assert!(it.next().1.is_none());
    assert!(it.next().1.is_none());
}
