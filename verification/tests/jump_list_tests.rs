use hexcore::JumpList;

#[test]
fn test_back_forward_cycle() {
    let mut jl = JumpList::new(100);
    jl.push(10);
    jl.push(20);
    jl.push(30);
    assert_eq!(jl.back(99), Some(30));
    assert_eq!(jl.back(0), Some(20));
    assert_eq!(jl.back(0), Some(10));
    assert_eq!(jl.back(0), None);
    assert_eq!(jl.forward(), Some(20));
    assert_eq!(jl.forward(), Some(30));
    assert_eq!(jl.forward(), Some(99));
    assert_eq!(jl.forward(), None);
}

#[test]
fn test_back_returns_none_when_empty() {
    let mut jl = JumpList::new(100);
    assert_eq!(jl.back(0), None);
}

#[test]
fn test_forward_returns_none_at_newest() {
    let mut jl = JumpList::new(100);
    jl.push(10);
    jl.push(20);
    assert_eq!(jl.forward(), None);
}

#[test]
fn test_duplicate_not_added() {
    let mut jl = JumpList::new(100);
    jl.push(10);
    jl.push(10);
    assert_eq!(jl.entries().len(), 1);
}

#[test]
fn test_new_push_after_back_truncates() {
    let mut jl = JumpList::new(100);
    jl.push(10);
    jl.push(20);
    jl.push(30);
    jl.back(0);
    jl.back(0);
    jl.push(99);
    assert_eq!(jl.back(0), Some(99));
    assert_eq!(jl.back(0), Some(20));
    assert_eq!(jl.back(0), Some(10));
    assert_eq!(jl.forward(), Some(20));
    assert_eq!(jl.forward(), Some(99));
    assert_eq!(jl.forward(), Some(0));
    assert_eq!(jl.forward(), None);
}

#[test]
fn test_max_size_enforced() {
    let mut jl = JumpList::new(3);
    jl.push(10);
    jl.push(20);
    jl.push(30);
    jl.push(40);
    assert_eq!(jl.entries().len(), 3);
    assert_eq!(*jl.entries(), vec![20, 30, 40]);
}

#[test]
fn test_clear() {
    let mut jl = JumpList::new(100);
    jl.push(10);
    jl.push(20);
    jl.clear();
    assert_eq!(jl.back(0), None);
    assert_eq!(jl.forward(), None);
}

#[test]
fn test_saved_target_forward_after_full_back() {
    let mut jl = JumpList::new(100);
    jl.push(10);
    jl.push(20);
    // entries = [10, 20], index = 2. Cursor is at 500.
    jl.back(500); // saved = Some(500), index = 1, returns 20
    jl.back(0); // index = 0, returns 10
    assert_eq!(jl.forward(), Some(20)); // forward through entries
    assert_eq!(jl.forward(), Some(500)); // forward to saved target
    assert_eq!(jl.forward(), None);
}

// Additional cases.

#[test]
fn back_then_forward_returns_to_start() {
    let mut jl = JumpList::new(10);
    jl.push(1);
    jl.push(2);
    assert_eq!(jl.back(7), Some(2));
    assert_eq!(jl.forward(), Some(7));
    assert_eq!(jl.back(7), Some(2));
    assert_eq!(jl.back(2), Some(1));
    assert_eq!(jl.forward(), Some(2));
    assert_eq!(jl.back(2), Some(1));
}

#[test]
fn zero_size_list_keeps_nothing() {
    let mut jl = JumpList::new(0);
    jl.push(5);
    assert!(jl.entries().is_empty());
    assert_eq!(jl.back(3), None);
}

#[test]
fn repeat_after_truncation_is_not_added() {
    let mut jl = JumpList::new(10);
    jl.push(1);
    jl.push(2);
    jl.push(3);
    jl.back(9);
    jl.back(3);
    // place is after entry 1 (value 2 at index 1): truncation keeps [1, 2]
    jl.push(2);
    assert_eq!(*jl.entries(), vec![1, 2]);
}
