use termdaw::bank::{Bank, BankError};
use termdaw::bufferbank::BufferBank;

#[test]
fn a_name_is_taken_once() {
    let mut bb = BufferBank::new();
    assert_eq!(bb.add("a".to_string(), vec![1, 2, 3]), Ok(()));
    assert_eq!(bb.add("a".to_string(), vec![9]), Err(BankError::DuplicateName));
    assert_eq!(bb.len(), 1);
    assert_eq!(bb.get_index("a"), Some(0));
    assert_eq!(bb.get_buffer(0), &vec![1, 2, 3]);
    assert_eq!(bb.get_index("b"), None);
}

#[test]
fn a_sweep_removes_what_is_marked_and_closes_the_gaps() {
    let mut bb = BufferBank::new();
    for (name, byte) in [("a", 1u8), ("b", 2), ("c", 3), ("d", 4), ("e", 5)] {
        assert!(bb.add(name.to_string(), vec![byte]).is_ok());
    }
    bb.mark_dead("b");
    bb.mark_dead("d");
    bb.mark_dead("nobody");
    assert_eq!(bb.len(), 5);
    assert_eq!(bb.get_index("b"), Some(1));
    bb.refresh();
    assert_eq!(bb.len(), 3);
    assert_eq!(bb.get_index("a"), Some(0));
    assert_eq!(bb.get_index("b"), None);
    assert_eq!(bb.get_index("c"), Some(1));
    assert_eq!(bb.get_index("d"), None);
    assert_eq!(bb.get_index("e"), Some(2));
    assert_eq!(bb.get_buffer(1), &vec![3]);
    assert_eq!(bb.get_buffer(2), &vec![5]);
    assert_eq!(bb.add("b".to_string(), vec![7]), Ok(()));
    assert_eq!(bb.get_index("b"), Some(3));
}

#[test]
fn a_sweep_without_marks_changes_nothing() {
    let mut bb = BufferBank::new();
    assert!(bb.add("a".to_string(), vec![1]).is_ok());
    assert!(bb.add("b".to_string(), vec![2]).is_ok());
    bb.refresh();
    bb.refresh();
    assert_eq!(bb.len(), 2);
    assert_eq!(bb.get_index("a"), Some(0));
    assert_eq!(bb.get_index("b"), Some(1));
    assert_eq!(bb.get_buffer(1), &vec![2]);
}

#[test]
fn marks_do_not_outlive_a_sweep() {
    let mut bb = BufferBank::new();
    assert!(bb.add("a".to_string(), vec![1]).is_ok());
    assert!(bb.add("b".to_string(), vec![2]).is_ok());
    bb.mark_dead("a");
    bb.refresh();
    bb.refresh();
    assert_eq!(bb.len(), 1);
    assert_eq!(bb.get_index("b"), Some(0));
}

#[test]
fn every_item_can_go() {
    let mut bank: Bank<String> = Bank::new();
    assert!(bank.add("x".to_string(), "one".to_string()).is_ok());
    assert!(bank.add("y".to_string(), "two".to_string()).is_ok());
    bank.mark_dead("x");
    bank.mark_dead("y");
    bank.refresh();
    assert_eq!(bank.len(), 0);
    assert_eq!(bank.get_index("x"), None);
    assert!(bank.get(0).is_none());
    assert!(bank.add("x".to_string(), "three".to_string()).is_ok());
    assert_eq!(bank.get(0).unwrap(), "three");
}
