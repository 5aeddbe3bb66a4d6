use deet::list::LinkedList;

#[test]
fn new_list_is_empty() {
    let list: LinkedList<u32> = LinkedList::new();
    assert!(list.is_empty());
    assert_eq!(list.get_size(), 0);
}

#[test]
fn push_and_pop_are_front_first() {
    let mut list: LinkedList<u32> = LinkedList::new();
    for i in 1..12 {
        list.push_front(i);
    }
    assert_eq!(list.get_size(), 11);
    assert_eq!(list.pop_front(), Some(11));
    assert_eq!(list.get_size(), 10);
    assert_eq!(list.pop_front(), Some(10));
    assert!(!list.is_empty());
}

#[test]
fn pop_on_empty_returns_nothing() {
    let mut list: LinkedList<String> = LinkedList::new();
    assert_eq!(list.pop_front(), None);
    list.push_front("one".to_string());
    assert_eq!(list.pop_front(), Some("one".to_string()));
    assert_eq!(list.pop_front(), None);
}

#[test]
fn to_vec_lists_values_front_first() {
    let mut list: LinkedList<u32> = LinkedList::new();
    list.push_front(3);
    list.push_front(2);
    list.push_front(1);
    assert_eq!(list.to_vec(), vec![1, 2, 3]);
}

#[test]
fn clone_preserves_values_and_equality() {
    let mut list: LinkedList<u32> = LinkedList::new();
    for i in 1..6 {
        list.push_front(i);
    }
    let copy = list.clone();
    assert_eq!(copy.get_size(), 5);
    assert!(list == copy);
    assert_eq!(copy.to_vec(), vec![5, 4, 3, 2, 1]);
}

#[test]
fn equality_is_by_values_in_order() {
    let mut a: LinkedList<u32> = LinkedList::new();
    let mut b: LinkedList<u32> = LinkedList::new();
    assert!(a == b);
    a.push_front(1);
    assert!(a != b);
    b.push_front(1);
    assert!(a == b);
    a.push_front(2);
    b.push_front(3);
    assert!(a != b);
}
