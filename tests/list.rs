use linked_list::List;

#[test]
fn test_new() {
    let list: List<i32> = List::new();
    if let Some(_) = list.head() {
        panic!("head error");
    }
    if let Some(_) = list.tail() {
        panic!("tail error");
    }
    assert_eq!(list.length(), 0);
}

#[test]
fn test_append() {
    let mut list = List::new();
    list.append(42);
    let Some(head1) = list.head() else {
        panic!("head error");
    };
    assert_eq!(*head1, 42);
    let Some(tail1) = list.tail() else {
        panic!("tail error");
    };
    assert_eq!(*tail1, 42);
    assert_eq!(list.length(), 1);

    list.append(36);
    let Some(head2) = list.head() else {
        panic!("head error");
    };
    assert_eq!(*head2, 42);
    let Some(tail2) = list.tail() else {
        panic!("tail error");
    };
    assert_eq!(*tail2, 36);
    assert_eq!(list.length(), 2);
}

#[test]
fn test_pop() {
    let mut list = List::new();
    list.append(42);
    list.append(36);
    list.append(30);

    let Some(first) = list.pop() else {
        panic!("pop error");
    };
    assert_eq!(first, 42);
    assert_eq!(list.length(), 2);

    let Some(second) = list.pop() else {
        panic!("pop error");
    };
    assert_eq!(second, 36);
    assert_eq!(list.length(), 1);

    let Some(third) = list.pop() else {
        panic!("pop error");
    };
    assert_eq!(third, 30);
    if let Some(_) = list.head() {
        panic!("head error");
    }
    if let Some(_) = list.tail() {
        panic!("tail error");
    }
    assert_eq!(list.length(), 0);
}

#[test]
fn fresh_list_pops_nothing() {
    let mut list: List<u8> = List::new();
    assert_eq!(list.length(), 0);
    assert_eq!(list.pop(), None);
    assert_eq!(list.length(), 0);
}

#[test]
fn append_grows_length_by_one() {
    let mut list = List::new();
    for i in 0..5u32 {
        assert_eq!(list.length(), i as usize);
        list.append(i * 10);
        assert_eq!(list.length(), i as usize + 1);
        assert_eq!(list.tail(), Some(&(i * 10)));
        assert_eq!(list.head(), Some(&0));
    }
}

#[test]
fn pops_return_values_in_append_order() {
    let values = [7i64, -3, 7, 0, 12, 5];
    let mut list = List::new();
    for v in values {
        list.append(v);
    }
    for v in values {
        assert_eq!(list.pop(), Some(v));
    }
    assert_eq!(list.pop(), None);
}

#[test]
fn pop_shrinks_by_one_and_stops_at_zero() {
    let mut list = List::new();
    list.append('a');
    list.append('b');
    assert_eq!(list.pop(), Some('a'));
    assert_eq!(list.length(), 1);
    assert_eq!(list.pop(), Some('b'));
    assert_eq!(list.length(), 0);
    assert_eq!(list.pop(), None);
    assert_eq!(list.length(), 0);
    assert_eq!(list.pop(), None);
    assert_eq!(list.length(), 0);
}

#[test]
fn draining_leaves_a_list_like_a_fresh_one() {
    let mut list = List::new();
    for i in 1..=4u16 {
        list.append(i);
    }
    let n = list.length();
    for _ in 0..n {
        assert!(list.pop().is_some());
    }
    assert_eq!(list.length(), 0);
    assert_eq!(list.head(), None);
    assert_eq!(list.tail(), None);
    assert_eq!(list.pop(), None);
}

#[test]
fn single_value_collapses_to_empty() {
    let mut list = List::new();
    list.append(99u64);
    assert_eq!(list.head(), list.tail());
    assert_eq!(list.pop(), Some(99));
    assert_eq!(list.head(), None);
    assert_eq!(list.tail(), None);
    assert_eq!(list.length(), 0);
}

#[test]
fn emptied_nodes_are_reused_in_order() {
    let mut list = List::new();
    list.append(1);
    list.append(2);
    assert_eq!(list.pop(), Some(1));
    list.append(3);
    list.append(4);
    assert_eq!(list.head(), Some(&2));
    assert_eq!(list.tail(), Some(&4));
    assert_eq!(list.length(), 3);
    assert_eq!(list.pop(), Some(2));
    assert_eq!(list.pop(), Some(3));
    list.append(5);
    assert_eq!(list.pop(), Some(4));
    assert_eq!(list.pop(), Some(5));
    assert_eq!(list.pop(), None);
    list.append(6);
    assert_eq!(list.head(), Some(&6));
    assert_eq!(list.tail(), Some(&6));
}

#[test]
fn owned_values_move_out_intact() {
    let mut list = List::new();
    list.append(String::from("first"));
    list.append(String::from("second"));
    assert_eq!(list.tail().map(|s| s.as_str()), Some("second"));
    assert_eq!(list.pop(), Some(String::from("first")));
    assert_eq!(list.pop(), Some(String::from("second")));
    assert_eq!(list.pop(), None);
}
