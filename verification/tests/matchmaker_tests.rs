use connect_four::matchmaker::{assign_match, ConnectionQueue};

#[test]
fn fewer_than_two_are_not_paired() {
    let mut none: Vec<u32> = Vec::new();
    assert_eq!(assign_match(&mut none), None);
    assert!(none.is_empty());
    let mut one: Vec<u32> = vec![11];
    assert_eq!(assign_match(&mut one), None);
    assert_eq!(one, vec![11]);
}

#[test]
fn the_two_oldest_are_paired_in_order() {
    let mut conns: Vec<u32> = vec![11, 22];
    assert_eq!(assign_match(&mut conns), Some((11, 22)));
    assert!(conns.is_empty());
    let mut more: Vec<u32> = vec![5, 6, 7, 8, 9];
    assert_eq!(assign_match(&mut more), Some((5, 6)));
    assert_eq!(more, vec![7, 8, 9]);
    assert_eq!(assign_match(&mut more), Some((7, 8)));
    assert_eq!(more, vec![9]);
    assert_eq!(assign_match(&mut more), None);
    assert_eq!(more, vec![9]);
}

#[test]
fn queue_pairs_every_second_arrival() {
    let mut q: ConnectionQueue<String> = ConnectionQueue::new();
    assert_eq!(q.len(), 0);
    assert_eq!(q.accept(String::from("a")), None);
    assert_eq!(q.len(), 1);
    assert_eq!(q.accept(String::from("b")), Some((String::from("a"), String::from("b"))));
    assert_eq!(q.len(), 0);
    assert_eq!(q.accept(String::from("c")), None);
    assert_eq!(q.accept(String::from("d")), Some((String::from("c"), String::from("d"))));
    assert_eq!(q.len(), 0);
}
