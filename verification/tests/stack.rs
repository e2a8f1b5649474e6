use befunge_93::Stack;

#[test]
fn pop_on_empty_yields_zero() {
    let mut s = Stack::new();
    assert_eq!(s.pop(), 0);
    assert_eq!(s.len(), 0);
    assert_eq!(s.pop(), 0);
    assert_eq!(s.to_vec(), Vec::<i64>::new());
}

#[test]
fn peek_on_empty_yields_zero() {
    let s = Stack::new();
    assert_eq!(s.peek(), 0);
    assert_eq!(s.len(), 0);
}

#[test]
fn last_in_first_out() {
    let mut s = Stack::new();
    s.push(1);
    s.push(-2);
    s.push(i64::MAX);
    assert_eq!(s.to_vec(), vec![1, -2, i64::MAX]);
    assert_eq!(s.peek(), i64::MAX);
    assert_eq!(s.len(), 3);
    assert_eq!(s.pop(), i64::MAX);
    assert_eq!(s.pop(), -2);
    assert_eq!(s.peek(), 1);
    assert_eq!(s.pop(), 1);
    assert_eq!(s.pop(), 0);
}

#[test]
fn reset_empties() {
    let mut s = Stack::new();
    s.push(4);
    s.push(5);
    s.reset();
    assert_eq!(s.len(), 0);
    assert_eq!(s.peek(), 0);
}

#[test]
fn clone_is_a_snapshot() {
    let mut s = Stack::new();
    s.push(4);
    let copy = s.clone();
    s.push(5);
    assert_eq!(copy.to_vec(), vec![4]);
    assert_eq!(s.to_vec(), vec![4, 5]);
}

#[test]
fn text_lists_values_bottom_first() {
    let mut s = Stack::new();
    assert_eq!(s.to_string(), "");
    s.push(1);
    s.push(-20);
    s.push(300);
    assert_eq!(s.to_string(), "1 -20 300 ");
}
