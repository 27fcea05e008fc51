use magnetar_provider_cuda::table::NameTable;
use magnetar_provider_cuda::text::{
    push_decimal, push_shape, push_signed, shapes_equal, text_is,
};

#[test]
fn a_table_holds_the_last_value_under_a_name() {
    let mut table = NameTable::new();
    let name = |text: &str| text.to_string();
    assert_eq!(table.len(), 0);
    assert_eq!(table.insert(name("a"), 1), None);
    assert_eq!(table.insert(name("b"), 2), None);
    assert_eq!(table.insert(name("a"), 3), Some(1));
    assert_eq!(table.len(), 2);
    assert_eq!(table.get(&name("a")), Some(&3));
    assert_eq!(table.get(&name("b")), Some(&2));
    assert_eq!(table.get(&name("")), None);
    assert!(table.contains_key(&name("b")));
    assert_eq!(table.remove(&name("a")), Some(3));
    assert_eq!(table.remove(&name("a")), None);
    assert_eq!(table.get(&name("b")), Some(&2));
    assert_eq!(table.len(), 1);
}

#[test]
fn numbers_and_shapes_are_written_as_they_are_formatted() {
    for n in [0u64, 9, 10, 99, 100, 1234567890, u64::MAX] {
        let mut out = "n=".to_string();
        push_decimal(&mut out, n);
        assert_eq!(out, format!("n={n}"));
    }
    for i in [0i64, 7, -7, i64::MIN, i64::MAX] {
        let mut out = String::new();
        push_signed(&mut out, i);
        assert_eq!(out, i.to_string());
    }
    for shape in [vec![], vec![0], vec![2, 3], vec![1, u64::MAX, 10]] {
        let mut out = String::new();
        push_shape(&mut out, &shape);
        assert_eq!(out, format!("{shape:?}"));
    }
}

#[test]
fn texts_and_shapes_compare_by_content() {
    assert!(text_is(&"causal".to_string(), "causal"));
    assert!(!text_is(&"causal".to_string(), "Causal"));
    assert!(shapes_equal(&vec![2, 3], &vec![2, 3]));
    assert!(!shapes_equal(&vec![2, 3], &vec![2]));
    assert!(!shapes_equal(&vec![2, 3], &vec![3, 2]));
    assert!(shapes_equal(&vec![], &vec![]));
}
