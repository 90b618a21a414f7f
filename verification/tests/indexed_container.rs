use relativity::indexed_container::IndexedContainer;

#[test]
fn new_is_empty() {
    let container: IndexedContainer<u8> = IndexedContainer::new();
    assert_eq!(container.items, Vec::<u8>::new());
    assert_eq!(container.indices, Vec::<u32>::new());
}

#[test]
fn with_capacity_is_empty() {
    let container: IndexedContainer<u8> = IndexedContainer::with_capacity(16, 48);
    assert!(container.items.is_empty());
    assert!(container.indices.is_empty());
}

#[test]
fn default_is_empty() {
    let container: IndexedContainer<String> = Default::default();
    assert!(container.items.is_empty());
    assert!(container.indices.is_empty());
}

#[test]
fn push_appends_item_and_index() {
    let mut container = IndexedContainer::new();
    container.push("a".to_string());
    container.push("b".to_string());
    container.push("c".to_string());
    assert_eq!(container.items, vec!["a".to_string(), "b".to_string(), "c".to_string()]);
    assert_eq!(container.indices, vec![0, 1, 2]);
}

#[test]
fn push_repeated_shares_one_item() {
    let mut container = IndexedContainer::new();
    container.push(7u64);
    container.push_repeated(9u64, 3);
    assert_eq!(container.items, vec![7, 9]);
    assert_eq!(container.indices, vec![0, 1, 1, 1]);
}

#[test]
fn push_repeated_zero_adds_no_indices() {
    let mut container = IndexedContainer::new();
    container.push_repeated(5u8, 0);
    assert_eq!(container.items, vec![5]);
    assert_eq!(container.indices, Vec::<u32>::new());
}

#[test]
fn push_relative_indexed_offsets_indices() {
    let mut container = IndexedContainer::new();
    container.push(10u32);
    container.push(20u32);
    container.push_relative_indexed(vec![30u32, 40u32], vec![1, 0, 1]);
    assert_eq!(container.items, vec![10, 20, 30, 40]);
    assert_eq!(container.indices, vec![0, 1, 3, 2, 3]);
}

#[test]
fn push_container_offsets_the_other_indices() {
    let mut first = IndexedContainer::new();
    first.push(1u8);
    first.push(2u8);

    let mut second = IndexedContainer::new();
    second.push(3u8);
    second.push(4u8);

    first.push_container(second);
    assert_eq!(first.items, vec![1, 2, 3, 4]);
    assert_eq!(first.indices, vec![0, 1, 2, 3]);
}

#[test]
fn clear_empties_both_buffers() {
    let mut container = IndexedContainer::new();
    container.push(1u16);
    container.push_repeated(2u16, 4);
    container.clear();
    assert!(container.items.is_empty());
    assert!(container.indices.is_empty());
}
