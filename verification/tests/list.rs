use std::cell::Cell;
use std::rc::Rc;
use std::sync::Arc;

use druid::list::{Axis, List, ListIter};

fn counting_list(axis: Axis) -> (List<impl Fn() -> u32, u32>, Rc<Cell<u32>>) {
    let made = Rc::new(Cell::new(0u32));
    let counter = made.clone();
    let list = List::new(
        move || {
            counter.set(counter.get() + 1);
            counter.get()
        },
        axis,
    );
    (list, made)
}

#[test]
fn new_list_has_no_children_and_no_flex() {
    let (list, made) = counting_list(Axis::Vertical);
    assert!(list.children().is_empty());
    assert_eq!(list.axis(), Axis::Vertical);
    assert!(!list.flex());
    assert_eq!(made.get(), 0);
}

#[test]
fn horizontal_and_vertical_set_the_axis() {
    let row: List<_, u8> = List::horizontal(|| 0u8);
    let column: List<_, u8> = List::vertical(|| 0u8);
    assert_eq!(row.axis(), Axis::Horizontal);
    assert_eq!(column.axis(), Axis::Vertical);
    assert!(!row.flex());
    assert!(!column.flex());
}

#[test]
fn with_flex_and_set_flex_change_only_flex() {
    let list: List<_, u8> = List::horizontal(|| 0u8).with_flex(true);
    assert!(list.flex());
    assert_eq!(list.axis(), Axis::Horizontal);
    let mut list = list;
    list.set_flex(false).set_flex(true);
    assert!(list.flex());
    list.set_flex(false);
    assert!(!list.flex());
    assert!(list.children().is_empty());
}

#[test]
fn update_child_count_adds_one_child_per_item() {
    let (mut list, made) = counting_list(Axis::Vertical);
    let data = Arc::new(vec![10u32, 20, 30]);
    assert!(list.update_child_count(&data));
    assert_eq!(list.children(), &vec![1, 2, 3]);
    assert_eq!(made.get(), 3);
}

#[test]
fn update_child_count_twice_changes_nothing() {
    let (mut list, made) = counting_list(Axis::Vertical);
    let data = Arc::new(vec![1u32, 2]);
    assert!(list.update_child_count(&data));
    assert!(!list.update_child_count(&data));
    assert_eq!(list.children(), &vec![1, 2]);
    assert_eq!(made.get(), 2);
}

#[test]
fn update_child_count_keeps_existing_children_when_growing() {
    let (mut list, made) = counting_list(Axis::Horizontal);
    assert!(list.update_child_count(&Arc::new(vec![7u32])));
    assert!(list.update_child_count(&Arc::new(vec![7u32, 8, 9])));
    assert_eq!(list.children(), &vec![1, 2, 3]);
    assert_eq!(made.get(), 3);
}

#[test]
fn update_child_count_drops_children_beyond_the_data() {
    let (mut list, made) = counting_list(Axis::Horizontal);
    assert!(list.update_child_count(&Arc::new(vec![1u32, 2, 3, 4])));
    assert!(list.update_child_count(&Arc::new(vec![5u32])));
    assert_eq!(list.children(), &vec![1]);
    assert!(list.update_child_count(&Arc::new(Vec::<u32>::new())));
    assert!(list.children().is_empty());
    assert_eq!(made.get(), 4);
}

#[test]
fn update_child_count_with_shared_data_counts_the_items() {
    let (mut list, _) = counting_list(Axis::Vertical);
    let data = (String::from("shared"), Arc::new(vec![1u32, 2]));
    assert!(list.update_child_count(&data));
    assert_eq!(list.children().len(), 2);
    assert!(!list.update_child_count(&data));
}

#[test]
fn arc_vec_for_each_visits_items_in_order() {
    let data = Arc::new(vec![5u32, 6, 7]);
    let mut seen = Vec::new();
    data.for_each(|item, i| seen.push((*item, i)));
    assert_eq!(seen, vec![(5, 0), (6, 1), (7, 2)]);
    assert_eq!(data.data_len(), 3);
}

#[test]
fn arc_vec_for_each_mut_keeps_the_changes() {
    let mut data = Arc::new(vec![1u32, 2, 3]);
    let before = data.clone();
    data.for_each_mut(|item, i| *item += i as u32 * 10);
    assert_eq!(*data, vec![1, 12, 23]);
    assert_eq!(*before, vec![1, 2, 3]);
    assert!(!Arc::ptr_eq(&data, &before));
}

#[test]
fn arc_vec_for_each_mut_without_change_keeps_the_same_vector() {
    let mut data = Arc::new(vec![String::from("a"), String::from("b")]);
    let before = data.clone();
    let mut calls = 0;
    data.for_each_mut(|_, _| calls += 1);
    assert_eq!(calls, 2);
    assert!(Arc::ptr_eq(&data, &before));
}

#[test]
fn shared_for_each_pairs_the_shared_value_with_each_item() {
    let data = (7u32, Arc::new(vec![1u32, 2]));
    let mut seen = Vec::new();
    data.for_each(|pair, i| seen.push((pair.0, pair.1, i)));
    assert_eq!(seen, vec![(7, 1, 0), (7, 2, 1)]);
    assert_eq!(data.data_len(), 2);
}

#[test]
fn shared_for_each_mut_updates_items_and_shared_value() {
    let mut data = (0u32, Arc::new(vec![1u32, 2, 3]));
    data.for_each_mut(|pair, _| {
        pair.0 += pair.1;
        pair.1 *= 2;
    });
    assert_eq!(*data.1, vec![2, 4, 6]);
    assert_eq!(data.0, 6);
}

#[test]
fn shared_for_each_mut_without_change_keeps_both() {
    let mut data = (3u32, Arc::new(vec![1u32, 2]));
    let before = data.1.clone();
    data.for_each_mut(|_, _| {});
    assert_eq!(data.0, 3);
    assert!(Arc::ptr_eq(&data.1, &before));
}

#[test]
fn shared_value_change_is_seen_by_later_items() {
    let mut data = (0u32, Arc::new(vec![0u32, 0, 0]));
    data.for_each_mut(|pair, i| {
        if i == 0 {
            pair.0 = 5;
        }
        pair.1 = pair.0;
    });
    assert_eq!(data.0, 5);
    assert_eq!(*data.1, vec![5, 5, 5]);
}

#[test]
fn lifecycle_children_only_acts_when_the_widget_is_added() {
    let (mut list, made) = counting_list(Axis::Vertical);
    let data = Arc::new(vec![1u32, 2, 3]);
    assert!(!list.lifecycle_children(false, &data));
    assert!(list.children().is_empty());
    assert!(list.lifecycle_children(true, &data));
    assert_eq!(list.children(), &vec![1, 2, 3]);
    assert!(!list.lifecycle_children(true, &data));
    assert_eq!(made.get(), 3);
}

#[test]
fn update_children_updates_the_existing_children_first() {
    let (mut list, _) = counting_list(Axis::Vertical);
    assert_eq!(list.update_children(&Arc::new(vec![1u32, 2])), (0, true));
    assert_eq!(list.update_children(&Arc::new(vec![1u32, 2, 3, 4])), (2, true));
    assert_eq!(list.update_children(&Arc::new(vec![9u32])), (1, true));
    assert_eq!(list.update_children(&Arc::new(vec![9u32])), (1, false));
    assert_eq!(list.children(), &vec![1]);
}

#[test]
fn paired_children_is_the_smaller_count() {
    let (mut list, _) = counting_list(Axis::Horizontal);
    list.update_child_count(&Arc::new(vec![1u32, 2, 3]));
    assert_eq!(list.paired_children(&Arc::new(vec![1u32])), 1);
    assert_eq!(list.paired_children(&Arc::new(vec![1u32, 2, 3, 4, 5])), 3);
    assert_eq!(list.paired_children(&(0u32, Arc::new(vec![1u32, 2, 3]))), 3);
}

#[test]
fn for_each_mut_adds_each_index() {
    let mut data = Arc::new(vec![1u32, 2, 3]);
    let mut seen = Vec::new();
    data.for_each_mut(|x, i| {
        seen.push(i);
        *x += i as u32;
    });
    assert_eq!(*data, vec![1, 3, 5]);
    assert_eq!(seen, vec![0, 1, 2]);
}

#[test]
fn shared_for_each_mut_threads_the_shared_value() {
    let mut data = (0u32, Arc::new(vec![1u32, 2, 3]));
    data.for_each_mut(|d, _| {
        d.0 += 1;
        d.1 += d.0;
    });
    assert_eq!(data.0, 3);
    assert_eq!(*data.1, vec![2, 4, 6]);
}
