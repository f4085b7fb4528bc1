use messenger_plus::utils::{
    find_where_slice_begins, find_where_slice_intersects, locate_items_between_delimiters,
    vec_contains_slice,
};

fn sample() -> Vec<i32> {
    vec![1, 6, 9, 0, 2, 13, 17, 18]
}

#[test]
fn contains_a_run_that_is_there() {
    let vec = sample();
    assert!(vec_contains_slice(&vec, &[2, 13, 17]));
    assert!(vec_contains_slice(&vec, &[1, 6, 9]));
    assert!(vec_contains_slice(&vec, &[18]));
    assert!(vec_contains_slice(&vec, &[1, 6, 9, 0, 2, 13, 17, 18]));
}

#[test]
fn contains_no_run_that_is_not_there() {
    let vec = sample();
    assert!(!vec_contains_slice(&vec, &[2, 2, 17]));
    assert!(!vec_contains_slice(&vec, &[17, 18, 19]));
    assert!(!vec_contains_slice(&vec, &[1, 6, 9, 0, 2, 13, 17, 18, 1]));
}

#[test]
fn contains_nothing_where_either_is_empty() {
    let vec = sample();
    assert!(!vec_contains_slice(&vec, &[]));
    assert!(!vec_contains_slice(&Vec::new(), &[2, 2]));
    assert!(!vec_contains_slice::<i32>(&Vec::new(), &[]));
}

#[test]
fn index_behind_the_first_occurrence() {
    let vec = sample();
    assert_eq!(find_where_slice_intersects(&vec, &[2, 13, 17]), Some(7));
    assert_eq!(find_where_slice_intersects(&vec, &[1, 6, 9]), Some(3));
    assert_eq!(find_where_slice_intersects(&vec, &[18]), Some(8));
}

#[test]
fn index_behind_the_first_of_several_occurrences() {
    let vec: Vec<u8> = vec![7, 1, 2, 1, 2, 1, 2];
    assert_eq!(find_where_slice_intersects(&vec, &[1, 2]), Some(3));
    assert_eq!(find_where_slice_begins(&vec, &[1, 2]), Some(1));
    // occurrences may overlap
    let vec: Vec<u8> = vec![0, 5, 5, 5, 5];
    assert_eq!(find_where_slice_intersects(&vec, &[5, 5]), Some(3));
    assert_eq!(find_where_slice_begins(&vec, &[5, 5, 5]), Some(1));
}

#[test]
fn no_index_behind_what_is_not_there() {
    let vec = sample();
    assert_eq!(find_where_slice_intersects(&vec, &[2, 2, 17]), None);
    assert_eq!(find_where_slice_intersects(&vec, &[]), None);
    assert_eq!(find_where_slice_intersects(&Vec::new(), &[2, 2]), None);
    assert_eq!(find_where_slice_intersects::<i32>(&Vec::new(), &[]), None);
    // a run cut off by the end of the vector
    assert_eq!(find_where_slice_intersects(&vec, &[17, 18, 1]), None);
}

#[test]
fn index_where_the_first_occurrence_begins() {
    let vec = sample();
    assert_eq!(find_where_slice_begins(&vec, &[2, 13, 17]), Some(4));
    assert_eq!(find_where_slice_begins(&vec, &[1, 6, 9]), Some(0));
}

#[test]
fn no_index_where_nothing_begins() {
    let vec = sample();
    assert_eq!(find_where_slice_begins(&vec, &[2, 2, 17]), None);
    assert_eq!(find_where_slice_begins(&vec, &[]), None);
    assert_eq!(find_where_slice_begins(&Vec::new(), &[2, 2]), None);
    assert_eq!(find_where_slice_begins::<i32>(&Vec::new(), &[]), None);
}

#[test]
fn items_between_two_tokens() {
    let vec = sample();
    assert_eq!(locate_items_between_delimiters(&vec, &[2], &[18]), Some(vec![13, 17]));
    assert_eq!(locate_items_between_delimiters(&vec, &[1], &[9]), Some(vec![6]));
    assert_eq!(locate_items_between_delimiters(&vec, &[1, 6], &[17, 18]), Some(vec![9, 0, 2, 13]));
}

#[test]
fn no_items_where_a_token_is_missing_or_empty() {
    let vec = sample();
    assert_eq!(locate_items_between_delimiters(&vec, &[2], &[3]), None);
    assert_eq!(locate_items_between_delimiters(&vec, &[1], &[1]), None);
    assert_eq!(locate_items_between_delimiters(&vec, &[], &[6]), None);
    assert_eq!(locate_items_between_delimiters(&vec, &[1], &[]), None);
    assert_eq!(locate_items_between_delimiters(&Vec::new(), &[1], &[1]), None);
    assert_eq!(locate_items_between_delimiters(&Vec::new(), &[1], &[]), None);
    assert_eq!(locate_items_between_delimiters(&Vec::new(), &[], &[1]), None);
    assert_eq!(locate_items_between_delimiters::<i32>(&Vec::new(), &[], &[]), None);
    // the closing token stands only before the opening one
    assert_eq!(locate_items_between_delimiters(&vec, &[13], &[6]), None);
}

#[test]
fn the_closing_token_right_behind_the_opening_one_leaves_nothing_between() {
    let vec = sample();
    assert_eq!(locate_items_between_delimiters(&vec, &[6], &[9]), Some(Vec::new()));
    let vec: Vec<u8> = vec![4, 4];
    assert_eq!(locate_items_between_delimiters(&vec, &[4], &[4]), Some(Vec::new()));
}

#[test]
fn the_closing_token_begins_at_or_behind_the_end_of_the_opening_one() {
    // [2, 3] begins inside the occurrence of [1, 2]: it does not count
    let vec: Vec<u8> = vec![1, 2, 3];
    assert_eq!(locate_items_between_delimiters(&vec, &[1, 2], &[2, 3]), None);
    // the next one behind it does
    let vec: Vec<u8> = vec![1, 2, 3, 9, 2, 3];
    assert_eq!(locate_items_between_delimiters(&vec, &[1, 2], &[2, 3]), Some(vec![3, 9]));
}

#[test]
fn the_first_of_each_token_counts() {
    let vec: Vec<u8> = vec![0, 1, 5, 1, 6, 2, 7, 2];
    assert_eq!(locate_items_between_delimiters(&vec, &[1], &[2]), Some(vec![5, 1, 6]));
}
