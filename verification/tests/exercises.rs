use builder::exercises::{jumping_on_clouds, repeated_string, selection_sort, sock_merchant};

#[test]
fn jumping_on_the_clouds_check_case_1() {
    let out = jumping_on_clouds(6, vec![0, 1, 0, 0, 0, 1, 0]);
    assert_eq!(out, 3);
}

#[test]
fn jumping_on_the_clouds_check_case_2() {
    let out = jumping_on_clouds(7, vec![0, 0, 1, 0, 0, 1, 0]);
    assert_eq!(out, 4);
}

#[test]
fn check_case_3() {
    let out = jumping_on_clouds(6, vec![0, 0, 0, 0, 1, 0]);
    assert_eq!(out, 3);
}

#[test]
fn repeated_string_check_case_1() {
    let out = repeated_string("aba", 10);
    assert_eq!(out, 7);
}

#[test]
fn repeated_string_check_case_2() {
    let out = repeated_string("a", 1000000000000);
    assert_eq!(out, 1000000000000);
}

#[test]
fn sales_by_match_check_case_1() {
    let out = sock_merchant(9, vec![10, 20, 20, 10, 10, 30, 50, 10, 20]);
    assert_eq!(out, 3);
}

#[test]
fn selection_sort_check_case_1() {
    let out = selection_sort(vec![64, 25, 12, 22, 11]);
    assert_eq!(out, vec![11, 12, 22, 25, 64]);
}

#[test]
fn lib_it_works() {
    assert_eq!(2 + 2, 4);
}

#[test]
fn sock_merchant_no_pairs() {
    let out = sock_merchant(3, vec![1, 2, 3]);
    assert_eq!(out, 0);
}

#[test]
fn sock_merchant_empty() {
    let out = sock_merchant(0, vec![]);
    assert_eq!(out, 0);
}

#[test]
fn selection_sort_empty() {
    let out = selection_sort(vec![]);
    assert_eq!(out, Vec::<i32>::new());
}

#[test]
fn selection_sort_duplicates() {
    let out = selection_sort(vec![3, 1, 3, 0, 1]);
    assert_eq!(out, vec![0, 1, 1, 3, 3]);
}

#[test]
fn repeated_string_shorter_than_pattern() {
    let out = repeated_string("aab", 2);
    assert_eq!(out, 2);
}
