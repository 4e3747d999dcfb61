use numutil::sort_numbers;

#[test]
fn test_sort_numbers() {
    let input = vec![5, 2, 8, 1, 9];
    let expected = vec![1, 2, 5, 8, 9];
    assert_eq!(sort_numbers(input), expected);

    let input = vec![1, 2, 3];
    assert_eq!(sort_numbers(input.clone()), input);

    let input: Vec<i32> = vec![];
    assert_eq!(sort_numbers(input.clone()), input);
}

#[test]
fn lib_test_sort_numbers() {
    let numbers = vec![5, 2, 8, 1, 9];
    let sorted = sort_numbers(numbers);
    assert_eq!(sorted, vec![1, 2, 5, 8, 9]);
}

#[test]
fn test_sort_duplicates() {
    assert_eq!(sort_numbers(vec![3, 1, 3, 1]), vec![1, 1, 3, 3]);
    assert_eq!(sort_numbers(vec![7, 7, 7]), vec![7, 7, 7]);
}

#[test]
fn test_sort_single_element() {
    assert_eq!(sort_numbers(vec![42]), vec![42]);
}

#[test]
fn test_sort_negative_and_extreme_values() {
    assert_eq!(sort_numbers(vec![-1, -5, 3]), vec![-5, -1, 3]);
    assert_eq!(
        sort_numbers(vec![0, i32::MAX, i32::MIN]),
        vec![i32::MIN, 0, i32::MAX]
    );
}

#[test]
fn test_sort_is_idempotent() {
    let once = sort_numbers(vec![9, 4, 6, 4, 0]);
    let twice = sort_numbers(once.clone());
    assert_eq!(twice, once);
}

#[test]
fn test_sort_reverse_order() {
    assert_eq!(sort_numbers(vec![5, 4, 3, 2, 1]), vec![1, 2, 3, 4, 5]);
}
