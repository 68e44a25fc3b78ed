use vulkys::binary_search::binary_search;

#[test]
fn binary_search_first_item_is_zero() {
    assert_eq!(binary_search(vec![5, 7, 9], 5), 0);
}

#[test]
fn binary_search_ascending_list() {
    let list = vec![10, 20, 30, 40, 50];
    assert_eq!(binary_search(list.clone(), 10), 0);
    assert_eq!(binary_search(list.clone(), 20), 1);
    assert_eq!(binary_search(list.clone(), 30), 2);
    assert_eq!(binary_search(list.clone(), 40), 3);
    assert_eq!(binary_search(list, 50), 4);
}

#[test]
fn binary_search_finds_last_of_three() {
    assert_eq!(binary_search(vec![1, 2, 3], 3), 2);
}

#[test]
fn binary_search_with_repeats_finds_the_item() {
    let list = vec![1, 4, 4, 4, 5];
    let i = binary_search(list.clone(), 4);
    assert_eq!(list[i], 4);
    // lo = 0, hi = 4: the middle, index 2, holds 4 at once.
    assert_eq!(i, 2);
}

#[test]
fn binary_search_on_words_in_order() {
    let words = vec!["apple", "date", "fig", "pear"];
    assert_eq!(binary_search(words.clone(), "pear"), 3);
    assert_eq!(binary_search(words, "date"), 1);
}
