use vulkys::merge_sort::merge_sort;

#[test]
fn check_merge_sort() {
    let mut a = [1, 2, 3, 4, 5, 6, 243, 23, 4];
    merge_sort(&mut a);
    assert_eq!(a, [1, 2, 3, 4, 4, 5, 6, 23, 243])
}

#[test]
fn merge_sort_handles_empty_and_single() {
    let mut e: [i64; 0] = [];
    merge_sort(&mut e);
    assert_eq!(e, []);
    let mut one = [5];
    merge_sort(&mut one);
    assert_eq!(one, [5]);
}

#[test]
fn merge_sort_negatives_and_duplicates() {
    let mut a = vec![3, -1, 3, 0, -7, 3, 2];
    merge_sort(&mut a);
    assert_eq!(a, vec![-7, -1, 0, 2, 3, 3, 3]);
}

#[test]
fn merge_sort_keeps_sorted_input() {
    let mut a = [1, 2, 2, 9];
    merge_sort(&mut a);
    assert_eq!(a, [1, 2, 2, 9]);
}

#[test]
fn merge_sort_same_items_same_result() {
    let mut a = [4, 1, 3, 1];
    let mut b = [1, 3, 1, 4];
    merge_sort(&mut a);
    merge_sort(&mut b);
    assert_eq!(a, b);
}

/// An item ordered by its key alone, so that items with the same key
/// compare equal however their tags differ.
#[derive(Clone, Copy, Debug)]
struct Keyed {
    key: u8,
    tag: char,
}

impl PartialEq for Keyed {
    fn eq(&self, other: &Self) -> bool {
        self.key == other.key
    }
}

impl Eq for Keyed {}

impl PartialOrd for Keyed {
    fn partial_cmp(&self, other: &Self) -> Option<std::cmp::Ordering> {
        Some(self.cmp(other))
    }
}

impl Ord for Keyed {
    fn cmp(&self, other: &Self) -> std::cmp::Ordering {
        self.key.cmp(&other.key)
    }
}

#[test]
fn merge_sort_is_stable() {
    let mut a = [
        Keyed { key: 2, tag: 'a' },
        Keyed { key: 1, tag: 'b' },
        Keyed { key: 2, tag: 'c' },
        Keyed { key: 1, tag: 'd' },
        Keyed { key: 0, tag: 'e' },
        Keyed { key: 2, tag: 'f' },
    ];
    merge_sort(&mut a);
    let tags: Vec<char> = a.iter().map(|k| k.tag).collect();
    assert_eq!(tags, vec!['e', 'b', 'd', 'a', 'c', 'f']);
}

#[test]
fn merge_sort_sorts_strings() {
    let mut words = ["pear", "apple", "fig", "apple"];
    merge_sort(&mut words);
    assert_eq!(words, ["apple", "apple", "fig", "pear"]);
}
