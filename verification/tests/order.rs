use pihole_sync::order::{ranking_of, text_eq, text_le};
use pihole_sync::path::{base_len, chars_of, child_of, element_of};

fn chars(s: &str) -> Vec<char> {
    s.chars().collect()
}

#[test]
fn texts_are_ordered_as_strings_are() {
    let words = ["", "a", "A", "ab", "b", "é", "z", "aa", "a b", "Z"];
    for a in words {
        for b in words {
            assert_eq!(text_le(&chars(a), &chars(b)), a <= b, "{:?} <= {:?}", a, b);
            assert_eq!(text_eq(&chars(a), &chars(b)), a == b);
        }
    }
}

#[test]
fn the_ranking_is_a_stable_sort() {
    let keys: Vec<(Vec<char>, Vec<char>)> = [("b", "x"), ("a", "z"), ("b", "a"), ("a", "z"), ("", "")]
        .iter()
        .map(|(a, b)| (chars(a), chars(b)))
        .collect();
    assert_eq!(ranking_of(&keys), vec![4, 1, 3, 2, 0]);
    assert_eq!(ranking_of(&vec![]), Vec::<usize>::new());
}

#[test]
fn paths_are_built_with_dots_and_indices() {
    assert_eq!(child_of(&chars(""), "dns"), chars("dns"));
    assert_eq!(child_of(&chars("dns"), "upstreams"), chars("dns.upstreams"));
    assert_eq!(element_of(&chars("dns.upstreams"), 0), chars("dns.upstreams[0]"));
    assert_eq!(element_of(&chars("a"), 1234567890), chars("a[1234567890]"));
    assert_eq!(element_of(&chars(""), 7), chars("[7]"));
    assert_eq!(chars_of("héllo"), chars("héllo"));
}

#[test]
fn the_base_of_a_path_ends_at_the_first_bracket() {
    assert_eq!(base_len(&chars("dns.upstreams[3]")), 13);
    assert_eq!(base_len(&chars("a[0].b[1]")), 1);
    assert_eq!(base_len(&chars("plain")), 5);
    assert_eq!(base_len(&chars("")), 0);
    assert_eq!(base_len(&chars("[0]")), 0);
}
