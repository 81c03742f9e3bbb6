use w3bay::page::{page_limit, page_of, text_before};

#[test]
fn texts_are_ordered_by_code_point() {
    assert!(text_before("", "a"));
    assert!(!text_before("", ""));
    assert!(!text_before("a", ""));
    assert!(text_before("10", "2"));
    assert!(text_before("1", "10"));
    assert!(!text_before("10", "1"));
    assert!(!text_before("abc", "abc"));
    assert!(text_before("abc", "abd"));
    assert!(text_before("Z", "a"));
    assert!(text_before("z", "é"));
    assert!(text_before("é", "€"));
    for (a, b) in [("10", "2"), ("z", "é"), ("é", "€"), ("ab", "abc"), ("", "x")] {
        assert_eq!(text_before(a, b), a.as_bytes() < b.as_bytes());
        assert_eq!(text_before(b, a), b.as_bytes() < a.as_bytes());
    }
}

#[test]
fn page_limits_have_a_default_and_a_cap() {
    assert_eq!(page_limit(None), 10);
    assert_eq!(page_limit(Some(0)), 0);
    assert_eq!(page_limit(Some(37)), 37);
    assert_eq!(page_limit(Some(100)), 100);
    assert_eq!(page_limit(Some(101)), 100);
    assert_eq!(page_limit(Some(u32::MAX)), 100);
}

#[test]
fn pages_hold_the_least_keys_beyond_the_cursor() {
    let keys: Vec<String> = ["m", "b", "x", "a", "c"].iter().map(|k| k.to_string()).collect();
    let chosen = vec![true, true, false, true, true];
    assert_eq!(page_of(&keys, &chosen, &None, 10), vec![3, 1, 4, 0]);
    assert_eq!(page_of(&keys, &chosen, &None, 2), vec![3, 1]);
    assert_eq!(page_of(&keys, &chosen, &Some("b".to_string()), 2), vec![4, 0]);
    assert_eq!(page_of(&keys, &chosen, &Some("m".to_string()), 2), Vec::<usize>::new());
    assert_eq!(page_of(&keys, &chosen, &None, 0), Vec::<usize>::new());
}
