use rssbox::util::str::{pretty_size_string, split_string_to_fixed_length_parts};

#[test]
fn pretty_size_string_picks_the_largest_unit() {
    assert_eq!(pretty_size_string(0), "0B");
    assert_eq!(pretty_size_string(1023), "1023B");
    assert_eq!(pretty_size_string(1024), "1K");
    assert_eq!(pretty_size_string(1024 * 1024 - 1), "1023K");
    assert_eq!(pretty_size_string(5 * 1024 * 1024), "5M");
    assert_eq!(pretty_size_string(3 * 1024 * 1024 * 1024), "3G");
}

#[test]
fn split_string_cuts_by_characters() {
    assert_eq!(split_string_to_fixed_length_parts("abcdefg", 3), vec!["abc", "def", "g"]);
    assert_eq!(split_string_to_fixed_length_parts("", 3), Vec::<String>::new());
    assert_eq!(split_string_to_fixed_length_parts("日本語テキスト", 2), vec!["日本", "語テ", "キス", "ト"]);
}

#[test]
fn pretty_size_string_writes_every_digit() {
    assert_eq!(pretty_size_string(7), "7B");
    assert_eq!(pretty_size_string(10), "10B");
    assert_eq!(pretty_size_string(1000), "1000B");
    assert_eq!(pretty_size_string(1024 * 1024 * 1024 - 1), "1023M");
    assert_eq!(pretty_size_string(u64::MAX), "17179869183G");
}
