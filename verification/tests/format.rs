use openab::format::{shorten_thread_name, split_message};

#[test]
fn short_reply_is_one_message() {
    assert_eq!(split_message("hello\nworld", 100), vec!["hello\nworld"]);
}

#[test]
fn nothing_is_no_message() {
    assert!(split_message("", 10).is_empty());
}

#[test]
fn reply_is_cut_at_the_last_line_end_that_fits() {
    assert_eq!(split_message("ab\ncd\nefghij", 7), vec!["ab\ncd\n", "efghij"]);
}

#[test]
fn long_line_is_cut_where_it_has_to_be() {
    assert_eq!(split_message("abcdefgh", 3), vec!["abc", "def", "gh"]);
}

#[test]
fn reply_of_just_the_limit_is_one_message() {
    assert_eq!(split_message("abcde", 5), vec!["abcde"]);
}

#[test]
fn length_is_counted_in_characters() {
    assert_eq!(split_message("日本語日本語", 4), vec!["日本語日", "本語"]);
}

#[test]
fn parts_strung_together_are_the_reply() {
    let text = "first line\nsecond, a longer line\n\nthird 日本 line without an end";
    for limit in 1..70 {
        let parts = split_message(text, limit);
        assert_eq!(parts.concat(), text);
        assert!(parts.iter().all(|p| !p.is_empty() && p.chars().count() <= limit));
    }
}

#[test]
fn thread_is_named_by_the_first_line() {
    assert_eq!(shorten_thread_name("  fix the build\nplease"), "fix the build");
}

#[test]
fn thread_name_has_forty_characters_at_most() {
    assert_eq!(shorten_thread_name(&"x".repeat(90)), "x".repeat(40));
}

#[test]
fn thread_without_a_text_has_a_name() {
    assert_eq!(shorten_thread_name("  \n "), "conversation");
}
