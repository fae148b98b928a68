use cloud_trace_propagator::text::{chars_of, find_char, trim};

#[test]
fn chars_of_collects_every_character() {
    assert_eq!(chars_of(""), Vec::<char>::new());
    assert_eq!(chars_of("a/1"), vec!['a', '/', '1']);
    assert_eq!(chars_of("\u{e9}\u{2003}z"), vec!['\u{e9}', '\u{2003}', 'z']);
}

#[test]
fn find_char_finds_the_first() {
    assert_eq!(find_char(&['a', '/', 'b', '/'], '/'), Some(1));
    assert_eq!(find_char(&['/', 'a'], '/'), Some(0));
    assert_eq!(find_char(&['a', 'b'], '/'), None);
    assert_eq!(find_char(&[], '/'), None);
}

#[test]
fn trim_strips_both_ends_only() {
    let text: Vec<char> = " \t a b \n".chars().collect();
    assert_eq!(trim(&text), &['a', ' ', 'b']);
    assert_eq!(trim(&[' ', ' ']), &[] as &[char]);
    assert_eq!(trim(&[]), &[] as &[char]);
    assert_eq!(trim(&['x']), &['x']);
    assert_eq!(trim(&['\u{a0}', 'x', '\u{3000}']), &['x']);
}

#[test]
fn trim_agrees_with_str_trim() {
    for text in ["", " ", "a", " a", "a ", "\u{2028}a b\u{85}", "\u{200b}a", "_ a _"] {
        let chars: Vec<char> = text.chars().collect();
        let expected: Vec<char> = text.trim().chars().collect();
        assert_eq!(trim(&chars), expected.as_slice(), "text {:?}", text);
    }
}
