use trim_in_place::{TrimInPlace, Whitespace};

#[test]
fn trim_both_ends_overlapping_move() {
    let mut s = String::from("   1234 abcd  ");
    assert_eq!(s.trim_in_place(), "1234 abcd");
    assert_eq!(s, "1234 abcd");
}

#[test]
fn trim_matches_char_both_ends() {
    let mut s = String::from("xxhelloxx");
    assert_eq!(s.trim_matches_in_place('x'), "hello");
    assert_eq!(s, "hello");
}

#[test]
fn trim_start_matches_char() {
    let mut s = String::from("xxhelloxx");
    assert_eq!(s.trim_start_matches_in_place('x'), "helloxx");
    assert_eq!(s, "helloxx");
}

#[test]
fn trim_end_matches_char() {
    let mut s = String::from("xxhelloxx");
    assert_eq!(s.trim_end_matches_in_place('x'), "xxhello");
    assert_eq!(s, "xxhello");
}

#[test]
fn trim_start_matches_literal_whole_copies() {
    let mut s = String::from("abab abab hi");
    assert_eq!(s.trim_start_matches_in_place("ab"), " abab hi");
    assert_eq!(s, " abab hi");
}

#[test]
fn trim_start_matches_literal_leaves_partial_copy() {
    let mut s = String::from("ababa");
    assert_eq!(s.trim_start_matches_in_place("ab"), "a");
}

#[test]
fn trim_end_matches_literal_whole_copies() {
    let mut s = String::from("hi abab abab");
    assert_eq!(s.trim_end_matches_in_place("ab"), "hi abab ");
    let mut t = String::from("babab");
    assert_eq!(t.trim_end_matches_in_place("ab"), "b");
}

#[test]
fn empty_literal_strips_nothing() {
    let mut s = String::from("abc");
    assert_eq!(s.trim_start_matches_in_place(""), "abc");
    assert_eq!(s.trim_end_matches_in_place(""), "abc");
}

#[test]
fn trim_with_predicate() {
    let mut s = String::from("123abc456");
    assert_eq!(s.trim_start_matches_in_place(|c: char| c.is_numeric()), "abc456");
    let mut t = String::from("123abc456");
    assert_eq!(t.trim_end_matches_in_place(|c: char| c.is_numeric()), "123abc");
}

#[test]
fn trim_start_and_end_whitespace() {
    let mut s = String::from(" \t\n x y \r\n ");
    assert_eq!(s.trim_start_in_place(), "x y \r\n ");
    let mut t = String::from(" \t\n x y \r\n ");
    assert_eq!(t.trim_end_in_place(), " \t\n x y");
}

#[test]
fn empty_buffer_every_operation() {
    let mut s = String::new();
    assert_eq!(s.trim_in_place(), "");
    assert_eq!(s.trim_start_in_place(), "");
    assert_eq!(s.trim_end_in_place(), "");
    assert_eq!(s.trim_matches_in_place('x'), "");
    assert_eq!(s.trim_start_matches_in_place("ab"), "");
    assert_eq!(s.trim_end_matches_in_place(|c: char| c == 'q'), "");
    assert!(s.is_empty());
}

#[test]
fn fully_consumed_buffers() {
    let mut s = String::from(" \t \n\u{3000} ");
    assert_eq!(s.trim_in_place(), "");
    let mut t = String::from("   ");
    assert_eq!(t.trim_start_in_place(), "");
    let mut u = String::from("   ");
    assert_eq!(u.trim_end_in_place(), "");
    let mut v = String::from("xxxx");
    assert_eq!(v.trim_matches_in_place('x'), "");
    let mut w = String::from("ababab");
    assert_eq!(w.trim_start_matches_in_place("ab"), "");
    let mut z = String::from("ababab");
    assert_eq!(z.trim_end_matches_in_place("ab"), "");
}

#[test]
fn second_trim_is_no_op() {
    let mut s = String::from("  a b  ");
    s.trim_in_place();
    let once = s.clone();
    s.trim_in_place();
    assert_eq!(s, once);
    let mut t = String::from("ababxab");
    t.trim_start_matches_in_place("ab");
    assert_eq!(t, "xab");
    t.trim_start_matches_in_place("ab");
    assert_eq!(t, "xab");
    let mut u = String::from("--x--");
    u.trim_end_matches_in_place('-');
    u.trim_end_matches_in_place('-');
    assert_eq!(u, "--x");
}

#[test]
fn capacity_and_allocation_kept() {
    let mut s = String::with_capacity(64);
    s.push_str("   1234 abcd  ");
    let cap = s.capacity();
    let ptr = s.as_ptr();
    s.trim_in_place();
    assert_eq!(s.capacity(), cap);
    assert_eq!(s.as_ptr(), ptr);
    s.trim_start_matches_in_place("12");
    s.trim_end_matches_in_place('d');
    assert_eq!(s, "34 abc");
    assert_eq!(s.capacity(), cap);
    assert_eq!(s.as_ptr(), ptr);
}

#[test]
fn agrees_with_std_trimming() {
    let samples = [
        "",
        " ",
        "abc",
        "  héllo wörld  ",
        "\u{2003}\u{3000}日本語\u{00a0}\u{2028}",
        "\u{85}x\u{85}",
        "ß ß",
        "  \u{1f600}  ",
    ];
    for sample in samples.iter() {
        let mut a = String::from(*sample);
        assert_eq!(a.trim_in_place(), sample.trim());
        let mut b = String::from(*sample);
        assert_eq!(b.trim_start_in_place(), sample.trim_start());
        let mut c = String::from(*sample);
        assert_eq!(c.trim_end_in_place(), sample.trim_end());
        let mut d = String::from(*sample);
        assert_eq!(d.trim_matches_in_place('ß'), sample.trim_matches('ß'));
        let mut e = String::from(*sample);
        assert_eq!(e.trim_start_matches_in_place("\u{2003}"), sample.trim_start_matches("\u{2003}"));
        let mut f = String::from(*sample);
        assert_eq!(
            f.trim_end_matches_in_place(|c: char| !c.is_alphabetic()),
            sample.trim_end_matches(|c: char| !c.is_alphabetic())
        );
    }
}

#[test]
fn multibyte_content_moved_intact() {
    let mut s = String::from("\u{3000}\u{3000}日本語 テキスト\u{3000}");
    assert_eq!(s.trim_in_place(), "日本語 テキスト");
    let mut t = String::from("ééaé");
    assert_eq!(t.trim_start_matches_in_place('é'), "aé");
    let mut u = String::from("🙂🙂x🙂");
    assert_eq!(u.trim_end_matches_in_place("🙂"), "🙂🙂x");
}

#[test]
fn unmatched_buffer_unchanged() {
    let mut s = String::from("hello");
    assert_eq!(s.trim_in_place(), "hello");
    assert_eq!(s.trim_matches_in_place('x'), "hello");
    assert_eq!(s.trim_start_matches_in_place("xy"), "hello");
    assert_eq!(s.trim_end_matches_in_place(|c: char| c == 'z'), "hello");
}

#[test]
fn whitespace_as_pattern() {
    let mut s = String::from(" \t ab \n");
    assert_eq!(s.trim_start_matches_in_place(Whitespace), "ab \n");
    assert_eq!(s.trim_end_matches_in_place(Whitespace), "ab");
}
