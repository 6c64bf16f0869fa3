use pika::text::trim;

#[test]
fn whitespace_agrees_with_std_on_every_char() {
    for code in 0u32..=0x10FFFF {
        if let Some(c) = char::from_u32(code) {
            assert_eq!(trim(&[c]).is_empty(), c.is_whitespace(), "U+{:04X}", code);
        }
    }
}

#[test]
fn trim_removes_unicode_spaces() {
    let s: Vec<char> = "\u{3000} a b\u{A0}\t".chars().collect();
    let t: String = trim(&s).into_iter().collect();
    assert_eq!(t, "a b");
}
