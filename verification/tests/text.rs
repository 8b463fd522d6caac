use monkey::text::split_on_char;

#[test]
fn splits_at_every_separator() {
    assert_eq!(split_on_char("a,b,c", ','), vec!["a", "b", "c"]);
}

#[test]
fn keeps_empty_pieces() {
    assert_eq!(split_on_char("", ','), vec![""]);
    assert_eq!(split_on_char(",", ','), vec!["", ""]);
    assert_eq!(split_on_char("a,,b,", ','), vec!["a", "", "b", ""]);
}

#[test]
fn splits_like_str_split() {
    for s in ["x", "x,y", "é,ü,,ß", "example.org,example.com,127.1.1.1"] {
        let expected: Vec<String> = s.split(',').map(|p| p.to_string()).collect();
        assert_eq!(split_on_char(s, ','), expected);
    }
}
