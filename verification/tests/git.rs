use schema_tracker::git::get_git_commit;

#[test]
fn revision_is_what_the_command_printed() {
    assert_eq!(
        get_git_commit(true, b"71c00814247c3c2d6e134c3cbd0f23f6745b1466\n".to_vec()),
        Some("71c00814247c3c2d6e134c3cbd0f23f6745b1466".to_string())
    );
}

#[test]
fn whitespace_around_the_revision_is_dropped() {
    assert_eq!(get_git_commit(true, b"  \tabc def \r\n\n".to_vec()), Some("abc def".to_string()));
    assert_eq!(get_git_commit(true, b"\n".to_vec()), Some(String::new()));
    assert_eq!(get_git_commit(true, Vec::new()), Some(String::new()));
}

#[test]
fn failed_command_names_no_revision() {
    assert_eq!(get_git_commit(false, b"abc\n".to_vec()), None);
    assert_eq!(get_git_commit(false, Vec::new()), None);
}

#[test]
fn output_that_is_not_text_names_no_revision() {
    assert_eq!(get_git_commit(true, vec![0x61, 0xff, 0x62]), None);
    assert_eq!(get_git_commit(true, vec![0xc3]), None);
    assert_eq!(get_git_commit(true, vec![0xc3, 0xa9, 0x0a]), Some("é".to_string()));
}

#[test]
fn whitespace_is_that_of_unicode() {
    for c in ['\u{9}', '\u{a}', '\u{b}', '\u{c}', '\u{d}', ' ', '\u{85}', '\u{a0}', '\u{1680}',
        '\u{2000}', '\u{2005}', '\u{200a}', '\u{2028}', '\u{2029}', '\u{202f}', '\u{205f}',
        '\u{3000}']
    {
        let printed = format!("{}abc{}", c, c);
        assert_eq!(get_git_commit(true, printed.into_bytes()), Some("abc".to_string()), "{:?}", c);
    }
    for c in ['\u{8}', '\u{e}', '\u{1f}', '\u{180e}', '\u{200b}', '\u{2060}', '\u{feff}', '_'] {
        let printed = format!("{}abc{}", c, c);
        assert_eq!(get_git_commit(true, printed.clone().into_bytes()), Some(printed), "{:?}", c);
    }
}

#[test]
fn whitespace_within_the_revision_stays() {
    assert_eq!(
        get_git_commit(true, b"\n a \t b \n".to_vec()),
        Some("a \t b".to_string())
    );
    assert_eq!(get_git_commit(true, b" \t\r\n ".to_vec()), Some(String::new()));
}
