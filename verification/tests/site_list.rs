use gluetun_connector::sites::load_sites;

#[test]
fn blank_lines_and_comments_are_skipped() {
    let text = "# sites\nhttps://a.example\n\n   \n  https://b.example  \n#https://c.example\n";
    assert_eq!(load_sites(text), vec!["https://a.example", "https://b.example"]);
}

#[test]
fn windows_line_endings_and_a_missing_final_newline() {
    assert_eq!(load_sites("a\r\nb\r\n c"), vec!["a", "b", "c"]);
    assert_eq!(load_sites("x\r"), vec!["x"]);
}

#[test]
fn an_empty_file_lists_no_site() {
    assert!(load_sites("").is_empty());
    assert!(load_sites("\n\n").is_empty());
    assert!(load_sites("   # only a comment").is_empty());
}

#[test]
fn a_hash_inside_a_line_is_kept() {
    assert_eq!(load_sites("https://a.example/#x"), vec!["https://a.example/#x"]);
}
