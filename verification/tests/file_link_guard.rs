use coraldesk::security::file_link_guard::{
    count_listed, has_multiple_hard_links, link_count, LinkReport,
};

#[test]
fn single_link_file_is_not_flagged() {
    assert!(!has_multiple_hard_links(&LinkReport::Metadata(Some(1))));
    assert!(!has_multiple_hard_links(&LinkReport::Listing(
        true,
        b"\\work\\single.txt\r\n".to_vec()
    )));
}

#[test]
fn hard_link_file_is_flagged_when_supported() {
    assert!(has_multiple_hard_links(&LinkReport::Metadata(Some(2))));
    assert!(has_multiple_hard_links(&LinkReport::Listing(
        true,
        b"\\work\\original.txt\r\n\\work\\linked.txt\r\n".to_vec()
    )));
}

#[test]
fn unknown_links_count_as_one() {
    assert_eq!(link_count(&LinkReport::Metadata(None)), 1);
    assert_eq!(link_count(&LinkReport::Unknown), 1);
    assert_eq!(link_count(&LinkReport::Listing(false, b"a\nb\nc\n".to_vec())), 1);
    assert_eq!(link_count(&LinkReport::Metadata(Some(0))), 0);
}

#[test]
fn listing_is_counted_by_its_lines() {
    assert_eq!(link_count(&LinkReport::Listing(true, b"a\n \t\n\nb".to_vec())), 2);
    assert_eq!(link_count(&LinkReport::Listing(true, Vec::new())), 1);
    assert_eq!(link_count(&LinkReport::Listing(true, b"\xff\n\xfe\nx".to_vec())), 3);
    assert_eq!(count_listed("one\ntwo\r\nthree"), 3);
    assert_eq!(count_listed(""), 1);
}
