use bookmark_export::tree::{MalformedNodeError, RawNode};
use bookmark_export::walk::walk;

fn folder(id: &str, name: &str, children: Vec<RawNode>) -> RawNode {
    RawNode {
        id: Some(id.to_string()),
        name: Some(name.to_string()),
        node_type: Some("folder".to_string()),
        url: None,
        children: Some(children),
    }
}

fn bookmark(id: &str, name: &str, url: &str) -> RawNode {
    RawNode {
        id: Some(id.to_string()),
        name: Some(name.to_string()),
        node_type: Some("url".to_string()),
        url: Some(url.to_string()),
        children: None,
    }
}

#[test]
fn single_bookmark_in_bookmarks_bar() {
    let roots = vec![folder(
        "1",
        "Bookmarks bar",
        vec![bookmark("10", "Example", "https://example.com")],
    )];
    let records = walk(&roots, &"Default".to_string()).unwrap();
    assert_eq!(records.len(), 1);
    assert_eq!(records[0].folder_path, "Default/Bookmarks bar/Example");
    assert_eq!(records[0].url, "https://example.com");
    assert_eq!(records[0].source_label, "testing");
}

#[test]
fn nested_folders_two_levels_deep() {
    let roots = vec![folder(
        "1",
        "Bookmarks bar",
        vec![folder(
            "20",
            "Work",
            vec![folder(
                "21",
                "Projects",
                vec![bookmark("22", "Tracker", "https://tracker.test")],
            )],
        )],
    )];
    let records = walk(&roots, &"Default".to_string()).unwrap();
    assert_eq!(records.len(), 1);
    assert_eq!(records[0].folder_path, "Default/Bookmarks bar/Work/Projects/Tracker");
    assert_eq!(records[0].url, "https://tracker.test");
}

#[test]
fn empty_folder_contributes_nothing_and_does_not_error() {
    let roots = vec![folder("1", "Bookmarks bar", vec![folder("30", "Empty", vec![])])];
    let records = walk(&roots, &"Default".to_string()).unwrap();
    assert_eq!(records.len(), 0);
}

#[test]
fn sibling_folders_do_not_inherit_each_others_paths() {
    let roots = vec![folder(
        "1",
        "Bookmarks bar",
        vec![
            folder("40", "First", vec![bookmark("41", "A", "https://a.test")]),
            folder("42", "Second", vec![bookmark("43", "B", "https://b.test")]),
        ],
    )];
    let records = walk(&roots, &"Default".to_string()).unwrap();
    assert_eq!(records.len(), 2);
    assert_eq!(records[0].folder_path, "Default/Bookmarks bar/First/A");
    assert_eq!(records[1].folder_path, "Default/Bookmarks bar/Second/B");
}

#[test]
fn each_root_group_gets_the_label_exactly_once() {
    let roots = vec![
        folder("1", "Bookmarks bar", vec![bookmark("50", "One", "https://one.test")]),
        folder("2", "Other bookmarks", vec![bookmark("51", "Two", "https://two.test")]),
        folder("3", "Mobile bookmarks", vec![bookmark("52", "Three", "https://three.test")]),
    ];
    let records = walk(&roots, &"Work".to_string()).unwrap();
    assert_eq!(records.len(), 3);
    assert_eq!(records[0].folder_path, "Work/Bookmarks bar/One");
    assert_eq!(records[1].folder_path, "Work/Other bookmarks/Two");
    assert_eq!(records[2].folder_path, "Work/Mobile bookmarks/Three");
}

#[test]
fn non_root_identifier_gets_no_label_prefix() {
    let roots = vec![folder("99", "Strange root", vec![bookmark("60", "Leaf", "https://l.test")])];
    let records = walk(&roots, &"Default".to_string()).unwrap();
    assert_eq!(records.len(), 1);
    assert_eq!(records[0].folder_path, "Strange root/Leaf");
}

#[test]
fn record_count_equals_url_node_count() {
    let roots = vec![folder(
        "1",
        "Bookmarks bar",
        vec![
            bookmark("70", "A", "https://a.test"),
            folder(
                "71",
                "Sub",
                vec![
                    bookmark("72", "B", "https://b.test"),
                    folder("73", "Deeper", vec![bookmark("74", "C", "https://c.test")]),
                    folder("75", "Empty", vec![]),
                ],
            ),
            bookmark("76", "D", "https://d.test"),
        ],
    )];
    let records = walk(&roots, &"Default".to_string()).unwrap();
    assert_eq!(records.len(), 4);
}

#[test]
fn every_path_starts_with_the_label_and_counts_its_segments() {
    let roots = vec![folder(
        "1",
        "Bar",
        vec![
            bookmark("80", "Top", "https://t.test"),
            folder("81", "Mid", vec![bookmark("82", "Deep", "https://d.test")]),
        ],
    )];
    let records = walk(&roots, &"Home".to_string()).unwrap();
    for r in records.iter() {
        assert!(r.folder_path.starts_with("Home/"));
    }
    assert_eq!(records[0].folder_path.matches('/').count(), 2);
    assert_eq!(records[1].folder_path.matches('/').count(), 3);
}

#[test]
fn missing_url_fails_that_profile_only() {
    let bad = RawNode {
        id: Some("90".to_string()),
        name: Some("Broken".to_string()),
        node_type: Some("url".to_string()),
        url: None,
        children: None,
    };
    let roots_a = vec![folder("1", "Bookmarks bar", vec![bad])];
    let err = walk(&roots_a, &"ProfileA".to_string()).unwrap_err();
    assert_eq!(err, MalformedNodeError::MissingUrl);

    let roots_b = vec![folder("1", "Bookmarks bar", vec![bookmark("91", "Fine", "https://f.test")])];
    let records = walk(&roots_b, &"ProfileB".to_string()).unwrap();
    assert_eq!(records.len(), 1);
    assert_eq!(records[0].folder_path, "ProfileB/Bookmarks bar/Fine");
}

#[test]
fn no_leakage_between_profiles_walked_in_sequence() {
    let roots_a = vec![folder(
        "1",
        "Bookmarks bar",
        vec![folder("11", "OnlyInA", vec![bookmark("12", "Alpha", "https://alpha.test")])],
    )];
    let records_a = walk(&roots_a, &"ProfileA".to_string()).unwrap();
    assert_eq!(records_a[0].folder_path, "ProfileA/Bookmarks bar/OnlyInA/Alpha");

    let roots_b = vec![folder(
        "1",
        "Bookmarks bar",
        vec![bookmark("13", "Beta", "https://beta.test")],
    )];
    let records_b = walk(&roots_b, &"ProfileB".to_string()).unwrap();
    assert_eq!(records_b.len(), 1);
    assert_eq!(records_b[0].folder_path, "ProfileB/Bookmarks bar/Beta");
    for r in records_b.iter() {
        assert!(!r.folder_path.contains("OnlyInA"));
        assert!(!r.folder_path.contains("ProfileA"));
    }
}

#[test]
fn empty_roots_object_exports_nothing() {
    let records = walk(&vec![], &"Default".to_string()).unwrap();
    assert_eq!(records.len(), 0);
}

#[test]
fn children_of_a_url_node_are_ignored() {
    let mut leaf = bookmark("15", "Odd", "https://odd.test");
    leaf.children = Some(vec![bookmark("16", "Inner", "https://inner.test")]);
    let roots = vec![folder("1", "Bookmarks bar", vec![leaf])];
    let records = walk(&roots, &"Default".to_string()).unwrap();
    assert_eq!(records.len(), 1);
    assert_eq!(records[0].folder_path, "Default/Bookmarks bar/Odd");
}

#[test]
fn missing_type_tag_is_malformed() {
    let node = RawNode {
        id: Some("1".to_string()),
        name: Some("Bookmarks bar".to_string()),
        node_type: None,
        url: None,
        children: Some(vec![]),
    };
    let err = walk(&vec![node], &"Default".to_string()).unwrap_err();
    assert_eq!(err, MalformedNodeError::MissingType);
}

#[test]
fn unknown_type_tag_is_malformed() {
    let node = RawNode {
        id: Some("1".to_string()),
        name: Some("Bookmarks bar".to_string()),
        node_type: Some("separator".to_string()),
        url: None,
        children: None,
    };
    let err = walk(&vec![node], &"Default".to_string()).unwrap_err();
    assert_eq!(err, MalformedNodeError::UnknownType);
}

#[test]
fn folder_without_children_is_malformed() {
    let node = RawNode {
        id: Some("1".to_string()),
        name: Some("Bookmarks bar".to_string()),
        node_type: Some("folder".to_string()),
        url: None,
        children: None,
    };
    let err = walk(&vec![node], &"Default".to_string()).unwrap_err();
    assert_eq!(err, MalformedNodeError::MissingChildren);
}

#[test]
fn missing_name_is_malformed() {
    let node = RawNode {
        id: Some("1".to_string()),
        name: None,
        node_type: Some("folder".to_string()),
        url: None,
        children: Some(vec![]),
    };
    let err = walk(&vec![node], &"Default".to_string()).unwrap_err();
    assert_eq!(err, MalformedNodeError::MissingName);
}

#[test]
fn missing_id_is_malformed() {
    let node = RawNode {
        id: None,
        name: Some("Bookmarks bar".to_string()),
        node_type: Some("folder".to_string()),
        url: None,
        children: Some(vec![]),
    };
    let err = walk(&vec![node], &"Default".to_string()).unwrap_err();
    assert_eq!(err, MalformedNodeError::MissingId);
}

#[test]
fn first_error_in_depth_first_order_wins() {
    let bad_deep = RawNode {
        id: Some("95".to_string()),
        name: Some("BadLeaf".to_string()),
        node_type: Some("url".to_string()),
        url: None,
        children: None,
    };
    let bad_late = RawNode {
        id: Some("96".to_string()),
        name: None,
        node_type: Some("folder".to_string()),
        url: None,
        children: Some(vec![]),
    };
    let roots = vec![folder(
        "1",
        "Bookmarks bar",
        vec![folder("94", "Sub", vec![bad_deep]), bad_late],
    )];
    let err = walk(&roots, &"Default".to_string()).unwrap_err();
    assert_eq!(err, MalformedNodeError::MissingUrl);
}
