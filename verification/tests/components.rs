use bookmark_export::catalog::{get_browser_info, get_path, Browser};
use bookmark_export::profiles::{list_profiles, SchemaError};
use bookmark_export::record::BookmarkRecord;
use bookmark_export::sink::{to_csv, BookmarkList};
use bookmark_export::tree::RawNode;
use bookmark_export::walk::walk;

#[test]
fn catalog_lists_chrome() {
    let info = get_path(&Browser::Chrome);
    assert_eq!(info.app_name, "Google Chrome");
    assert_eq!(info.data_dir, "Library/Application Support/Google/Chrome");
    assert_eq!(info.app_path.len(), 1);
    assert_eq!(
        info.app_path[0],
        "/Applications/Google Chrome.app/Contents/MacOS/Google Chrome"
    );
}

#[test]
fn catalog_lists_edge_and_brave() {
    let edge = get_path(&Browser::Edge);
    assert_eq!(edge.app_name, "Microsoft Edge");
    assert_eq!(edge.data_dir, "Library/Application Support/Microsoft Edge");
    let brave = get_path(&Browser::Brave);
    assert_eq!(brave.app_name, "Brave Browser");
    assert_eq!(
        brave.data_dir,
        "Library/Application Support/BraveSoftware/Brave-Browser"
    );
}

#[test]
fn only_browsers_with_an_existing_candidate_are_installed() {
    let browsers = vec![Browser::Chrome, Browser::Edge, Browser::Brave];
    let present = vec![vec![false], vec![true], vec![false]];
    let items = get_browser_info(&browsers, &present);
    assert_eq!(items.len(), 1);
    assert_eq!(items[0].0, Browser::Edge);
    assert_eq!(items[0].1.app_name, "Microsoft Edge");
}

#[test]
fn a_browser_with_no_candidates_is_not_installed() {
    let browsers = vec![Browser::Chrome, Browser::Brave];
    let present = vec![vec![], vec![true]];
    let items = get_browser_info(&browsers, &present);
    assert_eq!(items.len(), 1);
    assert_eq!(items[0].0, Browser::Brave);
}

#[test]
fn profiles_are_read_in_document_order() {
    let cache = Some(vec![
        ("Default".to_string(), Some("Person 1".to_string())),
        ("Profile 1".to_string(), Some("Work".to_string())),
    ]);
    let root = "/home/user/.config/google-chrome".to_string();
    let profiles = list_profiles(&root, &cache).unwrap();
    assert_eq!(profiles.len(), 2);
    assert_eq!(profiles[0].key, "Default");
    assert_eq!(profiles[0].display_name, "Person 1");
    assert_eq!(
        profiles[0].bookmarks_path,
        "/home/user/.config/google-chrome/Default/Bookmarks"
    );
    assert_eq!(profiles[1].key, "Profile 1");
    assert_eq!(profiles[1].display_name, "Work");
    assert_eq!(
        profiles[1].bookmarks_path,
        "/home/user/.config/google-chrome/Profile 1/Bookmarks"
    );
}

#[test]
fn an_empty_info_cache_yields_no_profiles() {
    let cache: Option<Vec<(String, Option<String>)>> = Some(vec![]);
    let root = "/data".to_string();
    let profiles = list_profiles(&root, &cache).unwrap();
    assert!(profiles.is_empty());
}

#[test]
fn absent_info_cache_is_a_schema_error() {
    let root = "/data".to_string();
    let err = list_profiles(&root, &None).unwrap_err();
    assert_eq!(err, SchemaError::MissingInfoCache);
}

#[test]
fn entry_without_display_name_is_a_schema_error() {
    let cache = Some(vec![
        ("Default".to_string(), Some("Person 1".to_string())),
        ("Profile 1".to_string(), None),
    ]);
    let root = "/data".to_string();
    let err = list_profiles(&root, &cache).unwrap_err();
    assert_eq!(err, SchemaError::MissingProfileName);
}

fn record(path: &str, url: &str) -> BookmarkRecord {
    BookmarkRecord {
        folder_path: path.to_string(),
        url: url.to_string(),
        source_label: "testing".to_string(),
    }
}

#[test]
fn batch_preserves_arrival_order_across_appends() {
    let mut list = BookmarkList::new();
    list.push(record("A/x", "https://x.test"));
    let mut more = vec![record("B/y", "https://y.test"), record("B/z", "https://z.test")];
    list.append(&mut more);
    assert!(more.is_empty());
    assert_eq!(list.data.len(), 3);
    assert_eq!(list.data[0].folder_path, "A/x");
    assert_eq!(list.data[1].folder_path, "B/y");
    assert_eq!(list.data[2].folder_path, "B/z");
}

#[test]
fn csv_rows_come_out_in_order_without_header() {
    let mut list = BookmarkList::new();
    list.push(record("Default/Bookmarks bar/Example", "https://example.com"));
    list.push(record("Work/Bookmarks bar/Docs", "https://docs.test"));
    let bytes = to_csv(&list);
    let text = String::from_utf8(bytes).unwrap();
    assert_eq!(
        text,
        "Default/Bookmarks bar/Example,https://example.com,testing\n\
         Work/Bookmarks bar/Docs,https://docs.test,testing\n"
    );
}

#[test]
fn csv_quotes_fields_that_need_it() {
    let mut list = BookmarkList::new();
    list.push(record("Default/News, weather/Site", "https://s.test"));
    let bytes = to_csv(&list);
    let text = String::from_utf8(bytes).unwrap();
    assert_eq!(text, "\"Default/News, weather/Site\",https://s.test,testing\n");
}

#[test]
fn empty_batch_encodes_to_no_bytes() {
    let list = BookmarkList::new();
    let bytes = to_csv(&list);
    assert!(bytes.is_empty());
}

fn folder(id: &str, name: &str, children: Vec<RawNode>) -> RawNode {
    RawNode {
        id: Some(id.to_string()),
        name: Some(name.to_string()),
        node_type: Some("folder".to_string()),
        url: None,
        children: Some(children),
    }
}

fn bookmark(id: &str, name: &str, url: &str) -> RawNode {
    RawNode {
        id: Some(id.to_string()),
        name: Some(name.to_string()),
        node_type: Some("url".to_string()),
        url: Some(url.to_string()),
        children: None,
    }
}

#[test]
fn two_profiles_export_two_correctly_labeled_rows() {
    let roots_a = vec![folder(
        "1",
        "Bookmarks bar",
        vec![bookmark("10", "Alpha", "https://alpha.test")],
    )];
    let roots_b = vec![folder(
        "1",
        "Bookmarks bar",
        vec![bookmark("11", "Beta", "https://beta.test")],
    )];
    let mut list = BookmarkList::new();
    let mut records_a = walk(&roots_a, &"Person 1".to_string()).unwrap();
    list.append(&mut records_a);
    let mut records_b = walk(&roots_b, &"Person 2".to_string()).unwrap();
    list.append(&mut records_b);
    let text = String::from_utf8(to_csv(&list)).unwrap();
    let rows: Vec<&str> = text.lines().collect();
    assert_eq!(rows.len(), 2);
    assert_eq!(rows[0], "Person 1/Bookmarks bar/Alpha,https://alpha.test,testing");
    assert_eq!(rows[1], "Person 2/Bookmarks bar/Beta,https://beta.test,testing");
    assert!(!rows[0].contains("Person 2"));
    assert!(!rows[1].contains("Person 1"));
}
