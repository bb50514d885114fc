use gofile_dl::content::{
    collect_downloads, entry_name, list_downloads_from_content, Content, DownloadItem,
};
use serde_json::Value;
use std::collections::BTreeMap;

fn text_field(value: &Value, key: &str) -> Option<String> {
    value.get(key).and_then(|field| field.as_str()).map(|text| text.to_string())
}

fn content_from(value: &Value) -> Content {
    let mut content = Content::default();
    content.id = text_field(value, "id");
    content.code = text_field(value, "code");
    content.name = text_field(value, "name");
    content.kind = text_field(value, "type");
    content.size = value.get("size").and_then(|size| size.as_u64());
    content.link = text_field(value, "link");
    if let Some(children) = value.get("children").and_then(|children| children.as_object()) {
        for (id, child) in children {
            content.insert_child(id.clone(), content_from(child));
        }
    }
    content
}

fn file(name: &str, link: Option<&str>, size: Option<u64>) -> Content {
    let mut content = Content::default();
    content.name = Some(name.to_string());
    content.kind = Some("file".to_string());
    content.link = link.map(|url| url.to_string());
    content.size = size;
    content
}

fn folder(name: &str, children: Vec<(&str, Content)>) -> Content {
    let mut content = Content::default();
    content.name = Some(name.to_string());
    content.kind = Some("folder".to_string());
    for (id, child) in children {
        content.insert_child(id.to_string(), child);
    }
    content
}

fn paths(items: &[DownloadItem]) -> Vec<String> {
    items.iter().map(|item| item.relative_path.clone()).collect()
}

#[test]
fn flattens_nested_content_tree() {
    let json = r#"{
            "name": "root",
            "type": "folder",
            "children": {
                "folder-id": {
                    "name": "sub/folder",
                    "type": "folder",
                    "children": {
                        "file-id": {
                            "name": "video.mp4",
                            "type": "file",
                            "size": 42,
                            "link": "https://example.com/video.mp4"
                        }
                    }
                }
            }
        }"#;

    let value: Value = serde_json::from_str(json).unwrap();
    let content = content_from(&value);
    let items = list_downloads_from_content(content, "root".to_string());

    assert_eq!(items.len(), 1);
    assert_eq!(items[0].relative_path, "root/sub_folder/video.mp4");
    assert_eq!(items[0].size, Some(42));
    assert_eq!(items[0].url, "https://example.com/video.mp4");
}

#[test]
fn a_file_alone_goes_to_the_root_path() {
    let items = list_downloads_from_content(file("x", Some("u"), None), "here".to_string());
    assert_eq!(paths(&items), ["here"]);
    assert_eq!(items[0].url, "u");
    assert_eq!(items[0].size, None);
}

#[test]
fn files_without_a_link_and_empty_folders_are_passed_over() {
    let root = folder("r", vec![("1", file("a", None, Some(1))), ("2", folder("b", vec![]))]);
    assert!(list_downloads_from_content(root, "r".to_string()).is_empty());
}

#[test]
fn entries_of_a_file_are_passed_over() {
    let mut odd = file("odd", None, None);
    odd.insert_child("1".to_string(), file("a", Some("u"), None));
    assert!(list_downloads_from_content(odd, "r".to_string()).is_empty());
}

#[test]
fn anything_but_a_file_is_walked() {
    let mut root = folder("r", vec![("1", file("a", Some("u"), None))]);
    root.kind = None;
    assert_eq!(paths(&list_downloads_from_content(root, "r".to_string())), ["r/a"]);
    let mut root = folder("r", vec![("1", file("a", Some("u"), None))]);
    root.kind = Some("File".to_string());
    assert_eq!(paths(&list_downloads_from_content(root, "".to_string())), ["a"]);
}

#[test]
fn blank_names_give_way_to_identifiers() {
    assert_eq!(entry_name("id:1", &None), "id_1");
    assert_eq!(entry_name("id", &Some("  ".to_string())), "id");
    assert_eq!(entry_name("id", &Some(" name ".to_string())), "name");
    assert_eq!(entry_name("", &None), "_");
}

#[test]
fn entries_come_in_the_order_of_their_identifiers() {
    let one = folder("r", vec![
        ("b", file("2", Some("u2"), None)),
        ("a", file("1", Some("u1"), None)),
        ("c", file("3", Some("u3"), None)),
        ("B", file("0", Some("u0"), None)),
    ]);
    let other = folder("r", vec![
        ("c", file("3", Some("u3"), None)),
        ("B", file("0", Some("u0"), None)),
        ("a", file("1", Some("u1"), None)),
        ("b", file("2", Some("u2"), None)),
    ]);
    let first = list_downloads_from_content(one, "r".to_string());
    let second = list_downloads_from_content(other, "r".to_string());
    assert_eq!(paths(&first), ["r/0", "r/1", "r/2", "r/3"]);
    assert_eq!(paths(&first), paths(&second));
}

#[test]
fn inserting_is_that_of_a_sorted_map() {
    let ids = ["m", "a", "z", "m", "é", "a", "", "mm", "\u{10000}", "\u{ffff}", "m"];
    let mut content = Content::default();
    let mut map: BTreeMap<String, u64> = BTreeMap::new();
    for (n, id) in ids.iter().enumerate() {
        content.insert_child(id.to_string(), file("f", Some("u"), Some(n as u64)));
        map.insert(id.to_string(), n as u64);
        let got: Vec<(String, Option<u64>)> =
            content.children.iter().map(|(id, child)| (id.clone(), child.size)).collect();
        let expected: Vec<(String, Option<u64>)> =
            map.iter().map(|(id, n)| (id.clone(), Some(*n))).collect();
        assert_eq!(got, expected);
    }
}

#[test]
fn no_shared_name_leads_out_of_the_root() {
    let root = folder("r", vec![
        ("1", folder("..", vec![("1", file("/etc/passwd", Some("u"), None))])),
        ("2", file("../../x", Some("u"), None)),
        ("3", file("C:\\y", Some("u"), None)),
    ]);
    let items = list_downloads_from_content(root, "r".to_string());
    assert_eq!(paths(&items), ["r/_/_etc_passwd", "r/_.._x", "r/C__y"]);
}

#[test]
fn distinct_local_names_give_distinct_paths() {
    let root = folder("r", vec![
        ("1", folder("a", vec![("1", file("b", Some("u"), None))])),
        ("2", file("ab", Some("v"), None)),
        ("3", folder("a b", vec![("1", file("b", Some("w"), None))])),
    ]);
    let mut all = paths(&list_downloads_from_content(root, "r".to_string()));
    all.sort();
    all.dedup();
    assert_eq!(all.len(), 3);
}

#[test]
fn collecting_appends() {
    let mut items = vec![DownloadItem {
        url: "first".to_string(),
        relative_path: "p".to_string(),
        size: Some(1),
    }];
    collect_downloads(&file("x", Some("second"), Some(2)), "q".to_string(), &mut items);
    assert_eq!(paths(&items), ["p", "q"]);
    let copy = items[1].clone();
    assert_eq!((copy.url.as_str(), copy.size), ("second", Some(2)));
}
