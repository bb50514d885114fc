use gofile_dl::share::{
    extract_content_id, find_id, is_parsable, resolve_content_id, share_url, ShareError,
};

fn list(segments: &[&str]) -> Vec<String> {
    segments.iter().map(|segment| segment.to_string()).collect()
}

#[test]
fn extracts_content_id_from_gofile_url() {
    assert_eq!(
        extract_content_id("https://gofile.io/d/r3dUsW").unwrap(),
        "r3dUsW"
    );
}

#[test]
fn accepts_raw_content_id() {
    assert_eq!(extract_content_id("r3dUsW").unwrap(), "r3dUsW");
}

#[test]
fn a_link_and_its_identifier_name_the_same_share() {
    for id in ["r3dUsW", "AbCdEf", "a", "0", "123e4567-e89b-12d3", "_x-Y_9"] {
        assert_eq!(share_url(id), format!("https://gofile.io/d/{id}"));
        assert_eq!(extract_content_id(&share_url(id)).unwrap(), id);
        assert_eq!(extract_content_id(id).unwrap(), id);
    }
    let long = "aB3-_".repeat(200_000);
    assert_eq!(extract_content_id(&share_url(&long)).unwrap(), long);
    assert_eq!(extract_content_id(&long).unwrap(), long);
}

#[test]
fn ordinary_text_can_be_read() {
    for input in ["", "r3dUsW", "https://gofile.io/d/r3dUsW", "https://user@host/d/x", "a:b"] {
        assert!(is_parsable(input), "{input}");
    }
}

#[test]
fn text_without_a_colon_is_an_identifier() {
    assert_eq!(extract_content_id("  r3dUsW\n").unwrap(), "r3dUsW");
    assert_eq!(extract_content_id("gofile.io/d/abc").unwrap(), "gofile.io/d/abc");
    assert_eq!(extract_content_id("/d/abc").unwrap(), "/d/abc");
    assert_eq!(extract_content_id(""), Err(ShareError::EmptyId));
    assert_eq!(extract_content_id(" \t\u{3000}"), Err(ShareError::EmptyId));
}

#[test]
fn text_that_only_looks_like_a_url_is_an_identifier() {
    assert_eq!(extract_content_id(" a b:c ").unwrap(), "a b:c");
    assert_eq!(extract_content_id("https://").unwrap(), "https://");
}

#[test]
fn links_are_searched_for_d() {
    assert_eq!(extract_content_id(" HTTPS://gofile.io/d/abc?x=1#y ").unwrap(), "abc");
    assert_eq!(extract_content_id("https://example.com/x/d/abc/d/def").unwrap(), "abc");
    assert_eq!(extract_content_id("https://gofile.io/d//d/abc").unwrap(), "abc");
    assert_eq!(extract_content_id("https://gofile.io/d/d/abc").unwrap(), "d");
    assert_eq!(extract_content_id("https://gofile.io/d/a%20b").unwrap(), "a%20b");
    assert_eq!(extract_content_id("https://gofile.io/d/a b").unwrap(), "a%20b");
}

#[test]
fn links_without_an_identifier_are_refused() {
    for link in [
        "https://gofile.io",
        "https://gofile.io/d",
        "https://gofile.io/d/",
        "https://gofile.io/D/abc",
        "https://gofile.io/x/abc",
    ] {
        assert_eq!(extract_content_id(link), Err(ShareError::NoIdInUrl), "{link}");
    }
}

#[test]
fn links_without_a_path_are_refused() {
    assert_eq!(extract_content_id("mailto:someone"), Err(ShareError::NoPath));
    assert_eq!(extract_content_id("data:text/plain,x"), Err(ShareError::NoPath));
}

#[test]
fn what_was_read_of_a_url_decides() {
    assert_eq!(resolve_content_id("x", Some(None)), Err(ShareError::NoPath));
    assert_eq!(resolve_content_id("x", Some(Some(vec![]))), Err(ShareError::NoIdInUrl));
    assert_eq!(resolve_content_id("x", Some(Some(list(&["d", "y"])))).unwrap(), "y");
    assert_eq!(resolve_content_id(" x ", None).unwrap(), "x");
    assert_eq!(resolve_content_id(" ", None), Err(ShareError::EmptyId));
    assert_eq!(find_id(&list(&["d", " ", "d", "y"])), Some("y".to_string()));
    assert_eq!(find_id(&list(&["d", "", "y"])), None);
    assert_eq!(find_id(&list(&["d"])), None);
}

#[test]
fn share_errors_have_messages() {
    assert_eq!(ShareError::NoPath.message(), "Gofile URL has no path");
    assert_eq!(ShareError::NoIdInUrl.message(), "could not find /d/<id> in Gofile URL");
    assert_eq!(ShareError::EmptyId.message(), "content id is empty");
}
