use std::collections::hash_map::DefaultHasher;
use std::hash::Hasher;

use rubick::douban::get_subject;
use rubick::douban::get_subject_url;
use rubick::douban::image_name;
use rubick::douban::join_names;
use rubick::douban::link_of_path;
use rubick::douban::search_url;
use rubick::douban::segment_of;
use rubick::douban::DoubanError;
use rubick::douban::Page;
use rubick::douban::Wrap;
use rubick::model::Rating;
use rusqlite::types::Value;

#[test]
fn douban_error_keeps_its_message() {
    let e = DoubanError::new("Failed to get link of subject");
    assert_eq!(e.message, "Failed to get link of subject");
    assert_eq!(e.text(), "Failed to get link of subject");
}

#[test]
fn search_url_appends_the_keyword() {
    assert_eq!(search_url("Friends"), "https://www.douban.com/search?cat=1002&q=Friends");
    assert_eq!(search_url(""), "https://www.douban.com/search?cat=1002&q=");
}

#[test]
fn segment_of_cuts_at_slashes() {
    assert_eq!(segment_of("/subject/1393859/", 0), Some(String::new()));
    assert_eq!(segment_of("/subject/1393859/", 1), Some(String::from("subject")));
    assert_eq!(segment_of("/subject/1393859/", 2), Some(String::from("1393859")));
    assert_eq!(segment_of("/subject/1393859/", 3), Some(String::new()));
    assert_eq!(segment_of("/subject/1393859/", 4), None);
    assert_eq!(segment_of("", 0), Some(String::new()));
    assert_eq!(segment_of("", 1), None);
}

#[test]
fn segment_of_agrees_with_split() {
    for path in ["/", "//", "/a", "a/b/c", "/subject/1/x/y", "\u{4e2d}/\u{6587}/z"] {
        for n in 0..6 {
            assert_eq!(segment_of(path, n), path.split("/").nth(n).map(String::from), "{} {}", path, n);
        }
    }
}

#[test]
fn link_of_path_needs_three_pieces() {
    assert_eq!(
        link_of_path("/subject/1393859/"),
        Some(String::from("https://www.douban.com/subject/1393859"))
    );
    assert_eq!(link_of_path("/subject"), None);
    assert_eq!(link_of_path("/"), None);
}

#[test]
fn subject_url_follows_the_url_pair() {
    let href = "https://www.douban.com/link2/?url=https%3A%2F%2Fmovie.douban.com%2Fsubject%2F1393859%2F&query=Friends&cat_id=1002&type=search&pos=0";
    let link = get_subject_url(Some(href)).unwrap();
    assert_eq!(link, "https://www.douban.com/subject/1393859");
}

#[test]
fn subject_url_skips_pairs_that_lead_nowhere() {
    let href = "https://www.douban.com/link2/?url=https%3A%2F%2Fmovie.douban.com%2F&a=b&url=https%3A%2F%2Fmovie.douban.com%2Fsubject%2F42%2F";
    assert_eq!(get_subject_url(Some(href)).unwrap(), "https://www.douban.com/subject/42");
}

#[test]
fn subject_url_is_empty_without_a_url_pair() {
    assert_eq!(get_subject_url(Some("https://www.douban.com/link2/?query=Friends")).unwrap(), "");
    assert_eq!(get_subject_url(Some("https://www.douban.com/")).unwrap(), "");
}

#[test]
fn subject_url_fails_without_a_target() {
    let error = get_subject_url(None).unwrap_err();
    assert_eq!(error.message, "Failed to get link of subject");
}

#[test]
fn subject_url_fails_on_a_relative_target() {
    assert!(get_subject_url(Some("/link2/?url=x")).is_err());
}

#[test]
fn subject_url_fails_on_a_broken_url_pair() {
    assert!(get_subject_url(Some("https://www.douban.com/link2/?url=not-an-address")).is_err());
}

#[test]
fn join_names_puts_slashes_between() {
    assert_eq!(join_names(&Vec::new()), "");
    assert_eq!(join_names(&vec![String::from("A")]), "A");
    assert_eq!(join_names(&vec![String::from("A"), String::from("B"), String::from("C")]), "A/B/C");
    assert_eq!(join_names(&vec![String::new(), String::new()]), "/");
}

#[test]
fn image_name_is_the_hash_of_the_address() {
    let src = "https://img9.doubanio.com/view/photo/s_ratio_poster/public/p2187822907.webp";
    let mut hasher = DefaultHasher::new();
    hasher.write(src.as_bytes());
    let expected = format!("{}.webp", hasher.finish());
    assert_eq!(image_name(src), expected);
}

#[test]
fn image_name_is_stable_and_tells_addresses_apart() {
    assert_eq!(image_name("https://a/1.jpg"), image_name("https://a/1.jpg"));
    assert_ne!(image_name("https://a/1.jpg"), image_name("https://a/2.jpg"));
    assert!(image_name("").ends_with(".webp"));
}

fn names(list: &[&str]) -> Vec<String> {
    list.iter().map(|name| String::from(*name)).collect()
}

#[test]
fn subject_of_a_full_page() {
    let page = Page {
        wrap: Some(Wrap {
            pic: Some(String::from("https://img/p.webp")),
            directors: names(&["A", "B"]),
            writers: names(&["C"]),
            actors: names(&["D", "E", "F"]),
            types: names(&["Comedy", "Romance"]),
            released_at: Some(String::from("1994-09-22")),
            rating: Some(Rating { value: Value::Real(9.7) }),
        }),
        summary: Some(String::from("Six friends.")),
    };
    let subject = get_subject(page, Rating { value: Value::Real(0.0) });
    assert_eq!(subject.pic, "https://img/p.webp");
    assert_eq!(subject.directors, "A/B");
    assert_eq!(subject.writers, "C");
    assert_eq!(subject.actors, "D/E/F");
    assert_eq!(subject.types, "Comedy/Romance");
    assert_eq!(subject.released_at, "1994-09-22");
    assert_eq!(subject.summary, "Six friends.");
    assert_eq!(subject.rating.value, Value::Real(9.7));
}

#[test]
fn subject_of_a_page_without_its_block() {
    let page = Page { wrap: None, summary: Some(String::from("Only this.")) };
    let subject = get_subject(page, Rating { value: Value::Real(0.0) });
    assert_eq!(subject.pic, "");
    assert_eq!(subject.directors, "");
    assert_eq!(subject.released_at, "");
    assert_eq!(subject.summary, "Only this.");
    assert_eq!(subject.rating.value, Value::Real(0.0));
}

#[test]
fn subject_of_a_sparse_block() {
    let page = Page {
        wrap: Some(Wrap {
            pic: None,
            directors: Vec::new(),
            writers: Vec::new(),
            actors: Vec::new(),
            types: Vec::new(),
            released_at: None,
            rating: None,
        }),
        summary: None,
    };
    let subject = get_subject(page, Rating { value: Value::Real(0.0) });
    assert_eq!(subject.pic, "");
    assert_eq!(subject.actors, "");
    assert_eq!(subject.summary, "");
    assert_eq!(subject.rating.value, Value::Real(0.0));
}
