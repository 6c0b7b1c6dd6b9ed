use rubick::response::Response;
use rubick::response::FAILURE;
use rubick::response::SUCCESS;
use rubick::text::to_decimal;
use rubick::text::trim;
use rubick::text::white_space;
use rubick::yyets::find_group;
use rubick::yyets::stamp_name;
use rubick::yyets::Item;
use rubick::yyets::ItemGroup;
use rubick::yyets::YYeTsError;

#[test]
fn trim_removes_both_ends() {
    assert_eq!(trim(" Drama "), "Drama");
    assert_eq!(trim("Drama"), "Drama");
    assert_eq!(trim("\t\n Drama\u{3000}\r\n"), "Drama");
}

#[test]
fn trim_keeps_inner_space_and_case() {
    assert_eq!(trim("  Sci Fi  "), "Sci Fi");
    assert_ne!(trim("drama"), trim("Drama"));
}

#[test]
fn trim_of_blank_is_empty() {
    assert_eq!(trim(""), "");
    assert_eq!(trim("   "), "");
    assert_eq!(trim("\u{2003}"), "");
}

#[test]
fn trim_is_idempotent() {
    for text in ["", " a ", "a  b", "\u{a0}x\u{a0}", "  \u{4e2d}\u{6587} "] {
        let once = trim(text);
        assert_eq!(trim(once.as_str()), once);
    }
}

#[test]
fn trim_agrees_with_std() {
    for text in [" a", "a ", "\u{85}a\u{85}", "\u{1680}a", "a\u{2028}\u{2029}", "\u{200b}a", "\u{feff}a "] {
        assert_eq!(trim(text), text.trim());
    }
}

#[test]
fn white_space_agrees_with_std() {
    let mut code: u32 = 0;
    while code < 0x11_0000 {
        if let Some(c) = char::from_u32(code) {
            assert_eq!(white_space(c), c.is_whitespace(), "U+{:04X}", code);
        }
        code += 1;
    }
}

#[test]
fn decimal_of_small_and_large() {
    assert_eq!(to_decimal(0), "0");
    assert_eq!(to_decimal(7), "7");
    assert_eq!(to_decimal(10), "10");
    assert_eq!(to_decimal(1234567890), "1234567890");
    assert_eq!(to_decimal(u64::MAX), "18446744073709551615");
}

#[test]
fn decimal_agrees_with_std() {
    for n in [1u64, 9, 11, 99, 100, 101, 4294967296, 9007199254740993] {
        assert_eq!(to_decimal(n), n.to_string());
    }
}

#[test]
fn stamp_name_is_the_numeral() {
    assert_eq!(stamp_name(0), "0");
    assert_eq!(stamp_name(15130871412783076140), "15130871412783076140");
}

#[test]
fn response_new_keeps_its_parts() {
    let r = Response::new(7, "seven", vec![1, 2]);
    assert_eq!(r.code, 7);
    assert_eq!(r.message, "seven");
    assert_eq!(r.data, vec![1, 2]);
}

#[test]
fn response_ok_has_code_zero() {
    let r = Response::ok("success", 5u8);
    assert_eq!(r.code, 0);
    assert_eq!(r.code, SUCCESS);
    assert_eq!(r.message, "success");
    assert_eq!(r.data, 5);
    assert!(r.succeeded());
}

#[test]
fn response_fail_has_code_99999() {
    let r = Response::fail("nope", ());
    assert_eq!(r.code, 99999);
    assert_eq!(r.code, FAILURE);
    assert_eq!(r.message, "nope");
    assert!(!r.succeeded());
}

#[test]
fn yyets_error_keeps_its_message() {
    let e = YYeTsError::new("Cannot get cache dir");
    assert_eq!(e.message, "Cannot get cache dir");
    assert_eq!(e.text(), "Cannot get cache dir");
}

fn group(label: &str, episodes: usize) -> ItemGroup {
    let mut items = Vec::new();
    for n in 0..episodes {
        items.push(Item {
            itemid: format!("{}", n),
            episode: format!("{}", n + 1),
            name: format!("{} {}", label, n + 1),
            size: String::from("1G"),
            yyets_trans: 0,
            dateline: String::new(),
            files: None,
        });
    }
    ItemGroup { format: String::from(label), items }
}

#[test]
fn find_group_takes_the_first_with_the_label() {
    let groups = vec![group("MP4", 1), group("HR-HDTV", 2), group("MP4", 3)];
    assert_eq!(find_group(&groups, &String::from("MP4")), Some(0));
    assert_eq!(find_group(&groups, &String::from("HR-HDTV")), Some(1));
}

#[test]
fn find_group_misses_unknown_labels() {
    let groups = vec![group("MP4", 1)];
    assert_eq!(find_group(&groups, &String::from("mp4")), None);
    assert_eq!(find_group(&groups, &String::from("MP4 ")), None);
    assert_eq!(find_group(&Vec::new(), &String::from("MP4")), None);
}

#[test]
fn put_group_keeps_one_group_for_a_label() {
    let mut groups = Vec::new();
    rubick::yyets::put_group(&mut groups, String::from("MP4"), group("MP4", 1).items);
    rubick::yyets::put_group(&mut groups, String::from("HR-HDTV"), group("HR-HDTV", 2).items);
    rubick::yyets::put_group(&mut groups, String::from("MP4"), group("MP4", 3).items);
    assert_eq!(groups.len(), 2);
    assert_eq!(groups[0].format, "MP4");
    assert_eq!(groups[0].items.len(), 3);
    assert_eq!(groups[1].format, "HR-HDTV");
    assert_eq!(groups[1].items.len(), 2);
    assert_eq!(find_group(&groups, &String::from("MP4")), Some(0));
}
