use std::path::PathBuf;
use std::sync::mpsc::channel;
use std::sync::mpsc::Receiver;

use rubick::api::described;
use rubick::api::favorite;
use rubick::api::favorite_on;
use rubick::api::favorites_on;
use rubick::api::persist;
use rubick::api::persisted;
use rubick::api::resource_on;
use rubick::api::search_on;
use rubick::api::un_favorite_on;
use rubick::api::favorites;
use rubick::api::illustrated;
use rubick::api::is_favorite;
use rubick::api::load_resource;
use rubick::api::resource;
use rubick::api::search;
use rubick::api::un_favorite;
use rubick::api::update_resource;
use rubick::api::Pending;
use rubick::application::initialized;
use rubick::application::initialized_on;
use rubick::database::connect;
use rubick::database::execute;
use rubick::database::migrate;
use rubick::database::setup;
use rubick::douban::Subject;
use rubick::initialize::clear;
use rubick::initialize::clear_on;
use rubick::initialize::import_series;
use rubick::initialize::Observer;
use rubick::initialize::ResponseData;
use rubick::model::Rating;
use rubick::model::Resource;
use rubick::response::Response;
use rubick::store::Gateway;
use rubick::tree::seasons_for_resource;
use rubick::yyets::Data;
use rubick::yyets::Info;
use rubick::yyets::Item;
use rubick::yyets::ItemGroup;
use rubick::yyets::RecordData;
use rubick::yyets::YYeTsFile;
use rubick::yyets::YYeTsSeason;
use rusqlite::types::Value;
use rusqlite::Connection;

type Notice = Response<ResponseData<(u64, u64)>>;

fn memory() -> Connection {
    let db = connect(&PathBuf::from(":memory:")).unwrap();
    {
        let mut gateway = Gateway::new(&db);
        migrate(&mut gateway).unwrap();
    }
    db
}

fn watcher() -> (Observer<ResponseData<(u64, u64)>>, Receiver<Notice>) {
    let (sender, receiver) = channel();
    (Observer::new(sender), receiver)
}

fn link(way: &str, address: &str) -> YYeTsFile {
    YYeTsFile {
        way: String::from("1"),
        way_cn: String::from(way),
        address: String::from(address),
        passwd: String::new(),
    }
}

fn episode(number: usize, label: &str, links: Option<Vec<YYeTsFile>>) -> Item {
    Item {
        itemid: format!("{}", number),
        episode: format!("{}", number),
        name: format!("{}.E{:02}", label, number),
        size: String::from("512M"),
        yyets_trans: 0,
        dateline: String::from("0"),
        files: links,
    }
}

fn season(number: &str, name: &str, formats: &[&str], episodes: usize, links: usize) -> YYeTsSeason {
    let mut items = Vec::new();
    for label in formats {
        let mut list = Vec::new();
        for n in 1..=episodes {
            let mut files = Vec::new();
            for k in 0..links {
                let way = if k % 2 == 0 { "magnet" } else { " ed2k " };
                files.push(link(way, format!("{}://{}/{}/{}", way.trim(), name, label, n).as_str()));
            }
            list.push(episode(n, label, Some(files)));
        }
        items.push(ItemGroup { format: String::from(*label), items: list });
    }
    YYeTsSeason {
        season_num: String::from(number),
        season_cn: String::from(name),
        items,
        formats: formats.iter().map(|label| String::from(*label)).collect(),
    }
}

fn document(name: &str, channel: &str, area: &str, list: Vec<YYeTsSeason>) -> RecordData {
    RecordData {
        status: 1,
        info: String::from("OK"),
        data: Data {
            info: Info {
                id: 10733,
                cnname: String::from(name),
                enname: format!("{} (original)", name),
                aliasname: format!("{} (alias)", name),
                channel: String::from(channel),
                channel_cn: String::from(channel),
                area: String::from(area),
                show_type: String::new(),
                expire: String::new(),
                views: 0,
                year: vec![2004],
            },
            list,
        },
    }
}

fn fixture() -> RecordData {
    document(
        "Lost",
        "tv",
        "US",
        vec![
            season("1", "Season 1", &["MP4", "HR-HDTV"], 5, 2),
            season("2", "Season 2", &["MP4", "HR-HDTV"], 5, 2),
            season("3", "Season 3", &["MP4", "HR-HDTV"], 5, 2),
        ],
    )
}

fn import(db: &mut Connection, records: Vec<Option<RecordData>>) -> Vec<Notice> {
    let (mut observer, receiver) = watcher();
    let total = records.len() as i32;
    let mut gateway = Gateway::new(db);
    import_series(&mut gateway, &mut observer, total, &records).unwrap();
    receiver.try_iter().collect()
}

fn count(db: &Connection, table: &str) -> i64 {
    db.query_row(format!("select count(*) from {}", table).as_str(), [], |row| row.get(0)).unwrap()
}

fn found(db: &Connection, id: i64) -> Resource {
    let mut gateway = Gateway::new(db);
    load_resource(&mut gateway, id).unwrap()
}

#[test]
fn layout_can_be_laid_twice() {
    let db = connect(&PathBuf::from(":memory:")).unwrap();
    let mut gateway = Gateway::new(&db);
    assert!(migrate(&mut gateway).is_ok());
    assert_eq!(gateway.statements(), 17);
    assert!(migrate(&mut gateway).is_ok());
    assert_eq!(gateway.statements(), 34);
    assert_eq!(count(&db, "resources"), 0);
    assert_eq!(count(&db, "favorites"), 0);
}

#[test]
fn setup_opens_and_lays_out() {
    assert!(setup(&PathBuf::from(":memory:")).is_ok());
}

#[test]
fn execute_hands_the_result_on() {
    let answer = execute(&PathBuf::from(":memory:"), |db| {
        let mut gateway = Gateway::new(db);
        migrate(&mut gateway)?;
        Ok(gateway.statements())
    });
    assert_eq!(answer.unwrap(), 17);
}

#[test]
fn execute_hands_the_failure_on() {
    let answer: Result<(), _> = execute(&PathBuf::from(":memory:"), |db| {
        let mut gateway = Gateway::new(db);
        gateway.run("no statement", &Vec::new()).map(|_| ())
    });
    assert!(answer.is_err());
    assert!(!answer.unwrap_err().message.is_empty());
}

#[test]
fn connect_fails_where_no_store_can_be() {
    assert!(connect(&PathBuf::from("/nowhere/at/all/rubick.db")).is_err());
}

#[test]
fn import_keeps_the_shape_of_the_document() {
    let mut db = memory();
    import(&mut db, vec![Some(fixture())]);
    let resource = found(&db, 1);
    assert_eq!(resource.name, "Lost");
    assert_eq!(resource.original_name, "Lost (original)");
    assert_eq!(resource.alias_name, "Lost (alias)");
    assert_eq!(resource.channel, "tv");
    assert_eq!(resource.area, "US");
    assert_eq!(resource.pic, "");
    assert!(!resource.favorite);
    assert_eq!(resource.seasons.len(), 3);
    for (s, season) in resource.seasons.iter().enumerate() {
        assert_eq!(season.season, s as i64 + 1);
        assert_eq!(season.name, format!("Season {}", s + 1));
        assert_eq!(season.formats.len(), 2);
        for format in &season.formats {
            assert_eq!(format.season_id, season.id);
            assert_eq!(format.series.len(), 5);
            for (e, series) in format.series.iter().enumerate() {
                assert_eq!(series.format_id, format.id);
                assert_eq!(series.episode, e as i64 + 1);
                assert_eq!(series.name, format!("{}.E{:02}", format.format, e + 1));
                assert_eq!(series.size, "512M");
                assert_eq!(series.files.len(), 2);
                for file in &series.files {
                    assert_eq!(file.series_id, series.id);
                }
                assert_eq!(series.files[0].way, "magnet");
                assert_eq!(series.files[1].way, "ed2k");
                assert_eq!(
                    series.files[0].address,
                    format!("magnet://{}/{}/{}", season.name, format.format, e + 1)
                );
            }
        }
    }
    assert_eq!(count(&db, "seasons"), 3);
    assert_eq!(count(&db, "formats"), 6);
    assert_eq!(count(&db, "series"), 30);
    assert_eq!(count(&db, "files"), 60);
    assert_eq!(count(&db, "ways"), 2);
}

#[test]
fn import_gives_each_document_its_own_tree() {
    let mut db = memory();
    let small = document("Small", "movie", "UK", vec![season("1", "Only", &["MP4"], 1, 1)]);
    import(&mut db, vec![Some(fixture()), Some(small)]);
    let first = found(&db, 1);
    let second = found(&db, 2);
    assert_eq!(first.seasons.len(), 3);
    assert_eq!(second.name, "Small");
    assert_eq!(second.seasons.len(), 1);
    assert_eq!(second.seasons[0].formats.len(), 1);
    assert_eq!(second.seasons[0].formats[0].series.len(), 1);
    assert_eq!(second.seasons[0].formats[0].series[0].files.len(), 1);
}

#[test]
fn loading_twice_gives_the_same_tree() {
    let mut db = memory();
    import(&mut db, vec![Some(fixture())]);
    let once = format!("{:?}", found(&db, 1));
    let twice = format!("{:?}", found(&db, 1));
    assert_eq!(once, twice);
}

#[test]
fn lookups_are_shared_by_trimmed_name() {
    let mut db = memory();
    let one = document("One", "Drama", "US", Vec::new());
    let two = document("Two", " Drama ", " US", Vec::new());
    import(&mut db, vec![Some(one), Some(two)]);
    assert_eq!(count(&db, "channels"), 1);
    assert_eq!(count(&db, "areas"), 1);
    let name: String = db.query_row("select name from channels", [], |row| row.get(0)).unwrap();
    assert_eq!(name, "Drama");
    assert_eq!(found(&db, 1).channel, "Drama");
    assert_eq!(found(&db, 2).channel, "Drama");
    assert_eq!(found(&db, 2).area, "US");
}

#[test]
fn lookups_keep_case_apart() {
    let mut db = memory();
    let one = document("One", "Drama", "US", Vec::new());
    let two = document("Two", "drama", "US", Vec::new());
    import(&mut db, vec![Some(one), Some(two)]);
    assert_eq!(count(&db, "channels"), 2);
}

#[test]
fn empty_staging_imports_nothing() {
    let db = memory();
    let (mut observer, receiver) = watcher();
    let mut gateway = Gateway::new(&db);
    assert!(import_series(&mut gateway, &mut observer, 0, &Vec::new()).is_ok());
    assert!(import_series(&mut gateway, &mut observer, -3, &vec![Some(fixture())]).is_ok());
    assert_eq!(gateway.statements(), 0);
    assert_eq!(receiver.try_iter().count(), 0);
    assert_eq!(count(&db, "resources"), 0);
    assert_eq!(count(&db, "channels"), 0);
}

#[test]
fn every_row_is_reported() {
    let db = memory();
    let (mut observer, receiver) = watcher();
    let records = vec![Some(fixture()), None, Some(document("B", "tv", "US", Vec::new()))];
    let mut gateway = Gateway::new(&db);
    assert!(import_series(&mut gateway, &mut observer, 3, &records).is_ok());
    let notices: Vec<Notice> = receiver.try_iter().collect();
    assert_eq!(notices.len(), 3);
    for (k, notice) in notices.iter().enumerate() {
        assert_eq!(notice.code, 0);
        assert_eq!(notice.message, "导入数据");
        assert_eq!(notice.data.step, "importing");
        assert_eq!(notice.data.data, (k as u64 + 1, 3));
    }
    assert_eq!(count(&db, "resources"), 2);
}

#[test]
fn import_goes_on_without_a_watcher() {
    let db = memory();
    let (mut observer, receiver) = watcher();
    drop(receiver);
    let mut gateway = Gateway::new(&db);
    assert!(import_series(&mut gateway, &mut observer, 1, &vec![Some(fixture())]).is_ok());
    assert_eq!(count(&db, "resources"), 1);
}

#[test]
fn import_fails_where_the_transaction_cannot_begin() {
    let db = memory();
    db.execute_batch("begin").unwrap();
    let (mut observer, receiver) = watcher();
    let mut gateway = Gateway::new(&db);
    assert!(import_series(&mut gateway, &mut observer, 1, &vec![Some(fixture())]).is_err());
    assert_eq!(gateway.statements(), 1);
    assert_eq!(receiver.try_iter().count(), 0);
    assert_eq!(count(&db, "resources"), 0);
}

#[test]
fn import_into_a_store_without_layout_reports_and_adds_nothing() {
    let db = connect(&PathBuf::from(":memory:")).unwrap();
    let (mut observer, receiver) = watcher();
    let mut gateway = Gateway::new(&db);
    assert!(import_series(&mut gateway, &mut observer, 2, &vec![Some(fixture()), Some(fixture())]).is_ok());
    assert_eq!(receiver.try_iter().count(), 2);
}

#[test]
fn formats_without_episodes_stay_empty() {
    let mut db = memory();
    let mut only = season("1", "Season 1", &["MP4"], 2, 1);
    only.formats.push(String::from("APP"));
    import(&mut db, vec![Some(document("Odd", "tv", "US", vec![only]))]);
    let resource = found(&db, 1);
    assert_eq!(resource.seasons[0].formats.len(), 2);
    assert_eq!(resource.seasons[0].formats[0].series.len(), 2);
    assert_eq!(resource.seasons[0].formats[1].format, "APP");
    assert_eq!(resource.seasons[0].formats[1].series.len(), 0);
}

#[test]
fn episodes_of_unlisted_formats_are_left_out() {
    let mut db = memory();
    let mut only = season("1", "Season 1", &["MP4", "RMVB"], 2, 1);
    only.formats.pop();
    import(&mut db, vec![Some(document("Odd", "tv", "US", vec![only]))]);
    assert_eq!(count(&db, "formats"), 1);
    assert_eq!(count(&db, "series"), 2);
}

#[test]
fn episodes_without_links_have_none() {
    let mut db = memory();
    let mut only = season("1", "Season 1", &["MP4"], 2, 1);
    only.items[0].items[1].files = None;
    import(&mut db, vec![Some(document("Odd", "tv", "US", vec![only]))]);
    let resource = found(&db, 1);
    let series = &resource.seasons[0].formats[0].series;
    assert_eq!(series[0].files.len(), 1);
    assert_eq!(series[1].files.len(), 0);
}

#[test]
fn seasons_and_episodes_come_in_the_order_of_their_numbers() {
    let mut db = memory();
    let mut last = season("10", "Ten", &["MP4"], 0, 0);
    last.items[0].items = vec![episode(12, "x", None), episode(3, "x", None), episode(7, "x", None)];
    let list = vec![season("2", "Two", &[], 0, 0), last, season("1", "One", &[], 0, 0)];
    import(&mut db, vec![Some(document("Order", "tv", "US", list))]);
    let resource = found(&db, 1);
    let numbers: Vec<i64> = resource.seasons.iter().map(|season| season.season).collect();
    assert_eq!(numbers, vec![1, 2, 10]);
    let episodes: Vec<i64> =
        resource.seasons[2].formats[0].series.iter().map(|series| series.episode).collect();
    assert_eq!(episodes, vec![3, 7, 12]);
}

#[test]
fn a_season_without_a_number_hides_the_resource() {
    let mut db = memory();
    let list = vec![season("special", "Special", &[], 0, 0)];
    import(&mut db, vec![Some(document("Odd", "tv", "US", list))]);
    assert_eq!(count(&db, "seasons"), 1);
    let mut gateway = Gateway::new(&db);
    assert!(load_resource(&mut gateway, 1).is_none());
    assert!(seasons_for_resource(&mut gateway, 1).is_err());
}

#[test]
fn a_resource_without_channel_is_not_found() {
    let mut db = memory();
    db.execute_batch("drop table channels").unwrap();
    import(&mut db, vec![Some(document("Lone", "tv", "US", Vec::new()))]);
    assert_eq!(count(&db, "resources"), 1);
    let mut gateway = Gateway::new(&db);
    assert!(load_resource(&mut gateway, 1).is_none());
}

#[test]
fn ids_below_one_ask_nothing() {
    let db = memory();
    let mut gateway = Gateway::new(&db);
    assert!(load_resource(&mut gateway, 0).is_none());
    assert!(load_resource(&mut gateway, -5).is_none());
    assert_eq!(gateway.statements(), 0);
    match resource_on(&mut gateway, 0) {
        Pending::Answer(answer) => {
            assert_eq!(answer.code, 99999);
            assert_eq!(answer.message, "resource is not exists.");
            assert!(answer.data.is_none());
        },
        _ => panic!("an answer was due"),
    }
    assert_eq!(gateway.statements(), 0);
}

#[test]
fn a_missing_resource_costs_one_query() {
    let db = memory();
    let mut gateway = Gateway::new(&db);
    match resource_on(&mut gateway, 99) {
        Pending::Answer(answer) => {
            assert_eq!(answer.code, 99999);
            assert_eq!(answer.message, "resource is not exists.");
            assert!(answer.data.is_none());
        },
        _ => panic!("an answer was due"),
    }
    assert_eq!(gateway.statements(), 1);
}

#[test]
fn a_tree_costs_one_query_for_each_level() {
    let mut db = memory();
    import(&mut db, vec![Some(fixture())]);
    let mut gateway = Gateway::new(&db);
    let seasons = seasons_for_resource(&mut gateway, 1).unwrap();
    assert_eq!(seasons.len(), 3);
    assert_eq!(gateway.statements(), 4);
    assert!(load_resource(&mut gateway, 1).is_some());
    assert_eq!(gateway.statements(), 10);
}

#[test]
fn a_larger_tree_costs_no_more_queries() {
    let mut db = memory();
    let list = (1..=9).map(|n| season(format!("{}", n).as_str(), "S", &["A", "B", "C"], 12, 3)).collect();
    import(&mut db, vec![Some(document("Big", "tv", "US", list))]);
    let mut gateway = Gateway::new(&db);
    let seasons = seasons_for_resource(&mut gateway, 1).unwrap();
    assert_eq!(seasons.len(), 9);
    assert_eq!(seasons[8].formats[2].series[11].files.len(), 3);
    assert_eq!(gateway.statements(), 4);
}

#[test]
fn empty_levels_end_the_queries() {
    let mut db = memory();
    let bare = document("Bare", "tv", "US", Vec::new());
    let seasons_only = document("Seasons", "tv", "US", vec![season("1", "S", &[], 0, 0)]);
    let formats_only = document("Formats", "tv", "US", vec![season("1", "S", &["MP4"], 0, 0)]);
    let no_links = document("Episodes", "tv", "US", vec![season("1", "S", &["MP4"], 2, 0)]);
    import(&mut db, vec![Some(bare), Some(seasons_only), Some(formats_only), Some(no_links)]);
    for (id, queries) in [(1, 1), (2, 2), (3, 3), (4, 4)] {
        let mut gateway = Gateway::new(&db);
        assert!(seasons_for_resource(&mut gateway, id).is_ok());
        assert_eq!(gateway.statements(), queries);
    }
}

fn friends() -> Subject {
    Subject {
        pic: String::from("https://img/p.webp"),
        directors: String::from("A/B"),
        writers: String::from("C"),
        actors: String::from("D/E"),
        types: String::from("Comedy"),
        released_at: String::from("1994-09-22"),
        summary: String::from("Six friends."),
        rating: Rating { value: Value::Real(9.7) },
    }
}

#[test]
fn a_described_resource_keeps_its_picture() {
    let mut db = memory();
    import(&mut db, vec![Some(fixture())]);
    let mut gateway = Gateway::new(&db);
    let bare = match resource_on(&mut gateway, 1) {
        Pending::Describe(bare) => bare,
        _ => panic!("the description was due"),
    };
    assert_eq!(bare.pic, "");
    let (bare, subject) = match described(bare, Some(friends())) {
        Pending::Illustrate(bare, subject) => (bare, subject),
        _ => panic!("the picture was due"),
    };
    let rich = match illustrated(bare, subject, Some(String::from("123.webp"))) {
        Pending::Persist(rich) => rich,
        _ => panic!("the writing was due"),
    };
    let outcome = update_resource(&mut gateway, &rich);
    assert_eq!(outcome.as_ref().ok(), Some(&1));
    let answer = persisted(rich, outcome);
    assert_eq!(answer.code, 0);
    assert_eq!(answer.message, "success");
    let rich = answer.data.unwrap();
    assert_eq!(rich.pic, "123.webp");
    assert_eq!(rich.directors, "A/B");
    assert_eq!(rich.seasons.len(), 3);
    for _ in 0..2 {
        match resource_on(&mut gateway, 1) {
            Pending::Answer(answer) => {
                assert_eq!(answer.code, 0);
                assert_eq!(answer.message, "success");
                let kept = answer.data.unwrap();
                assert_eq!(kept.pic, "123.webp");
                assert_eq!(kept.directors, "A/B");
                assert_eq!(kept.writers, "C");
                assert_eq!(kept.actors, "D/E");
                assert_eq!(kept.types, "Comedy");
                assert_eq!(kept.released_at, "1994-09-22");
                assert_eq!(kept.summary, "Six friends.");
                assert_eq!(kept.rating.value, Value::Real(9.7));
                assert_eq!(kept.seasons.len(), 3);
            },
            _ => panic!("an answer was due"),
        }
    }
}

#[test]
fn a_resource_without_description_is_handed_out_as_it_is() {
    let mut db = memory();
    import(&mut db, vec![Some(fixture())]);
    let mut gateway = Gateway::new(&db);
    let bare = match resource_on(&mut gateway, 1) {
        Pending::Describe(bare) => bare,
        _ => panic!("the description was due"),
    };
    let asked = gateway.statements();
    match described(bare, None) {
        Pending::Answer(answer) => {
            assert_eq!(answer.code, 0);
            assert_eq!(answer.message, "success");
            let same = answer.data.unwrap();
            assert_eq!(same.name, "Lost");
            assert_eq!(same.pic, "");
            assert_eq!(same.directors, "");
        },
        _ => panic!("an answer was due"),
    }
    assert_eq!(gateway.statements(), asked);
    assert!(matches!(resource_on(&mut gateway, 1), Pending::Describe(_)));
}

#[test]
fn a_description_without_picture_is_asked_for_again() {
    let mut db = memory();
    import(&mut db, vec![Some(fixture())]);
    let mut gateway = Gateway::new(&db);
    let bare = match resource_on(&mut gateway, 1) {
        Pending::Describe(bare) => bare,
        _ => panic!("the description was due"),
    };
    let rich = match illustrated(bare, friends(), None) {
        Pending::Persist(rich) => rich,
        _ => panic!("the writing was due"),
    };
    assert!(update_resource(&mut gateway, &rich).is_ok());
    assert_eq!(rich.pic, "");
    assert_eq!(rich.summary, "Six friends.");
    match resource_on(&mut gateway, 1) {
        Pending::Describe(again) => {
            assert_eq!(again.pic, "");
            assert_eq!(again.summary, "Six friends.");
            assert_eq!(again.rating.value, Value::Real(9.7));
        },
        _ => panic!("the description was due again"),
    }
}

#[test]
fn the_answer_holds_the_description_though_the_store_refuses_it() {
    let mut db = memory();
    import(&mut db, vec![Some(fixture())]);
    let bare = found(&db, 1);
    db.execute_batch("alter table resources rename to elsewhere").unwrap();
    let mut gateway = Gateway::new(&db);
    let rich = match illustrated(bare, friends(), Some(String::from("9.webp"))) {
        Pending::Persist(rich) => rich,
        _ => panic!("the writing was due"),
    };
    let outcome = update_resource(&mut gateway, &rich);
    assert!(outcome.is_err());
    let answer = persisted(rich, outcome);
    assert_eq!(answer.code, 0);
    assert_eq!(answer.message, "success");
    assert_eq!(answer.data.unwrap().pic, "9.webp");
}

#[test]
fn update_resource_reports_the_rows_changed() {
    let mut db = memory();
    import(&mut db, vec![Some(fixture())]);
    let mut held = found(&db, 1);
    held.summary = String::from("An island.");
    let mut gateway = Gateway::new(&db);
    assert_eq!(update_resource(&mut gateway, &held).unwrap(), 1);
    held.id = 77;
    assert_eq!(update_resource(&mut gateway, &held).unwrap(), 0);
    assert_eq!(found(&db, 1).summary, "An island.");
}

#[test]
fn favorite_marks_once() {
    let mut db = memory();
    import(&mut db, vec![Some(fixture())]);
    let mut gateway = Gateway::new(&db);
    assert!(!is_favorite(&mut gateway, 1));
    let first = favorite_on(&mut gateway, 1);
    assert_eq!(first.code, 0);
    assert_eq!(first.message, "success");
    let second = favorite_on(&mut gateway, 1);
    assert_eq!(second.code, 0);
    assert!(is_favorite(&mut gateway, 1));
    assert_eq!(count(&db, "favorites"), 1);
    assert!(found(&db, 1).favorite);
}

#[test]
fn favorite_asks_before_it_adds() {
    let mut db = memory();
    import(&mut db, vec![Some(fixture())]);
    let mut gateway = Gateway::new(&db);
    favorite_on(&mut gateway, 1);
    assert_eq!(gateway.statements(), 2);
    favorite_on(&mut gateway, 1);
    assert_eq!(gateway.statements(), 3);
}

#[test]
fn un_favorite_of_an_unmarked_resource_succeeds() {
    let db = memory();
    let mut gateway = Gateway::new(&db);
    let answer = un_favorite_on(&mut gateway, 5);
    assert_eq!(answer.code, 0);
    assert_eq!(answer.message, "success");
    assert_eq!(count(&db, "favorites"), 0);
}

#[test]
fn un_favorite_takes_the_mark_away() {
    let mut db = memory();
    import(&mut db, vec![Some(fixture())]);
    let mut gateway = Gateway::new(&db);
    favorite_on(&mut gateway, 1);
    assert_eq!(un_favorite_on(&mut gateway, 1).code, 0);
    assert!(!is_favorite(&mut gateway, 1));
    assert!(!found(&db, 1).favorite);
}

#[test]
fn favorites_lists_the_marked() {
    let mut db = memory();
    import(&mut db, vec![Some(fixture()), Some(document("Other", "tv", "US", Vec::new()))]);
    let mut gateway = Gateway::new(&db);
    favorite_on(&mut gateway, 2);
    let answer = favorites_on(&mut gateway);
    assert_eq!(answer.code, 0);
    assert_eq!(answer.message, "success");
    assert_eq!(answer.data.len(), 1);
    assert_eq!(answer.data[0].id, 2);
    assert_eq!(answer.data[0].name, "Other");
    assert_eq!(answer.data[0].original_name, "Other (original)");
    assert_eq!(answer.data[0].alias_name, "Other (alias)");
    assert_eq!(answer.data[0].pic, "");
}

#[test]
fn favorites_reports_what_the_store_says() {
    let db = connect(&PathBuf::from(":memory:")).unwrap();
    let mut gateway = Gateway::new(&db);
    let answer = favorites_on(&mut gateway);
    assert_eq!(answer.code, 99999);
    assert!(answer.message.contains("favorites"));
    assert!(answer.data.is_empty());
    let refused = favorite_on(&mut gateway, 1);
    assert_eq!(refused.code, 99999);
    assert!(refused.message.contains("favorites"));
    let also = un_favorite_on(&mut gateway, 1);
    assert_eq!(also.code, 99999);
    assert!(!is_favorite(&mut gateway, 1));
}

fn released(db: &Connection, id: i64, date: &str) {
    let mut held = found(db, id);
    held.released_at = String::from(date);
    let mut gateway = Gateway::new(db);
    assert_eq!(update_resource(&mut gateway, &held).unwrap(), 1);
}

#[test]
fn search_matches_any_of_the_three_names() {
    let mut db = memory();
    let mut by_alias = document("Plain", "tv", "US", Vec::new());
    by_alias.data.info.aliasname = String::from("A Drama in disguise");
    let mut by_original = document("Other", "tv", "US", Vec::new());
    by_original.data.info.enname = String::from("Dramatic");
    let mut none = document("Comedy", "tv", "US", Vec::new());
    none.data.info.enname = String::from("Funny");
    none.data.info.aliasname = String::from("Laughs");
    import(
        &mut db,
        vec![
            Some(document("Korean Drama", "tv", "KR", Vec::new())),
            Some(by_alias),
            Some(by_original),
            Some(none),
        ],
    );
    let mut gateway = Gateway::new(&db);
    let answer = search_on(&mut gateway, "Drama");
    assert_eq!(answer.code, 0);
    assert_eq!(answer.message, "success");
    let ids: Vec<i64> = answer.data.iter().map(|result| result.id).collect();
    assert_eq!(ids, vec![3, 2, 1]);
    assert_eq!(answer.data[2].name, "Korean Drama");
    assert_eq!(answer.data[2].channel, "tv");
    assert_eq!(answer.data[1].alias_name, "A Drama in disguise");
    assert_eq!(answer.data[0].original_name, "Dramatic");
    assert_eq!(gateway.statements(), 1);
}

#[test]
fn search_orders_by_release_and_then_by_id() {
    let mut db = memory();
    let list = ["Drama A", "Drama B", "Drama C", "Drama D"];
    import(&mut db, list.iter().map(|name| Some(document(name, "tv", "US", Vec::new()))).collect());
    released(&db, 1, "2020-01-01");
    released(&db, 2, "2021-06-01");
    released(&db, 3, "2020-01-01");
    released(&db, 4, "1999-12-31");
    let mut gateway = Gateway::new(&db);
    let ids: Vec<i64> = search_on(&mut gateway, "Drama").data.iter().map(|result| result.id).collect();
    assert_eq!(ids, vec![2, 3, 1, 4]);
}

#[test]
fn search_ignores_the_case_of_letters() {
    let mut db = memory();
    import(&mut db, vec![Some(document("Korean DRAMA", "tv", "KR", Vec::new()))]);
    let mut gateway = Gateway::new(&db);
    assert_eq!(search_on(&mut gateway, "drama").data.len(), 1);
    assert_eq!(search_on(&mut gateway, "Drama").data.len(), 1);
    assert_eq!(search_on(&mut gateway, "dramas").data.len(), 0);
}

#[test]
fn search_for_nothing_lists_everything() {
    let mut db = memory();
    import(&mut db, vec![Some(fixture()), Some(document("B", "tv", "US", Vec::new()))]);
    let mut gateway = Gateway::new(&db);
    assert_eq!(search_on(&mut gateway, "").data.len(), 2);
}

#[test]
fn search_on_a_store_without_layout_reports_the_failure() {
    let db = connect(&PathBuf::from(":memory:")).unwrap();
    let mut gateway = Gateway::new(&db);
    let answer = search_on(&mut gateway, "Drama");
    assert_eq!(answer.code, 99999);
    assert!(answer.message.contains("resources"));
    assert!(answer.data.is_empty());
}

#[test]
fn search_takes_the_keyword_as_it_is_written() {
    let mut db = memory();
    let names = ["100% Drama", "100 Dramas", "a_b", "axb", "back\\slash", "backslash"];
    import(&mut db, names.iter().map(|name| Some(document(name, "tv", "US", Vec::new()))).collect());
    let mut gateway = Gateway::new(&db);
    let found = |gateway: &mut Gateway, keyword: &str| -> Vec<i64> {
        let mut ids: Vec<i64> = search_on(gateway, keyword).data.iter().map(|result| result.id).collect();
        ids.sort();
        ids
    };
    assert_eq!(found(&mut gateway, "%"), vec![1]);
    assert_eq!(found(&mut gateway, "0% D"), vec![1]);
    assert_eq!(found(&mut gateway, "_"), vec![3]);
    assert_eq!(found(&mut gateway, "a_b"), vec![3]);
    assert_eq!(found(&mut gateway, "\\"), vec![5]);
    assert_eq!(found(&mut gateway, "k\\s"), vec![5]);
    assert_eq!(found(&mut gateway, "100"), vec![1, 2]);
}

#[test]
fn escaped_marks_what_a_pattern_would_read() {
    assert_eq!(rubick::api::escaped("Drama"), "Drama");
    assert_eq!(rubick::api::escaped(""), "");
    assert_eq!(rubick::api::escaped("100%"), "100\\%");
    assert_eq!(rubick::api::escaped("a_b"), "a\\_b");
    assert_eq!(rubick::api::escaped("a\\b"), "a\\\\b");
    assert_eq!(rubick::api::escaped("%_\\"), "\\%\\_\\\\");
}

#[test]
fn initialized_tells_an_empty_catalog_from_a_filled_one() {
    let mut db = memory();
    {
        let mut gateway = Gateway::new(&db);
        assert!(!initialized_on(&mut gateway));
    }
    import(&mut db, vec![Some(fixture())]);
    let mut gateway = Gateway::new(&db);
    assert!(initialized_on(&mut gateway));
}

#[test]
fn initialized_is_false_without_layout() {
    let db = connect(&PathBuf::from(":memory:")).unwrap();
    let mut gateway = Gateway::new(&db);
    assert!(!initialized_on(&mut gateway));
}

#[test]
fn clear_empties_the_catalog_and_restarts_the_ids() {
    let mut db = memory();
    import(&mut db, vec![Some(fixture()), Some(fixture())]);
    {
        let mut gateway = Gateway::new(&db);
        favorite_on(&mut gateway, 1);
        assert!(clear_on(&mut gateway));
        assert_eq!(gateway.statements(), 5);
    }
    for table in ["resources", "areas", "channels", "files", "formats", "seasons", "series", "ways"] {
        assert_eq!(count(&db, table), 0, "{}", table);
    }
    assert_eq!(count(&db, "favorites"), 1);
    import(&mut db, vec![Some(fixture())]);
    let again = found(&db, 1);
    assert_eq!(again.seasons.len(), 3);
    assert_eq!(again.seasons[0].id, 1);
}

fn shared(name: &str) -> (PathBuf, Connection) {
    let path = PathBuf::from(format!("file:{}?mode=memory&cache=shared", name));
    let keeper = connect(&path).unwrap();
    {
        let mut gateway = Gateway::new(&keeper);
        migrate(&mut gateway).unwrap();
    }
    (path, keeper)
}

fn nowhere() -> PathBuf {
    PathBuf::from("/nowhere/at/all/rubick.db")
}

#[test]
fn a_request_runs_from_the_store_to_the_answer() {
    let (path, mut keeper) = shared("request");
    import(&mut keeper, vec![Some(fixture())]);
    let bare = match resource(&path, 1) {
        Pending::Describe(bare) => bare,
        _ => panic!("the description was due"),
    };
    let (bare, subject) = match described(bare, Some(friends())) {
        Pending::Illustrate(bare, subject) => (bare, subject),
        _ => panic!("the picture was due"),
    };
    let rich = match illustrated(bare, subject, Some(String::from("77.webp"))) {
        Pending::Persist(rich) => rich,
        _ => panic!("the writing was due"),
    };
    let outcome = persist(&path, &rich);
    assert_eq!(outcome.as_ref().ok(), Some(&1));
    assert_eq!(persisted(rich, outcome).data.unwrap().pic, "77.webp");
    match resource(&path, 1) {
        Pending::Answer(answer) => {
            assert_eq!(answer.code, 0);
            let kept = answer.data.unwrap();
            assert_eq!(kept.pic, "77.webp");
            assert_eq!(kept.summary, "Six friends.");
            assert_eq!(kept.seasons.len(), 3);
        },
        _ => panic!("an answer was due"),
    }
}

#[test]
fn a_store_that_cannot_be_opened_holds_no_resource() {
    match resource(&nowhere(), 1) {
        Pending::Answer(answer) => {
            assert_eq!(answer.code, 99999);
            assert_eq!(answer.message, "resource is not exists.");
            assert!(answer.data.is_none());
        },
        _ => panic!("an answer was due"),
    }
    assert!(persist(&nowhere(), &found(&memory_with_fixture(), 1)).is_err());
}

fn memory_with_fixture() -> Connection {
    let mut db = memory();
    import(&mut db, vec![Some(fixture())]);
    db
}

#[test]
fn search_by_path_finds_what_the_store_holds() {
    let (path, mut keeper) = shared("search");
    import(&mut keeper, vec![Some(fixture())]);
    let answer = search(&path, "os");
    assert_eq!(answer.code, 0);
    assert_eq!(answer.message, "success");
    assert_eq!(answer.data.len(), 1);
    assert_eq!(answer.data[0].name, "Lost");
    let nothing = search(&nowhere(), "os");
    assert_eq!(nothing.code, 99999);
    assert!(!nothing.message.is_empty());
    assert!(nothing.data.is_empty());
}

#[test]
fn favorites_by_path_mark_list_and_unmark() {
    let (path, mut keeper) = shared("favorites");
    import(&mut keeper, vec![Some(fixture())]);
    assert_eq!(favorite(&path, 1).code, 0);
    assert_eq!(favorite(&path, 1).code, 0);
    assert_eq!(count(&keeper, "favorites"), 1);
    let listed = favorites(&path);
    assert_eq!(listed.code, 0);
    assert_eq!(listed.data.len(), 1);
    assert_eq!(listed.data[0].name, "Lost");
    assert_eq!(un_favorite(&path, 1).code, 0);
    assert_eq!(un_favorite(&path, 1).code, 0);
    assert_eq!(count(&keeper, "favorites"), 0);
    assert!(favorites(&path).data.is_empty());
}

#[test]
fn favorites_by_path_report_a_store_that_cannot_be_opened() {
    assert_eq!(favorites(&nowhere()).code, 99999);
    assert!(!favorites(&nowhere()).message.is_empty());
    assert_eq!(favorite(&nowhere(), 1).code, 99999);
    assert_eq!(un_favorite(&nowhere(), 1).code, 99999);
}

#[test]
fn initialized_by_path_needs_the_file() {
    let (path, mut keeper) = shared("initialized");
    assert!(!initialized(true, &path));
    import(&mut keeper, vec![Some(fixture())]);
    assert!(initialized(true, &path));
    assert!(!initialized(false, &path));
    assert!(!initialized(true, &nowhere()));
}

#[test]
fn clear_by_path_empties_the_catalog() {
    let (path, mut keeper) = shared("clear");
    import(&mut keeper, vec![Some(fixture())]);
    clear(&path);
    assert_eq!(count(&keeper, "resources"), 0);
    assert_eq!(count(&keeper, "files"), 0);
    clear(&nowhere());
}

#[test]
fn clear_empties_all_or_nothing() {
    let mut db = memory();
    import(&mut db, vec![Some(fixture())]);
    db.execute_batch("drop table ways").unwrap();
    let mut gateway = Gateway::new(&db);
    assert!(!clear_on(&mut gateway));
    assert_eq!(gateway.statements(), 2);
    assert_eq!(count(&db, "resources"), 1);
    assert_eq!(count(&db, "seasons"), 3);
    assert_eq!(count(&db, "files"), 60);
    assert_eq!(count(&db, "channels"), 1);
}

#[test]
fn clear_does_nothing_inside_another_transaction() {
    let mut db = memory();
    import(&mut db, vec![Some(fixture())]);
    db.execute_batch("begin").unwrap();
    let mut gateway = Gateway::new(&db);
    assert!(!clear_on(&mut gateway));
    assert_eq!(gateway.statements(), 1);
    assert_eq!(count(&db, "resources"), 1);
}

#[test]
fn an_import_is_one_transaction() {
    let db = memory();
    let (mut observer, _receiver) = watcher();
    let mut gateway = Gateway::new(&db);
    let records = vec![Some(document("A", "tv", "US", Vec::new()))];
    assert!(import_series(&mut gateway, &mut observer, 1, &records).is_ok());
    assert_eq!(gateway.statements(), 5);
    assert!(db.is_autocommit());
    assert_eq!(count(&db, "resources"), 1);
}

#[test]
fn an_import_that_is_not_committed_leaves_nothing() {
    let db = memory();
    {
        let mut gateway = Gateway::new(&db);
        let trx = gateway.begin().unwrap();
        let mut lookups = rubick::initialize::Lookups::new();
        rubick::initialize::import_record(&mut gateway, &fixture(), &mut lookups);
        assert!(gateway.statements() > 100);
        assert_eq!(count(&db, "resources"), 1);
        drop(trx);
    }
    assert_eq!(count(&db, "resources"), 0);
    assert_eq!(count(&db, "files"), 0);
    assert_eq!(count(&db, "ways"), 0);
    let mut gateway = Gateway::new(&db);
    let trx = gateway.begin().unwrap();
    let mut lookups = rubick::initialize::Lookups::new();
    rubick::initialize::import_record(&mut gateway, &fixture(), &mut lookups);
    assert!(gateway.commit(trx).is_ok());
    assert_eq!(count(&db, "resources"), 1);
    assert_eq!(count(&db, "files"), 60);
}
