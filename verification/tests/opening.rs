use std::cell::Cell;
use std::path::PathBuf;

use rubick::api::favorite_in;
use rubick::api::favorites_in;
use rubick::api::persist_in;
use rubick::api::resource_in;
use rubick::api::search_in;
use rubick::api::un_favorite_in;
use rubick::api::Pending;
use rubick::application::initialized_in;
use rubick::database::connect;
use rubick::database::execute_in;
use rubick::database::migrate;
use rubick::database::setup_in;
use rubick::initialize::clear_in;
use rubick::model::Rating;
use rubick::model::Resource;
use rubick::store::took_a_row;
use rubick::store::Gateway;
use rubick::store::SqlArg;
use rubick::store::StoreError;
use rusqlite::types::Value;
use rusqlite::Connection;

const REFUSED: &str = "unable to open database file";

fn refused() -> Result<Connection, StoreError> {
    Err(StoreError { message: String::from(REFUSED) })
}

fn bare() -> Result<Connection, StoreError> {
    connect(&PathBuf::from(":memory:"))
}

fn laid_out() -> Result<Connection, StoreError> {
    let db = connect(&PathBuf::from(":memory:")).unwrap();
    {
        let mut gateway = Gateway::new(&db);
        migrate(&mut gateway).unwrap();
    }
    Ok(db)
}

fn holding(names: &[&str]) -> Result<Connection, StoreError> {
    let db = laid_out().unwrap();
    {
        let mut gateway = Gateway::new(&db);
        let tv = vec![SqlArg::Text(String::from("tv"))];
        assert_eq!(gateway.insert("insert into channels (name) values (?1)", &tv), Some(1));
        let us = vec![SqlArg::Text(String::from("US"))];
        assert_eq!(gateway.insert("insert into areas (name) values (?1)", &us), Some(1));
        for name in names {
            let args = vec![SqlArg::Text(String::from(*name))];
            assert!(gateway
                .insert("insert into resources (name, channel_id, area_id) values (?1, 1, 1)", &args)
                .is_some());
        }
    }
    Ok(db)
}

fn sample(id: i64) -> Resource {
    Resource {
        id,
        name: String::from("Lost"),
        original_name: String::new(),
        alias_name: String::new(),
        pic: String::from("lost.jpg"),
        directors: String::new(),
        writers: String::new(),
        actors: String::new(),
        types: String::new(),
        released_at: String::new(),
        summary: String::new(),
        rating: Rating { value: Value::Real(8.5) },
        channel: String::new(),
        area: String::new(),
        favorite: false,
        seasons: Vec::new(),
    }
}

#[test]
fn took_a_row_wants_a_changed_row() {
    assert!(took_a_row(&Ok(1)));
    assert!(took_a_row(&Ok(7)));
    assert!(!took_a_row(&Ok(0)));
    assert!(!took_a_row(&Err(StoreError { message: String::from("no such table") })));
}

#[test]
fn an_insert_that_changes_nothing_gives_no_row_after_one_that_did() {
    let db = laid_out().unwrap();
    let mut gateway = Gateway::new(&db);
    let args = vec![SqlArg::Text(String::from("US"))];
    assert_eq!(gateway.insert("insert into areas (name) values (?1)", &args), Some(1));
    assert_eq!(db.last_insert_rowid(), 1);
    assert_eq!(gateway.insert("insert into areas (name) select ?1 where 0", &args), None);
    assert_eq!(gateway.insert("insert into nowhere (name) values (?1)", &args), None);
    assert_eq!(gateway.insert("insert into areas (name) values (?1)", &args), Some(2));
    assert_eq!(gateway.statements(), 4);
}

#[test]
fn search_in_reports_a_store_that_did_not_open() {
    let answer = search_in(refused(), "lost");
    assert_eq!(answer.code, 99999);
    assert_eq!(answer.message, REFUSED);
    assert!(answer.data.is_empty());
}

#[test]
fn search_in_searches_a_store_that_opened() {
    let answer = search_in(holding(&["Lost", "Found"]), "os");
    assert_eq!(answer.code, 0);
    assert_eq!(answer.message, "success");
    assert_eq!(answer.data.len(), 1);
    assert_eq!(answer.data[0].name, "Lost");
    let answer = search_in(bare(), "os");
    assert_eq!(answer.code, 99999);
    assert!(!answer.message.is_empty());
    assert!(answer.data.is_empty());
}

#[test]
fn favorites_in_reports_a_store_that_did_not_open() {
    let answer = favorites_in(refused());
    assert_eq!(answer.code, 99999);
    assert_eq!(answer.message, REFUSED);
    assert!(answer.data.is_empty());
    let answer = favorites_in(laid_out());
    assert_eq!(answer.code, 0);
    assert!(answer.data.is_empty());
}

#[test]
fn favorite_in_reports_a_store_that_did_not_open() {
    let answer = favorite_in(refused(), 1);
    assert_eq!(answer.code, 99999);
    assert_eq!(answer.message, REFUSED);
    let answer = favorite_in(laid_out(), 1);
    assert_eq!(answer.code, 0);
    assert_eq!(answer.message, "success");
}

#[test]
fn un_favorite_in_reports_a_store_that_did_not_open() {
    let answer = un_favorite_in(refused(), 1);
    assert_eq!(answer.code, 99999);
    assert_eq!(answer.message, REFUSED);
    let answer = un_favorite_in(laid_out(), 1);
    assert_eq!(answer.code, 0);
    let answer = un_favorite_in(bare(), 1);
    assert_eq!(answer.code, 99999);
}

#[test]
fn resource_in_finds_nothing_in_a_store_that_did_not_open() {
    match resource_in(refused(), 1) {
        Pending::Answer(answer) => {
            assert_eq!(answer.code, 99999);
            assert_eq!(answer.message, "resource is not exists.");
            assert!(answer.data.is_none());
        },
        other => panic!("{:?}", other),
    }
}

#[test]
fn resource_in_finds_nothing_below_the_first_id() {
    for id in [0, -1, i64::MIN] {
        match resource_in(holding(&["Lost"]), id) {
            Pending::Answer(answer) => {
                assert_eq!(answer.code, 99999);
                assert_eq!(answer.message, "resource is not exists.");
                assert!(answer.data.is_none());
            },
            other => panic!("{:?}", other),
        }
    }
}

#[test]
fn resource_in_asks_for_the_description_of_a_resource_without_picture() {
    match resource_in(holding(&["Lost"]), 1) {
        Pending::Describe(resource) => {
            assert_eq!(resource.id, 1);
            assert_eq!(resource.name, "Lost");
            assert_eq!(resource.pic, "");
        },
        other => panic!("{:?}", other),
    }
}

#[test]
fn persist_in_hands_the_failure_of_opening_on() {
    let outcome = persist_in(refused(), &sample(1));
    assert_eq!(outcome.unwrap_err().message, REFUSED);
    assert_eq!(persist_in(holding(&["Lost"]), &sample(1)).unwrap(), 1);
    assert_eq!(persist_in(holding(&["Lost"]), &sample(2)).unwrap(), 0);
}

#[test]
fn initialized_in_is_false_for_a_store_that_did_not_open() {
    assert!(!initialized_in(refused()));
    assert!(!initialized_in(bare()));
    assert!(!initialized_in(laid_out()));
    assert!(initialized_in(holding(&["Lost"])));
}

#[test]
fn setup_in_hands_the_failure_of_opening_on() {
    assert_eq!(setup_in(refused()).unwrap_err().message, REFUSED);
    assert!(setup_in(bare()).is_ok());
    assert!(setup_in(laid_out()).is_ok());
}

#[test]
fn execute_in_does_not_run_the_work_without_a_store() {
    let ran = Cell::new(false);
    let outcome: Result<i64, StoreError> = execute_in(refused(), |_| {
        ran.set(true);
        Ok(1)
    });
    assert_eq!(outcome.unwrap_err().message, REFUSED);
    assert!(!ran.get());
}

#[test]
fn execute_in_hands_the_result_of_the_work_on() {
    let runs = Cell::new(0);
    let outcome: Result<i64, StoreError> = execute_in(bare(), |db| {
        runs.set(runs.get() + 1);
        Ok(db.last_insert_rowid() + 41)
    });
    assert_eq!(outcome.unwrap(), 41);
    assert_eq!(runs.get(), 1);
    let outcome: Result<i64, StoreError> = execute_in(bare(), |_| {
        runs.set(runs.get() + 1);
        Err(StoreError { message: String::from("the work failed") })
    });
    assert_eq!(outcome.unwrap_err().message, "the work failed");
    assert_eq!(runs.get(), 2);
}

#[test]
fn clear_in_leaves_a_store_that_did_not_open_alone() {
    assert!(!clear_in(refused()));
    assert!(!clear_in(bare()));
    assert!(clear_in(holding(&["Lost"])));
}
