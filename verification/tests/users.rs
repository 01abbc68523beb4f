use backend::account_handler::Database;
use backend::task::{OccuranceSpecies, Species, Task, TimeSpecies};
use backend::user::{LoginInfoParseError, LoginInformation, LoginResult, TaskError, User};
use std::collections::HashMap;

fn empty_user() -> User {
    User { id: 1, username: "alice".to_string(), library: HashMap::new() }
}

fn add(user: &mut User, species: Species, occurance: OccuranceSpecies, time: TimeSpecies) {
    user.add_task(species, occurance, time, "title".to_string(), "notes".to_string(), 9);
}

#[test]
fn first_task_gets_id_zero() {
    let mut user = empty_user();
    add(&mut user, Species::Event, OccuranceSpecies::Once, TimeSpecies::Start(5));
    assert_eq!(user.library.len(), 1);
    let t = user.library.get(&0).unwrap();
    assert_eq!(t.id, 0);
    assert_eq!(t.title, "title");
    assert_eq!(t.description, "notes");
    assert_eq!(t.colour, 9);
    assert_eq!(user.id, 1);
    assert_eq!(user.username, "alice");
}

#[test]
fn new_task_id_is_one_past_the_greatest() {
    let mut user = empty_user();
    for id in [3usize, 17, 5] {
        user.library.insert(
            id,
            Task {
                id,
                species: Species::Event,
                occurance_species: OccuranceSpecies::Once,
                time_species: TimeSpecies::Start(0),
                title: String::new(),
                description: String::new(),
                colour: 0,
            },
        );
    }
    add(&mut user, Species::Task(false), OccuranceSpecies::Once, TimeSpecies::Start(1));
    assert_eq!(user.library.len(), 4);
    assert_eq!(user.library.get(&18).unwrap().id, 18);
    assert_eq!(user.library.get(&18).unwrap().time_species, TimeSpecies::Start(1));
    assert_eq!(user.library.get(&17).unwrap().time_species, TimeSpecies::Start(0));
}

#[test]
fn completing_a_one_off_task_flips_its_flag() {
    let mut user = empty_user();
    add(&mut user, Species::Task(false), OccuranceSpecies::Once, TimeSpecies::Start(5));
    assert_eq!(user.complete_task(0, 0, 0), TaskError::Success);
    assert_eq!(user.library.get(&0).unwrap().species, Species::Task(true));
    assert_eq!(user.complete_task(0, 0, 0), TaskError::Success);
    assert_eq!(user.library.get(&0).unwrap().species, Species::Task(false));
    assert_eq!(user.library.len(), 1);
}

#[test]
fn completing_an_event_changes_nothing() {
    let mut user = empty_user();
    add(&mut user, Species::Event, OccuranceSpecies::Once, TimeSpecies::Start(5));
    let before = user.clone();
    assert_eq!(user.complete_task(0, 0, 0), TaskError::Success);
    assert_eq!(user, before);
}

#[test]
fn completing_a_missing_task_is_refused() {
    let mut user = empty_user();
    let before = user.clone();
    assert_eq!(user.complete_task(4, 0, 0), TaskError::TaskNoExist);
    assert_eq!(user, before);
}

#[test]
fn completing_a_repeating_task_adds_a_dated_copy() {
    let mut user = empty_user();
    add(&mut user, Species::Task(false), OccuranceSpecies::Repeating(0b1001_0000), TimeSpecies::Range(3600, 7200));
    assert_eq!(user.complete_task(0, 1_000_000, 2), TaskError::Success);
    assert_eq!(user.library.len(), 2);
    let original = user.library.get(&0).unwrap();
    assert_eq!(original.occurance_species, OccuranceSpecies::Repeating(0b1001_0000));
    let copy = user.library.get(&1).unwrap();
    assert_eq!(copy.id, 1);
    assert_eq!(copy.occurance_species, OccuranceSpecies::Once);
    assert_eq!(copy.species, Species::Task(false));
    assert_eq!(copy.title, "title");
    assert_eq!(
        copy.time_species,
        TimeSpecies::Range(3600 * 86400 * 2 + 1_000_000, 7200 * 86400 * 2 + 1_000_000)
    );
}

#[test]
fn completing_a_repeating_day_range_gives_an_all_day_entry() {
    let mut user = empty_user();
    add(&mut user, Species::Event, OccuranceSpecies::Repeating(1), TimeSpecies::DayRange(1, 99));
    assert_eq!(user.complete_task(0, 10, 3), TaskError::Success);
    assert_eq!(user.library.get(&1).unwrap().time_species, TimeSpecies::AllDay(86400 * 3 + 10));
    add(&mut user, Species::Event, OccuranceSpecies::Repeating(1), TimeSpecies::Start(2));
    assert_eq!(user.complete_task(2, 10, 0), TaskError::Success);
    assert_eq!(user.library.get(&3).unwrap().time_species, TimeSpecies::Start(10));
    add(&mut user, Species::Event, OccuranceSpecies::Repeating(1), TimeSpecies::AllDay(1));
    assert_eq!(user.complete_task(4, 0, 1), TaskError::Success);
    assert_eq!(user.library.get(&5).unwrap().time_species, TimeSpecies::AllDay(86400));
}

#[test]
fn delete_then_delete_again() {
    let mut user = empty_user();
    add(&mut user, Species::Event, OccuranceSpecies::Once, TimeSpecies::Start(5));
    add(&mut user, Species::Event, OccuranceSpecies::Once, TimeSpecies::Start(6));
    assert_eq!(user.delete_task(0), TaskError::Success);
    assert_eq!(user.delete_task(0), TaskError::TaskNoExist);
    assert_eq!(user.library.len(), 1);
    assert!(user.library.contains_key(&1));
}

#[test]
fn update_keeps_the_stored_id() {
    let mut user = empty_user();
    add(&mut user, Species::Event, OccuranceSpecies::Once, TimeSpecies::Start(5));
    assert_eq!(
        user.update_task(0, Species::Task(true), OccuranceSpecies::Repeating(2), TimeSpecies::AllDay(0), "x".to_string(), "y".to_string(), 1),
        TaskError::Success
    );
    let t = user.library.get(&0).unwrap();
    assert_eq!(t.id, 0);
    assert_eq!(t.species, Species::Task(true));
    assert_eq!(t.occurance_species, OccuranceSpecies::Repeating(2));
    assert_eq!(t.time_species, TimeSpecies::AllDay(0));
    assert_eq!(t.title, "x");
    assert_eq!(t.description, "y");
    assert_eq!(t.colour, 1);
    assert_eq!(
        user.update_task(3, Species::Event, OccuranceSpecies::Once, TimeSpecies::Start(0), String::new(), String::new(), 0),
        TaskError::TaskNoExist
    );
    assert_eq!(user.library.len(), 1);
}

#[test]
fn fetch_library_filters_and_sorts() {
    let mut user = empty_user();
    add(&mut user, Species::Event, OccuranceSpecies::Once, TimeSpecies::Start(50));
    add(&mut user, Species::Event, OccuranceSpecies::Once, TimeSpecies::Range(0, 5));
    add(&mut user, Species::Event, OccuranceSpecies::Once, TimeSpecies::Range(0, 20));
    add(&mut user, Species::Event, OccuranceSpecies::Once, TimeSpecies::Start(200));
    add(&mut user, Species::Event, OccuranceSpecies::Once, TimeSpecies::DayRange(90, 300));
    let tasks = user.fetch_library(10, 100);
    let ids: Vec<usize> = tasks.iter().map(|t| t.id).collect();
    assert_eq!(ids, vec![2, 0, 4]);
    assert!(user.fetch_library(400, 500).is_empty());
}

#[test]
fn task_error_texts() {
    assert_eq!(TaskError::Success.as_text(), "Success");
    assert_eq!(TaskError::TaskNoExist.as_text(), "TaskNoExist");
}

fn credentials(username: &str, password: &str) -> LoginInformation {
    LoginInformation { username: username.to_string(), password: password.to_string() }
}

#[test]
fn login_without_account_is_refused() {
    let mut db = Database::new();
    assert_eq!(credentials("bob", "pw").login(&mut db, None), LoginResult::UsernameNoExist);
    assert!(db.users.is_empty());
}

#[test]
fn login_with_wrong_password_is_refused() {
    let mut db = Database::new();
    let r = credentials("bob", "pw").login(&mut db, Some((4, "other".to_string())));
    assert_eq!(r, LoginResult::PasswordWrong);
    assert!(db.users.is_empty());
}

#[test]
fn first_login_creates_the_user() {
    let mut db = Database::new();
    let r = credentials("bob", "pw").login(&mut db, Some((4, "pw".to_string())));
    assert_eq!(r, LoginResult::Success(4));
    let u = db.users.get(&4).unwrap();
    assert_eq!(u.id, 4);
    assert_eq!(u.username, "bob");
    assert!(u.library.is_empty());
    let again = credentials("bob", "pw").login(&mut db, Some((4, "pw".to_string())));
    assert_eq!(again, LoginResult::Success(4));
    assert_eq!(db.users.len(), 1);
}

#[test]
fn login_of_a_known_name_under_another_id_adds_nobody() {
    let mut db = Database::new();
    db.users.insert(9, User { id: 9, username: "bob".to_string(), library: HashMap::new() });
    let r = credentials("bob", "pw").login(&mut db, Some((4, "pw".to_string())));
    assert_eq!(r, LoginResult::Success(4));
    assert_eq!(db.users.len(), 1);
    assert!(db.users.get(&4).is_none());
}

#[test]
fn body_text_reads_bytes_as_characters() {
    assert_eq!(LoginInformation::body_text(b""), Err(LoginInfoParseError::Empty));
    assert_eq!(LoginInformation::body_text(b"ab").unwrap(), "ab");
    assert_eq!(LoginInformation::body_text(&[0xe9]).unwrap(), "\u{e9}");
}

#[test]
fn credentials_from_a_json_body() {
    let body = br#"{"username": "bob", "password": "secret", "extra": "x"}"#;
    let info = LoginInformation::from_body(body).unwrap();
    assert_eq!(info.username, "bob");
    assert_eq!(info.password, "secret");
    let checked = LoginInformation::checked_from_body(body).unwrap().unwrap();
    assert_eq!(checked.username, "bob");
    assert_eq!(checked.password, "secret");
}

#[test]
fn empty_body_gives_empty() {
    assert!(matches!(LoginInformation::from_body(b""), Err(LoginInfoParseError::Empty)));
    assert!(matches!(LoginInformation::checked_from_body(b""), Some(Err(LoginInfoParseError::Empty))));
}

#[test]
fn unreadable_bodies_are_singled_out() {
    assert!(LoginInformation::checked_from_body(b"not json").is_none());
    assert!(LoginInformation::checked_from_body(br#"{"username": "bob"}"#).is_none());
    assert!(LoginInformation::checked_from_body(br#"{"username": "bob", "password": 3}"#).is_none());
    assert!(LoginInformation::checked_from_body(br#"["username", "password"]"#).is_none());
}

#[test]
fn fetch_user_id_finds_by_name() {
    let mut db = Database::new();
    assert_eq!(db.fetch_user_id(&"bob".to_string()), None);
    db.users.insert(3, User { id: 3, username: "bob".to_string(), library: HashMap::new() });
    db.users.insert(5, User { id: 5, username: "eve".to_string(), library: HashMap::new() });
    assert_eq!(db.fetch_user_id(&"bob".to_string()), Some(3));
    assert_eq!(db.fetch_user_id(&"eve".to_string()), Some(5));
    assert_eq!(db.fetch_user_id(&"Bob".to_string()), None);
}
