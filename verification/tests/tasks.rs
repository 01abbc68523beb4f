use backend::account_handler::Database;
use backend::task::{
    add_task, add_task_is_admissible, complete_task_is_admissible, user_is_stored, complete_task, delete_task, fetch_library, update_task, OccuranceSpecies, Species,
    Task, TimeSpecies,
};
use backend::user::{LoginResult, TaskError, User};
use std::collections::HashMap;

fn task(id: usize, time_species: TimeSpecies) -> Task {
    Task {
        id,
        species: Species::Task(false),
        occurance_species: OccuranceSpecies::Once,
        time_species,
        title: "title".to_string(),
        description: "description".to_string(),
        colour: 0,
    }
}

fn database_with_user(id: u128) -> Database {
    let mut db = Database::new();
    db.users.insert(
        id,
        User { id, username: "alice".to_string(), library: HashMap::new() },
    );
    db
}

#[test]
fn start_and_end_time_of_each_kind() {
    assert_eq!(task(0, TimeSpecies::Start(5)).start_time(), 5);
    assert_eq!(task(0, TimeSpecies::Start(5)).end_time(), None);
    assert_eq!(task(0, TimeSpecies::Range(5, 9)).start_time(), 5);
    assert_eq!(task(0, TimeSpecies::Range(5, 9)).end_time(), Some(9));
    assert_eq!(task(0, TimeSpecies::AllDay(86400)).start_time(), 86400);
    assert_eq!(task(0, TimeSpecies::AllDay(86400)).end_time(), None);
    assert_eq!(task(0, TimeSpecies::DayRange(0, 86400)).start_time(), 0);
    assert_eq!(task(0, TimeSpecies::DayRange(0, 86400)).end_time(), Some(86400));
}

#[test]
fn in_range_without_end_needs_start_inside() {
    let t = task(0, TimeSpecies::Start(10));
    assert!(t.in_range(10, 10));
    assert!(t.in_range(0, 20));
    assert!(!t.in_range(11, 20));
    assert!(!t.in_range(0, 9));
}

#[test]
fn in_range_with_end_needs_overlap() {
    let t = task(0, TimeSpecies::Range(10, 20));
    assert!(t.in_range(0, 10));
    assert!(t.in_range(20, 30));
    assert!(t.in_range(12, 15));
    assert!(!t.in_range(21, 30));
    assert!(!t.in_range(0, 9));
}

#[test]
fn names_parse_exactly() {
    assert_eq!(Species::from_name("Task"), Some(Species::Task(false)));
    assert_eq!(Species::from_name("Event"), Some(Species::Event));
    assert_eq!(Species::from_name("task"), None);
    assert_eq!(TimeSpecies::from_name("Start"), Some(TimeSpecies::Start(0)));
    assert_eq!(TimeSpecies::from_name("Range"), Some(TimeSpecies::Range(0, 0)));
    assert_eq!(TimeSpecies::from_name("AllDay"), Some(TimeSpecies::AllDay(0)));
    assert_eq!(TimeSpecies::from_name("DayRange"), Some(TimeSpecies::DayRange(0, 0)));
    assert_eq!(TimeSpecies::from_name("Allday"), None);
    assert_eq!(OccuranceSpecies::from_name("Once"), Some(OccuranceSpecies::Once));
    assert_eq!(OccuranceSpecies::from_name("Repeating"), Some(OccuranceSpecies::Repeating(0)));
    assert_eq!(OccuranceSpecies::from_name(""), None);
}

#[test]
fn add_task_reads_the_request() {
    let mut db = database_with_user(7);
    let r = add_task(
        &mut db,
        LoginResult::Success(7),
        "Task",
        "Range",
        100,
        200,
        "Repeating",
        0x1_12,
        "gym".to_string(),
        "legs".to_string(),
        3,
    );
    assert_eq!(r, Ok(()));
    let lib = &db.users.get(&7).unwrap().library;
    assert_eq!(lib.len(), 1);
    let t = lib.get(&0).unwrap();
    assert_eq!(t.id, 0);
    assert_eq!(t.species, Species::Task(false));
    assert_eq!(t.occurance_species, OccuranceSpecies::Repeating(0x12));
    assert_eq!(t.time_species, TimeSpecies::Range(100, 200));
    assert_eq!(t.title, "gym");
    assert_eq!(t.description, "legs");
    assert_eq!(t.colour, 3);
}

#[test]
fn add_task_falls_back_on_unknown_names() {
    let mut db = database_with_user(7);
    let r = add_task(
        &mut db,
        LoginResult::Success(7),
        "nonsense",
        "nonsense",
        100,
        200,
        "nonsense",
        5,
        "a".to_string(),
        "b".to_string(),
        0,
    );
    assert_eq!(r, Ok(()));
    let t = db.users.get(&7).unwrap().library.get(&0).unwrap().clone();
    assert_eq!(t.species, Species::Event);
    assert_eq!(t.occurance_species, OccuranceSpecies::Once);
    assert_eq!(t.time_species, TimeSpecies::Start(100));
}

#[test]
fn add_task_one_time_kinds_take_start_only() {
    let mut db = database_with_user(1);
    add_task(&mut db, LoginResult::Success(1), "Event", "AllDay", 86400, 9, "Once", 0, String::new(), String::new(), 0)
        .unwrap();
    add_task(&mut db, LoginResult::Success(1), "Event", "DayRange", 0, 86400, "Once", 0, String::new(), String::new(), 0)
        .unwrap();
    let lib = &db.users.get(&1).unwrap().library;
    assert_eq!(lib.get(&0).unwrap().time_species, TimeSpecies::AllDay(86400));
    assert_eq!(lib.get(&1).unwrap().time_species, TimeSpecies::DayRange(0, 86400));
}

#[test]
fn handlers_answer_a_failed_login_with_it() {
    let mut db = database_with_user(7);
    let before = db.clone();
    for login in [
        LoginResult::UsernameNoExist,
        LoginResult::PasswordWrong,
        LoginResult::PasswordNoExist,
        LoginResult::UsernameTaken,
    ] {
        assert_eq!(
            add_task(&mut db, login, "Task", "Start", 1, 2, "Once", 0, String::new(), String::new(), 0),
            Err(login)
        );
        assert_eq!(complete_task(&mut db, login, 0, 0, 0), Err(login));
        assert_eq!(delete_task(&mut db, login, 0), Err(login));
        assert_eq!(
            update_task(&mut db, login, 0, "Task", "Start", 1, 2, "Once", 0, String::new(), String::new(), 0),
            Err(login)
        );
        assert!(matches!(fetch_library(&db, login, 0, 10), Err(e) if e == login));
    }
    assert_eq!(db, before);
}

#[test]
fn complete_delete_and_update_through_handlers() {
    let mut db = database_with_user(7);
    add_task(&mut db, LoginResult::Success(7), "Task", "Start", 50, 0, "Once", 0, "t".to_string(), String::new(), 0)
        .unwrap();
    assert_eq!(complete_task(&mut db, LoginResult::Success(7), 0, 0, 0), Ok(TaskError::Success));
    assert_eq!(db.users.get(&7).unwrap().library.get(&0).unwrap().species, Species::Task(true));
    assert_eq!(complete_task(&mut db, LoginResult::Success(7), 9, 0, 0), Ok(TaskError::TaskNoExist));
    assert_eq!(
        update_task(&mut db, LoginResult::Success(7), 0, "Event", "Range", 1, 2, "Once", 0, "new".to_string(), "d".to_string(), 4),
        Ok(())
    );
    let t = db.users.get(&7).unwrap().library.get(&0).unwrap().clone();
    assert_eq!(t.id, 0);
    assert_eq!(t.species, Species::Event);
    assert_eq!(t.time_species, TimeSpecies::Range(1, 2));
    assert_eq!(t.title, "new");
    assert_eq!(t.colour, 4);
    // A missing task is passed over and still answered with success.
    assert_eq!(
        update_task(&mut db, LoginResult::Success(7), 5, "Event", "Range", 1, 2, "Once", 0, String::new(), String::new(), 0),
        Ok(())
    );
    assert_eq!(db.users.get(&7).unwrap().library.len(), 1);
    assert_eq!(delete_task(&mut db, LoginResult::Success(7), 0), Ok(TaskError::Success));
    assert_eq!(delete_task(&mut db, LoginResult::Success(7), 0), Ok(TaskError::TaskNoExist));
    assert!(db.users.get(&7).unwrap().library.is_empty());
}

#[test]
fn fetch_library_handler_lists_in_start_order() {
    let mut db = database_with_user(7);
    for start in [30u128, 10, 20, 1000] {
        add_task(&mut db, LoginResult::Success(7), "Task", "Start", start, 0, "Once", 0, String::new(), String::new(), 0)
            .unwrap();
    }
    let tasks = fetch_library(&db, LoginResult::Success(7), 0, 100).unwrap();
    let starts: Vec<u128> = tasks.iter().map(|t| t.start_time()).collect();
    assert_eq!(starts, vec![10, 20, 30]);
    let ids: Vec<usize> = tasks.iter().map(|t| t.id).collect();
    assert_eq!(ids, vec![1, 2, 0]);
}

#[test]
fn task_clone_keeps_every_field() {
    let t = task(4, TimeSpecies::DayRange(1, 2));
    assert_eq!(t.clone(), t);
}

#[test]
fn admissibility_checks() {
    let mut db = database_with_user(7);
    assert!(user_is_stored(&db, LoginResult::Success(7)));
    assert!(!user_is_stored(&db, LoginResult::Success(8)));
    assert!(user_is_stored(&db, LoginResult::PasswordWrong));
    assert!(add_task_is_admissible(&db, LoginResult::Success(7)));
    assert!(!add_task_is_admissible(&db, LoginResult::Success(8)));
    assert!(add_task_is_admissible(&db, LoginResult::UsernameNoExist));
    add_task(&mut db, LoginResult::Success(7), "Event", "Start", u128::MAX / 2, 0, "Repeating", 1, String::new(), String::new(), 0)
        .unwrap();
    add_task(&mut db, LoginResult::Success(7), "Event", "Start", 10, 0, "Repeating", 1, String::new(), String::new(), 0)
        .unwrap();
    add_task(&mut db, LoginResult::Success(7), "Event", "Start", u128::MAX, 0, "Once", 0, String::new(), String::new(), 0)
        .unwrap();
    // Repeating entry whose moved time overflows.
    assert!(!complete_task_is_admissible(&db, LoginResult::Success(7), 0, 0, 1));
    // Even on day 0 the product on the way overflows.
    assert!(!complete_task_is_admissible(&db, LoginResult::Success(7), 0, 0, 0));
    assert!(complete_task_is_admissible(&db, LoginResult::Success(7), 1, 5, 6));
    assert!(!complete_task_is_admissible(&db, LoginResult::Success(7), 1, u128::MAX, 1));
    // One-off entries and missing tasks complete without arithmetic.
    assert!(complete_task_is_admissible(&db, LoginResult::Success(7), 2, u128::MAX, 200));
    assert!(complete_task_is_admissible(&db, LoginResult::Success(7), 99, u128::MAX, 200));
    assert!(!complete_task_is_admissible(&db, LoginResult::Success(8), 1, 0, 0));
    db.users.get_mut(&7).unwrap().library.insert(usize::MAX, task(usize::MAX, TimeSpecies::Start(0)));
    assert!(!add_task_is_admissible(&db, LoginResult::Success(7)));
    assert!(!complete_task_is_admissible(&db, LoginResult::Success(7), 1, 5, 6));
    assert!(complete_task_is_admissible(&db, LoginResult::Success(7), 2, 5, 6));
}
