//! Tasks, their kinds and times, and the task request handlers.

use crate::account_handler::{only_library_changed, Database};
use crate::user::{
    can_complete, completed_library, is_window_listing, task_answer, updated_library,
    with_task_added, LoginResult, TaskError,
};
use vstd::prelude::*;

verus! {

broadcast use vstd::std_specs::hash::group_hash_axioms;

/// Whether an entry is a task (with its done flag) or an event.
#[derive(Debug, Clone, Copy, PartialEq, Eq, Structural, PartialOrd, Ord)]
pub enum Species {
    Task(bool),
    Event,
}

/// When an entry takes place.
///
/// For a repeating entry the numbers are seconds since the start of the day;
/// otherwise they are unix times (`AllDay` and `DayRange` hold the unix time
/// of the start of a day: 0 is 1 Jan 1970, 86400 is 2 Jan 1970).
#[derive(Debug, Clone, Copy, PartialEq, Eq, Structural, PartialOrd, Ord)]
pub enum TimeSpecies {
    Start(u128),
    Range(u128, u128),
    AllDay(u128),
    DayRange(u128, u128),
}

/// Whether an entry happens once or repeats on some days of the week
/// (a bit mask, one bit per day; the first bit is ignored).
#[derive(Debug, Clone, Copy, PartialEq, Eq, Structural, PartialOrd, Ord)]
pub enum OccuranceSpecies {
    Once,
    Repeating(u8),
}

/// One entry of a user's library. `id` is unique within that user's library.
#[derive(Debug, PartialEq, Eq)]
pub struct Task {
    pub id: usize,
    pub species: Species,
    pub occurance_species: OccuranceSpecies,
    pub time_species: TimeSpecies,
    pub title: String,
    pub description: String,
    pub colour: u128,
}

impl Clone for Task {
    fn clone(&self) -> (copy: Self)
        ensures
            copy == *self,
    {
        Task {
            id: self.id,
            species: self.species,
            occurance_species: self.occurance_species,
            time_species: self.time_species,
            title: self.title.clone(),
            description: self.description.clone(),
            colour: self.colour,
        }
    }
}

impl TimeSpecies {
    /// The first time of the entry.
    pub open spec fn starts_at(self) -> u128 {
        match self {
            TimeSpecies::Start(s) => s,
            TimeSpecies::Range(s, _) => s,
            TimeSpecies::AllDay(s) => s,
            TimeSpecies::DayRange(s, _) => s,
        }
    }

    /// The last time of the entry, for the kinds that have one.
    pub open spec fn ends_at(self) -> Option<u128> {
        match self {
            TimeSpecies::Start(_) => None,
            TimeSpecies::Range(_, e) => Some(e),
            TimeSpecies::AllDay(_) => None,
            TimeSpecies::DayRange(_, e) => Some(e),
        }
    }
}

impl Task {
    /// Whether the entry meets the window `[start, end]`: an entry with an end
    /// overlaps the window; an entry without one starts inside it.
    pub open spec fn meets_window(self, start: u128, end: u128) -> bool {
        let near = self.time_species.starts_at();
        match self.time_species.ends_at() {
            Some(far) => start <= far && near <= end,
            None => near >= start && end >= near,
        }
    }

    pub fn in_range(&self, start: u128, end: u128) -> (meets: bool)
        ensures
            meets == self.meets_window(start, end),
    {
        let near: u128 = self.start_time();
        match self.end_time() {
            Some(far) => (start <= far) && (near <= end),
            None => (near >= start) && (end >= near),
        }
    }

    pub fn start_time(&self) -> (s: u128)
        ensures
            s == self.time_species.starts_at(),
    {
        match self.time_species {
            TimeSpecies::Start(s) => s,
            TimeSpecies::Range(s, _) => s,
            TimeSpecies::AllDay(s) => s,
            TimeSpecies::DayRange(s, _) => s,
        }
    }

    pub fn end_time(&self) -> (e: Option<u128>)
        ensures
            e == self.time_species.ends_at(),
    {
        match self.time_species {
            TimeSpecies::Start(_) => None,
            TimeSpecies::Range(_, e) => Some(e),
            TimeSpecies::AllDay(_) => None,
            TimeSpecies::DayRange(_, e) => Some(e),
        }
    }
}

/// Whether two pieces of text hold the same characters.
fn same_text(a: &str, b: &str) -> (same: bool)
    ensures
        same == (a@ == b@),
{
    a.to_owned() == b.to_owned()
}

/// The species that a variant name stands for: the name is matched exactly,
/// and the done flag of a task starts out false.
pub open spec fn species_named(name: Seq<char>) -> Option<Species> {
    if name == "Task"@ {
        Some(Species::Task(false))
    } else if name == "Event"@ {
        Some(Species::Event)
    } else {
        None
    }
}

/// The time kind that a variant name stands for, its times zero.
pub open spec fn time_species_named(name: Seq<char>) -> Option<TimeSpecies> {
    if name == "Start"@ {
        Some(TimeSpecies::Start(0))
    } else if name == "Range"@ {
        Some(TimeSpecies::Range(0, 0))
    } else if name == "AllDay"@ {
        Some(TimeSpecies::AllDay(0))
    } else if name == "DayRange"@ {
        Some(TimeSpecies::DayRange(0, 0))
    } else {
        None
    }
}

/// The occurrence kind that a variant name stands for, its day mask zero.
pub open spec fn occurance_species_named(name: Seq<char>) -> Option<OccuranceSpecies> {
    if name == "Once"@ {
        Some(OccuranceSpecies::Once)
    } else if name == "Repeating"@ {
        Some(OccuranceSpecies::Repeating(0))
    } else {
        None
    }
}

impl Species {
    /// Reads a species from its variant name.
    pub fn from_name(name: &str) -> (parsed: Option<Species>)
        ensures
            parsed == species_named(name@),
    {
        if same_text(name, "Task") {
            Some(Species::Task(false))
        } else if same_text(name, "Event") {
            Some(Species::Event)
        } else {
            None
        }
    }
}

impl TimeSpecies {
    /// Reads a time kind from its variant name.
    pub fn from_name(name: &str) -> (parsed: Option<TimeSpecies>)
        ensures
            parsed == time_species_named(name@),
    {
        if same_text(name, "Start") {
            Some(TimeSpecies::Start(0))
        } else if same_text(name, "Range") {
            Some(TimeSpecies::Range(0, 0))
        } else if same_text(name, "AllDay") {
            Some(TimeSpecies::AllDay(0))
        } else if same_text(name, "DayRange") {
            Some(TimeSpecies::DayRange(0, 0))
        } else {
            None
        }
    }
}

impl OccuranceSpecies {
    /// Reads an occurrence kind from its variant name.
    pub fn from_name(name: &str) -> (parsed: Option<OccuranceSpecies>)
        ensures
            parsed == occurance_species_named(name@),
    {
        if same_text(name, "Once") {
            Some(OccuranceSpecies::Once)
        } else if same_text(name, "Repeating") {
            Some(OccuranceSpecies::Repeating(0))
        } else {
            None
        }
    }
}

/// The species a request asks for: an unknown name gives an event.
pub open spec fn requested_species(name: Seq<char>) -> Species {
    match species_named(name) {
        Some(s) => s,
        None => Species::Event,
    }
}

/// The occurrence a request asks for: a repeating entry takes the low byte of
/// `repeating_day` as its day mask; an unknown name gives a one-off entry.
pub open spec fn requested_occurance(name: Seq<char>, repeating_day: u128) -> OccuranceSpecies {
    match occurance_species_named(name) {
        Some(OccuranceSpecies::Repeating(_)) => OccuranceSpecies::Repeating(repeating_day as u8),
        Some(o) => o,
        None => OccuranceSpecies::Once,
    }
}

/// The time a request asks for: kinds with one time take `start`, kinds with
/// two take `start` and `end`; an unknown name gives `Start(start)`.
pub open spec fn requested_time(name: Seq<char>, start: u128, end: u128) -> TimeSpecies {
    match time_species_named(name) {
        Some(TimeSpecies::Start(_)) => TimeSpecies::Start(start),
        Some(TimeSpecies::Range(_, _)) => TimeSpecies::Range(start, end),
        Some(TimeSpecies::AllDay(_)) => TimeSpecies::AllDay(start),
        Some(TimeSpecies::DayRange(_, _)) => TimeSpecies::DayRange(start, end),
        None => TimeSpecies::Start(start),
    }
}

fn species_for_request(r_species: &str) -> (species: Species)
    ensures
        species == requested_species(r_species@),
{
    match Species::from_name(r_species) {
        Some(i) => i,
        None => Species::Event,
    }
}

fn occurance_for_request(r_occurance_species: &str, repeating_day: u128) -> (occurance: OccuranceSpecies)
    ensures
        occurance == requested_occurance(r_occurance_species@, repeating_day),
{
    match OccuranceSpecies::from_name(r_occurance_species) {
        Some(i) => match i {
            OccuranceSpecies::Repeating(_) => OccuranceSpecies::Repeating(repeating_day as u8),
            _ => i,
        },
        None => OccuranceSpecies::Once,
    }
}

fn time_for_request(r_time_species: &str, start: u128, end: u128) -> (time: TimeSpecies)
    ensures
        time == requested_time(r_time_species@, start, end),
{
    match TimeSpecies::from_name(r_time_species) {
        Some(i) => match i {
            TimeSpecies::Start(_) => TimeSpecies::Start(start),
            TimeSpecies::Range(_, _) => TimeSpecies::Range(start, end),
            TimeSpecies::AllDay(_) => TimeSpecies::AllDay(start),
            TimeSpecies::DayRange(_, _) => TimeSpecies::DayRange(start, end),
        },
        None => TimeSpecies::Start(start),
    }
}

/// Whether the user that logged in is stored: the handlers below need them.
pub open spec fn logged_in_user_stored(db: Database, login: LoginResult) -> bool {
    login matches LoginResult::Success(id) ==> db.users@.contains_key(id)
}

/// Whether `add_task` can act for this login: the user is stored and has room
/// for a new task id.
pub open spec fn add_task_admissible(db: Database, login: LoginResult) -> bool {
    &&& logged_in_user_stored(db, login)
    &&& login matches LoginResult::Success(id) ==> !db.users@[id].library@.contains_key(usize::MAX)
}

/// Whether `complete_task` can act for this login: the user is stored and the
/// completion fits.
pub open spec fn complete_task_admissible(
    db: Database,
    login: LoginResult,
    task_id: usize,
    week_start: u128,
    current_day: u8,
) -> bool {
    &&& logged_in_user_stored(db, login)
    &&& login matches LoginResult::Success(id) ==> can_complete(
        db.users@[id].library@,
        task_id,
        week_start,
        current_day,
    )
}

/// Whether the user that logged in is stored, as `logged_in_user_stored`
/// says: what `delete_task`, `update_task` and `fetch_library` need.
pub fn user_is_stored(db: &Database, login: LoginResult) -> (stored: bool)
    ensures
        stored == logged_in_user_stored(*db, login),
{
    match login {
        LoginResult::Success(id) => db.users.contains_key(&id),
        _ => true,
    }
}

/// Whether `add_task` can act for this login, as `add_task_admissible` says.
pub fn add_task_is_admissible(db: &Database, login: LoginResult) -> (admissible: bool)
    ensures
        admissible == add_task_admissible(*db, login),
{
    match login {
        LoginResult::Success(id) => match db.users.get(&id) {
            Some(user) => !user.library.contains_key(&usize::MAX),
            None => false,
        },
        _ => true,
    }
}

/// Whether `complete_task` can act for this login, as
/// `complete_task_admissible` says.
pub fn complete_task_is_admissible(
    db: &Database,
    login: LoginResult,
    task_id: usize,
    week_start: u128,
    current_day: u8,
) -> (admissible: bool)
    ensures
        admissible == complete_task_admissible(*db, login, task_id, week_start, current_day),
{
    match login {
        LoginResult::Success(id) => match db.users.get(&id) {
            Some(user) => user.completion_fits(task_id, week_start, current_day),
            None => false,
        },
        _ => true,
    }
}

/// Adds a task, with its kind and times read from the request, to the library
/// of the user that logged in. A failed login is answered with itself.
pub fn add_task(
    db: &mut Database,
    login: LoginResult,
    r_species: &str,
    r_time_species: &str,
    start: u128,
    end: u128,
    r_occurance_species: &str,
    repeating_day: u128,
    title: String,
    description: String,
    colour: u128,
) -> (outcome: Result<(), LoginResult>)
    requires
        add_task_admissible(*old(db), login),
    ensures
        login matches LoginResult::Success(id) ==> {
            &&& outcome == Ok::<(), LoginResult>(())
            &&& only_library_changed(
                old(db).users@,
                final(db).users@,
                id,
                with_task_added(
                    old(db).users@[id].library@,
                    requested_species(r_species@),
                    requested_occurance(r_occurance_species@, repeating_day),
                    requested_time(r_time_species@, start, end),
                    title,
                    description,
                    colour,
                ),
            )
        },
        !(login is Success) ==> outcome == Err::<(), LoginResult>(login) && final(db).users@ == old(db).users@,
{
    match login {
        LoginResult::Success(user_id) => {
            let species = species_for_request(r_species);
            let occurance_species = occurance_for_request(r_occurance_species, repeating_day);
            let time_species = time_for_request(r_time_species, start, end);
            let mut user = db.users.remove(&user_id).unwrap();
            user.add_task(species, occurance_species, time_species, title, description, colour);
            db.users.insert(user_id, user);
            assert(db.users@ == old(db).users@.insert(user_id, db.users@[user_id]));
            Ok(())
        },
        e => Err(e),
    }
}

/// Completes task `task_id` of the user that logged in, on day `current_day`
/// of the week that starts at unix time `week_start`, and gives its answer.
pub fn complete_task(
    db: &mut Database,
    login: LoginResult,
    task_id: usize,
    week_start: u128,
    current_day: u8,
) -> (outcome: Result<TaskError, LoginResult>)
    requires
        complete_task_admissible(*old(db), login, task_id, week_start, current_day),
    ensures
        login matches LoginResult::Success(id) ==> {
            &&& outcome == Ok::<TaskError, LoginResult>(task_answer(old(db).users@[id].library@, task_id))
            &&& only_library_changed(
                old(db).users@,
                final(db).users@,
                id,
                completed_library(old(db).users@[id].library@, task_id, week_start, current_day),
            )
        },
        !(login is Success) ==> outcome == Err::<TaskError, LoginResult>(login) && final(db).users@
            == old(db).users@,
{
    match login {
        LoginResult::Success(user_id) => {
            let mut user = db.users.remove(&user_id).unwrap();
            let answer = user.complete_task(task_id, week_start, current_day);
            db.users.insert(user_id, user);
            assert(db.users@ == old(db).users@.insert(user_id, db.users@[user_id]));
            Ok(answer)
        },
        e => Err(e),
    }
}

/// Removes task `task_id` of the user that logged in and gives the answer.
pub fn delete_task(db: &mut Database, login: LoginResult, task_id: usize) -> (outcome: Result<
    TaskError,
    LoginResult,
>)
    requires
        logged_in_user_stored(*old(db), login),
    ensures
        login matches LoginResult::Success(id) ==> {
            &&& outcome == Ok::<TaskError, LoginResult>(task_answer(old(db).users@[id].library@, task_id))
            &&& only_library_changed(
                old(db).users@,
                final(db).users@,
                id,
                old(db).users@[id].library@.remove(task_id),
            )
        },
        !(login is Success) ==> outcome == Err::<TaskError, LoginResult>(login) && final(db).users@
            == old(db).users@,
{
    match login {
        LoginResult::Success(user_id) => {
            let mut user = db.users.remove(&user_id).unwrap();
            let answer = user.delete_task(task_id);
            db.users.insert(user_id, user);
            assert(db.users@ == old(db).users@.insert(user_id, db.users@[user_id]));
            Ok(answer)
        },
        e => Err(e),
    }
}

/// Gives task `task_id` of the user that logged in new contents, read from
/// the request as `add_task` reads them. A missing task is passed over.
pub fn update_task(
    db: &mut Database,
    login: LoginResult,
    task_id: usize,
    r_species: &str,
    r_time_species: &str,
    start: u128,
    end: u128,
    r_occurance_species: &str,
    repeating_day: u128,
    title: String,
    description: String,
    colour: u128,
) -> (outcome: Result<(), LoginResult>)
    requires
        logged_in_user_stored(*old(db), login),
    ensures
        login matches LoginResult::Success(id) ==> {
            &&& outcome == Ok::<(), LoginResult>(())
            &&& only_library_changed(
                old(db).users@,
                final(db).users@,
                id,
                updated_library(
                    old(db).users@[id].library@,
                    task_id,
                    requested_species(r_species@),
                    requested_occurance(r_occurance_species@, repeating_day),
                    requested_time(r_time_species@, start, end),
                    title,
                    description,
                    colour,
                ),
            )
        },
        !(login is Success) ==> outcome == Err::<(), LoginResult>(login) && final(db).users@ == old(db).users@,
{
    match login {
        LoginResult::Success(user_id) => {
            let species = species_for_request(r_species);
            let occurance_species = occurance_for_request(r_occurance_species, repeating_day);
            let time_species = time_for_request(r_time_species, start, end);
            let mut user = db.users.remove(&user_id).unwrap();
            user.update_task(task_id, species, occurance_species, time_species, title, description, colour);
            db.users.insert(user_id, user);
            assert(db.users@ == old(db).users@.insert(user_id, db.users@[user_id]));
            Ok(())
        },
        e => Err(e),
    }
}

/// The entries of the user that logged in that meet the window
/// `[start, end]`, in order of their first time.
pub fn fetch_library(db: &Database, login: LoginResult, start: u128, end: u128) -> (outcome: Result<
    Vec<Task>,
    LoginResult,
>)
    requires
        logged_in_user_stored(*db, login),
    ensures
        login matches LoginResult::Success(id) ==> (outcome matches Ok(tasks) && is_window_listing(
            db.users@[id].library@,
            start,
            end,
            tasks@,
        )),
        !(login is Success) ==> (outcome matches Err(e) && e == login),
{
    match login {
        LoginResult::Success(user_id) => Ok(db.users.get(&user_id).unwrap().fetch_library(start, end)),
        e => Err(e),
    }
}

} // verus!
