//! Users, their task libraries, and logging in.

use crate::account_handler::{has_username, Database};
use crate::key_list;
use crate::task::{OccuranceSpecies, Species, Task, TimeSpecies};
use std::collections::HashMap;
use vstd::prelude::*;

verus! {

broadcast use vstd::std_specs::hash::group_hash_axioms;

/// A user and the entries of their calendar, keyed by task id.
#[derive(Debug, PartialEq, Eq)]
pub struct User {
    pub id: u128,
    pub username: String,
    pub library: HashMap<usize, Task>,
}

impl Clone for User {
    fn clone(&self) -> (copy: Self)
        ensures
            copy.id == self.id,
            copy.username == self.username,
            copy.library@ == self.library@,
    {
        User { id: self.id, username: self.username.clone(), library: self.library.clone() }
    }
}

/// The answer of an operation on one task.
#[derive(Debug, Clone, Copy, PartialEq, Eq, Structural, PartialOrd, Ord)]
pub enum TaskError {
    Success,
    TaskNoExist,
}

/// The credentials sent with a request.
#[derive(Debug)]
pub struct LoginInformation {
    pub username: String,
    pub password: String,
}

impl Clone for LoginInformation {
    fn clone(&self) -> (copy: Self)
        ensures
            copy.username == self.username,
            copy.password == self.password,
    {
        LoginInformation { username: self.username.clone(), password: self.password.clone() }
    }
}

/// Why a request body gave no credentials.
#[derive(Debug, Clone, Copy, PartialEq, Eq, Structural)]
pub enum LoginInfoParseError {
    Success,
    ParsingError,
    Empty,
}

/// The outcome of logging in.
#[derive(Debug, Clone, Copy, PartialEq, Eq, Structural)]
pub enum LoginResult {
    Success(u128),
    UsernameNoExist,
    PasswordNoExist,
    PasswordWrong,
    UsernameTaken,
}

/// The text that answers report for a task answer: the variant's name.
pub open spec fn task_error_text(answer: TaskError) -> Seq<char> {
    match answer {
        TaskError::Success => "Success"@,
        TaskError::TaskNoExist => "TaskNoExist"@,
    }
}

impl TaskError {
    /// The variant's name, as answers report it.
    pub fn as_text(&self) -> (text: &'static str)
        ensures
            text@ == task_error_text(*self),
    {
        match self {
            TaskError::Success => "Success",
            TaskError::TaskNoExist => "TaskNoExist",
        }
    }
}

/// Whether `k` is the greatest task id in the library.
pub open spec fn is_greatest_id(lib: Map<usize, Task>, k: usize) -> bool {
    &&& lib.contains_key(k)
    &&& forall|j: usize| #[trigger] lib.contains_key(j) ==> j <= k
}

/// The id that a new task gets: one past the greatest id in the library, or
/// 0 when the library is empty.
pub open spec fn next_task_id(lib: Map<usize, Task>) -> usize {
    if exists|k: usize| #[trigger] lib.contains_key(k) {
        ((choose|k: usize| is_greatest_id(lib, k)) + 1) as usize
    } else {
        0
    }
}

/// The library after a new task with the given contents was added under the
/// next task id.
pub open spec fn with_task_added(
    lib: Map<usize, Task>,
    species: Species,
    occurance_species: OccuranceSpecies,
    time_species: TimeSpecies,
    title: String,
    description: String,
    colour: u128,
) -> Map<usize, Task> {
    let id = next_task_id(lib);
    lib.insert(
        id,
        Task { id, species, occurance_species, time_species, title, description, colour },
    )
}

/// `t` seconds into a day, moved to day `current_day` of the week that starts
/// at unix time `week_start`, as the completion of a repeating entry computes it.
pub open spec fn day_offset(t: u128, week_start: u128, current_day: u8) -> int {
    t * 86400 * current_day + week_start
}

/// Whether `day_offset` and the product computed on the way fit in a `u128`.
pub open spec fn offset_fits(t: u128, week_start: u128, current_day: u8) -> bool {
    &&& t * 86400 <= u128::MAX
    &&& day_offset(t, week_start, current_day) <= u128::MAX
}

/// Whether every time that completing an entry of this kind moves fits.
pub open spec fn occurrence_fits(time: TimeSpecies, week_start: u128, current_day: u8) -> bool {
    match time {
        TimeSpecies::Start(s) => offset_fits(s, week_start, current_day),
        TimeSpecies::Range(s, e) => offset_fits(s, week_start, current_day) && offset_fits(
            e,
            week_start,
            current_day,
        ),
        TimeSpecies::AllDay(s) => offset_fits(s, week_start, current_day),
        TimeSpecies::DayRange(s, _) => offset_fits(s, week_start, current_day),
    }
}

/// The time of the one-off occurrence of a repeating entry on a given day. A
/// day range becomes a single all-day entry.
pub open spec fn occurrence_on_day(time: TimeSpecies, week_start: u128, current_day: u8) -> TimeSpecies {
    match time {
        TimeSpecies::Start(s) => TimeSpecies::Start(day_offset(s, week_start, current_day) as u128),
        TimeSpecies::Range(s, e) => TimeSpecies::Range(
            day_offset(s, week_start, current_day) as u128,
            day_offset(e, week_start, current_day) as u128,
        ),
        TimeSpecies::AllDay(s) => TimeSpecies::AllDay(day_offset(s, week_start, current_day) as u128),
        TimeSpecies::DayRange(s, _) => TimeSpecies::AllDay(
            day_offset(s, week_start, current_day) as u128,
        ),
    }
}

/// The one-off entry that completing a repeating entry adds under `id`.
pub open spec fn completed_occurrence(task: Task, id: usize, week_start: u128, current_day: u8) -> Task {
    Task {
        id,
        species: task.species,
        occurance_species: OccuranceSpecies::Once,
        time_species: occurrence_on_day(task.time_species, week_start, current_day),
        title: task.title,
        description: task.description,
        colour: task.colour,
    }
}

/// A one-off entry after completion: a task's done flag flips, an event stays.
pub open spec fn with_done_flipped(task: Task) -> Task {
    match task.species {
        Species::Task(done) => Task { species: Species::Task(!done), ..task },
        Species::Event => task,
    }
}

/// Whether completing task `id` can be carried out without overflow.
pub open spec fn can_complete(lib: Map<usize, Task>, id: usize, week_start: u128, current_day: u8) -> bool {
    lib.contains_key(id) && lib[id].occurance_species is Repeating ==> {
        &&& !lib.contains_key(usize::MAX)
        &&& occurrence_fits(lib[id].time_species, week_start, current_day)
    }
}

/// The library after completing task `id` on day `current_day` of the week
/// that starts at `week_start`: a repeating entry gets a one-off copy for that
/// day under the next task id; a one-off entry has its done flag flipped.
pub open spec fn completed_library(lib: Map<usize, Task>, id: usize, week_start: u128, current_day: u8) -> Map<usize, Task> {
    if !lib.contains_key(id) {
        lib
    } else if lib[id].occurance_species is Repeating {
        let new_id = next_task_id(lib);
        lib.insert(new_id, completed_occurrence(lib[id], new_id, week_start, current_day))
    } else {
        lib.insert(id, with_done_flipped(lib[id]))
    }
}

/// The library after task `id` was given new contents; it keeps its id.
pub open spec fn updated_library(
    lib: Map<usize, Task>,
    id: usize,
    species: Species,
    occurance_species: OccuranceSpecies,
    time_species: TimeSpecies,
    title: String,
    description: String,
    colour: u128,
) -> Map<usize, Task> {
    if lib.contains_key(id) {
        lib.insert(
            id,
            Task {
                id: lib[id].id,
                species,
                occurance_species,
                time_species,
                title,
                description,
                colour,
            },
        )
    } else {
        lib
    }
}

/// The answer of an operation on task `id`.
pub open spec fn task_answer(lib: Map<usize, Task>, id: usize) -> TaskError {
    if lib.contains_key(id) {
        TaskError::Success
    } else {
        TaskError::TaskNoExist
    }
}

/// Whether every task is stored under its own id.
pub open spec fn ids_match_keys(lib: Map<usize, Task>) -> bool {
    forall|k: usize| #[trigger] lib.contains_key(k) ==> lib[k].id == k
}


/// Whether `tasks` lists the library's entries that meet the window
/// `[start, end]`, each once, with `keys[i]` the key of `tasks[i]`.
pub open spec fn lists_window(
    lib: Map<usize, Task>,
    start: u128,
    end: u128,
    tasks: Seq<Task>,
    keys: Seq<usize>,
) -> bool {
    &&& keys.len() == tasks.len()
    &&& keys.no_duplicates()
    &&& forall|i: int|
        0 <= i < keys.len() ==> {
            &&& lib.contains_key(#[trigger] keys[i])
            &&& lib[keys[i]] == tasks[i]
            &&& lib[keys[i]].meets_window(start, end)
        }
    &&& forall|k: usize|
        #[trigger] lib.contains_key(k) && lib[k].meets_window(start, end) ==> keys.contains(k)
}

/// Whether the entries come in order of their first time.
pub open spec fn sorted_by_start(tasks: Seq<Task>) -> bool {
    forall|i: int, j: int|
        0 <= i < j < tasks.len() ==> #[trigger] tasks[i].time_species.starts_at()
            <= #[trigger] tasks[j].time_species.starts_at()
}

/// Whether `tasks` is the library's listing for the window `[start, end]`:
/// exactly the entries that meet it, in order of their first time. Entries
/// that start at the same time may come in any order.
pub open spec fn is_window_listing(lib: Map<usize, Task>, start: u128, end: u128, tasks: Seq<Task>) -> bool {
    &&& sorted_by_start(tasks)
    &&& exists|keys: Seq<usize>| lists_window(lib, start, end, tasks, keys)
}

/// Whether `day_offset` and the product computed on the way fit, as
/// `offset_fits` says.
fn offset_fits_check(t: u128, week_start: u128, current_day: u8) -> (fits: bool)
    ensures
        fits == offset_fits(t, week_start, current_day),
{
    let per_day = match t.checked_mul(86400) {
        Some(p) => p,
        None => return false,
    };
    let d: u128 = current_day as u128;
    assert(per_day * d == t * 86400 * current_day);
    let product = match per_day.checked_mul(d) {
        Some(p) => p,
        None => return false,
    };
    product.checked_add(week_start).is_some()
}

/// A time moved to a day, as `day_offset` says.
fn shift_to_day(t: u128, week_start: u128, current_day: u8) -> (moved: u128)
    requires
        offset_fits(t, week_start, current_day),
    ensures
        moved == day_offset(t, week_start, current_day),
{
    let d: u128 = current_day as u128;
    let per_day: u128 = t * 86400;
    assert(per_day * d == t * 86400 * current_day);
    let product: u128 = per_day * d;
    product + week_start
}

impl User {
    /// Adds a task under the next task id.
    pub fn add_task(
        &mut self,
        species: Species,
        occurance_species: OccuranceSpecies,
        time_species: TimeSpecies,
        title: String,
        description: String,
        colour: u128,
    )
        requires
            !old(self).library@.contains_key(usize::MAX),
        ensures
            final(self).id == old(self).id,
            final(self).username == old(self).username,
            final(self).library@ == with_task_added(
                old(self).library@,
                species,
                occurance_species,
                time_species,
                title,
                description,
                colour,
            ),
            ids_match_keys(old(self).library@) ==> ids_match_keys(final(self).library@),
    {
        let id = self.generate_task_id();
        self.library.insert(
            id,
            Task { id, species, occurance_species, time_species, title, description, colour },
        );
    }

    /// Completes task `id` on day `current_day` of the week that starts at
    /// unix time `week_start`.
    pub fn complete_task(&mut self, id: usize, week_start: u128, current_day: u8) -> (answer: TaskError)
        requires
            can_complete(old(self).library@, id, week_start, current_day),
        ensures
            answer == task_answer(old(self).library@, id),
            final(self).id == old(self).id,
            final(self).username == old(self).username,
            final(self).library@ == completed_library(old(self).library@, id, week_start, current_day),
            ids_match_keys(old(self).library@) ==> ids_match_keys(final(self).library@),
    {
        let found = self.library.get(&id);
        if found.is_none() {
            return TaskError::TaskNoExist;
        }
        let task = found.unwrap().clone();
        match task.occurance_species {
            OccuranceSpecies::Repeating(_) => {
                let task_id = self.generate_task_id();
                let time_species = match task.time_species {
                    TimeSpecies::Start(s) => TimeSpecies::Start(shift_to_day(s, week_start, current_day)),
                    TimeSpecies::Range(s, e) => TimeSpecies::Range(
                        shift_to_day(s, week_start, current_day),
                        shift_to_day(e, week_start, current_day),
                    ),
                    TimeSpecies::AllDay(s) => TimeSpecies::AllDay(shift_to_day(s, week_start, current_day)),
                    TimeSpecies::DayRange(s, _) => TimeSpecies::AllDay(
                        shift_to_day(s, week_start, current_day),
                    ),
                };
                self.library.insert(
                    task_id,
                    Task {
                        id: task_id,
                        species: task.species,
                        occurance_species: OccuranceSpecies::Once,
                        time_species,
                        title: task.title,
                        description: task.description,
                        colour: task.colour,
                    },
                );
                return TaskError::Success;
            },
            _ => {},
        }
        match task.species {
            Species::Task(c) => {
                let mut flipped = task;
                flipped.species = Species::Task(!c);
                self.library.insert(id, flipped);
                return TaskError::Success;
            },
            _ => {},
        }
        proof {
            assert(self.library@ == old(self).library@.insert(id, old(self).library@[id]));
        }
        TaskError::Success
    }

    /// Whether completing task `id` can be carried out without overflow, as
    /// `can_complete` says.
    pub fn completion_fits(&self, id: usize, week_start: u128, current_day: u8) -> (fits: bool)
        ensures
            fits == can_complete(self.library@, id, week_start, current_day),
    {
        match self.library.get(&id) {
            None => true,
            Some(task) => match task.occurance_species {
                OccuranceSpecies::Once => true,
                OccuranceSpecies::Repeating(_) => {
                    if self.library.contains_key(&usize::MAX) {
                        false
                    } else {
                        match task.time_species {
                            TimeSpecies::Start(s) => offset_fits_check(s, week_start, current_day),
                            TimeSpecies::Range(s, e) => offset_fits_check(s, week_start, current_day)
                                && offset_fits_check(e, week_start, current_day),
                            TimeSpecies::AllDay(s) => offset_fits_check(s, week_start, current_day),
                            TimeSpecies::DayRange(s, _) => offset_fits_check(s, week_start, current_day),
                        }
                    }
                },
            },
        }
    }

    /// Removes task `id`.
    pub fn delete_task(&mut self, id: usize) -> (answer: TaskError)
        ensures
            answer == task_answer(old(self).library@, id),
            final(self).id == old(self).id,
            final(self).username == old(self).username,
            final(self).library@ == old(self).library@.remove(id),
            ids_match_keys(old(self).library@) ==> ids_match_keys(final(self).library@),
    {
        let result = self.library.get(&id);
        if result.is_none() {
            assert(self.library@ == old(self).library@.remove(id));
            return TaskError::TaskNoExist;
        }
        self.library.remove(&id);
        TaskError::Success
    }

    /// Gives task `id` new contents; it keeps its id.
    pub fn update_task(
        &mut self,
        id: usize,
        species: Species,
        occurance_species: OccuranceSpecies,
        time_species: TimeSpecies,
        title: String,
        description: String,
        colour: u128,
    ) -> (answer: TaskError)
        ensures
            answer == task_answer(old(self).library@, id),
            final(self).id == old(self).id,
            final(self).username == old(self).username,
            final(self).library@ == updated_library(
                old(self).library@,
                id,
                species,
                occurance_species,
                time_species,
                title,
                description,
                colour,
            ),
            ids_match_keys(old(self).library@) ==> ids_match_keys(final(self).library@),
    {
        let result = self.library.get(&id);
        if result.is_none() {
            return TaskError::TaskNoExist;
        }
        let kept_id = result.unwrap().id;
        self.library.insert(
            id,
            Task { id: kept_id, species, occurance_species, time_species, title, description, colour },
        );
        TaskError::Success
    }


    /// The entries that meet the window `[start, end]`, in order of their
    /// first time.
    pub fn fetch_library(&self, start: u128, end: u128) -> (tasks: Vec<Task>)
        ensures
            is_window_listing(self.library@, start, end, tasks@),
    {
        let ghost lib = self.library@;
        let ks = key_list(&self.library);
        let mut r: Vec<Task> = Vec::new();
        let ghost mut gk: Seq<usize> = Seq::empty();
        let mut i: usize = 0;
        while i < ks.len()
            invariant
                lib == self.library@,
                i <= ks@.len(),
                ks@.no_duplicates(),
                forall|k: usize| #[trigger] ks@.contains(k) <==> lib.contains_key(k),
                gk.len() == r@.len(),
                gk.no_duplicates(),
                forall|m: int|
                    0 <= m < gk.len() ==> {
                        &&& lib.contains_key(#[trigger] gk[m])
                        &&& lib[gk[m]] == r@[m]
                        &&& lib[gk[m]].meets_window(start, end)
                    },
                forall|m: int| 0 <= m < gk.len() ==> exists|j: int| 0 <= j < i && ks@[j] == #[trigger] gk[m],
                forall|j: int|
                    0 <= j < i && lib[#[trigger] ks@[j]].meets_window(start, end) ==> gk.contains(ks@[j]),
                sorted_by_start(r@),
            decreases ks@.len() - i,
        {
            let k = ks[i];
            assert(ks@.contains(k));
            let t = self.library.get(&k).unwrap();
            if t.in_range(start, end) {
                let key_start = t.start_time();
                let mut p: usize = 0;
                while p < r.len() && r[p].start_time() <= key_start
                    invariant
                        p <= r@.len(),
                        forall|q: int| 0 <= q < p ==> #[trigger] r@[q].time_species.starts_at() <= key_start,
                    decreases r@.len() - p,
                {
                    p = p + 1;
                }
                let ghost old_r = r@;
                let ghost old_gk = gk;
                r.insert(p, t.clone());
                proof {
                    gk = gk.insert(p as int, k);
                    assert forall|q: int| p <= q < old_r.len() implies key_start
                        < #[trigger] old_r[q].time_species.starts_at() by {
                        assert(old_r[p as int].time_species.starts_at() <= old_r[q].time_species.starts_at());
                    }
                    assert(!old_gk.contains(k)) by {
                        if old_gk.contains(k) {
                            let m = choose|m: int| 0 <= m < old_gk.len() && old_gk[m] == k;
                            let j = choose|j: int| 0 <= j < i && ks@[j] == old_gk[m];
                        }
                    }
                    assert forall|m: int| 0 <= m < gk.len() implies exists|j: int|
                        0 <= j < i + 1 && ks@[j] == #[trigger] gk[m] by {
                        if m < p {
                            assert(gk[m] == old_gk[m]);
                        } else if m > p {
                            assert(gk[m] == old_gk[m - 1]);
                        } else {
                            assert(ks@[i as int] == gk[m]);
                        }
                    }
                    assert forall|j: int|
                        0 <= j < i + 1 && lib[#[trigger] ks@[j]].meets_window(start, end) implies gk.contains(ks@[j]) by {
                        if j < i {
                            let m = choose|m: int| 0 <= m < old_gk.len() && old_gk[m] == ks@[j];
                            if m < p {
                                assert(gk[m] == ks@[j]);
                            } else {
                                assert(gk[m + 1] == ks@[j]);
                            }
                        } else {
                            assert(gk[p as int] == ks@[j]);
                        }
                    }
                }
            }
            i = i + 1;
        }
        proof {
            assert forall|k: usize| #[trigger] lib.contains_key(k) && lib[k].meets_window(start, end) implies gk.contains(k) by {
                assert(ks@.contains(k));
                let j = choose|j: int| 0 <= j < ks@.len() && ks@[j] == k;
            }
            assert(lists_window(lib, start, end, r@, gk));
        }
        r
    }

    /// The id for a new task: one past the greatest id in the library, or 0
    /// when the library is empty.
    pub fn generate_task_id(&self) -> (id: usize)
        requires
            !self.library@.contains_key(usize::MAX),
        ensures
            id == next_task_id(self.library@),
            !self.library@.contains_key(id),
            forall|k: usize| #[trigger] self.library@.contains_key(k) ==> k < id,
            (forall|k: usize| !#[trigger] self.library@.contains_key(k)) ==> id == 0,
    {
        let ks = key_list(&self.library);
        if ks.len() == 0 {
            proof {
                assert forall|k: usize| !self.library@.contains_key(k) by {
                    if self.library@.contains_key(k) {
                        assert(ks@.contains(k));
                    }
                }
            }
            return 0;
        }
        let mut best: usize = ks[0];
        assert(ks@.contains(best));
        let mut i: usize = 1;
        while i < ks.len()
            invariant
                1 <= i <= ks@.len(),
                forall|k: usize| #[trigger] ks@.contains(k) <==> self.library@.contains_key(k),
                self.library@.contains_key(best),
                forall|j: int| 0 <= j < i ==> #[trigger] ks@[j] <= best,
            decreases ks@.len() - i,
        {
            if ks[i] > best {
                best = ks[i];
                assert(ks@.contains(best));
            }
            i = i + 1;
        }
        proof {
            assert forall|k: usize| #[trigger] self.library@.contains_key(k) implies k <= best by {
                assert(ks@.contains(k));
                let j = choose|j: int| 0 <= j < ks@.len() && ks@[j] == k;
                assert(ks@[j] <= best);
            }
            assert(is_greatest_id(self.library@, best));
            let chosen = choose|k: usize| is_greatest_id(self.library@, k);
            assert(chosen <= best && best <= chosen);
        }
        best + 1
    }
}

/// The outcome of logging in with `password`, given what the account service
/// answered for the user name: its user id and password, or nothing.
pub open spec fn login_outcome(password: Seq<char>, record: Option<(u128, String)>) -> LoginResult {
    match record {
        Some((user_id, stored)) => if stored@ == password {
            LoginResult::Success(user_id)
        } else {
            LoginResult::PasswordWrong
        },
        None => LoginResult::UsernameNoExist,
    }
}

/// Whether logging in creates a new user: it succeeds and no stored user has
/// the user name yet.
pub open spec fn login_creates_user(
    users: Map<u128, User>,
    username: Seq<char>,
    password: Seq<char>,
    record: Option<(u128, String)>,
) -> bool {
    login_outcome(password, record) is Success && !has_username(users, username)
}

/// A request body read one byte per character, each byte the character with
/// that code.
pub open spec fn latin1_text(body: Seq<u8>) -> Seq<char> {
    body.map_values(|b: u8| b as char)
}

/// The object that `serde_json::from_str::<HashMap<String, String>>` reads
/// from `text`, keys and values taken as character sequences; `None` where it
/// gives an error.
pub uninterp spec fn json_string_object(text: Seq<char>) -> Option<Map<Seq<char>, Seq<char>>>;

/// Whether `entries` holds the keys and values of `object`, each key once.
pub open spec fn lists_entries(entries: Seq<(String, String)>, object: Map<Seq<char>, Seq<char>>) -> bool {
    &&& forall|i: int|
        0 <= i < entries.len() ==> object.contains_key(#[trigger] entries[i].0@) && object[entries[i].0@]
            == entries[i].1@
    &&& forall|k: Seq<char>| #[trigger] object.contains_key(k) ==> exists|i: int| 0 <= i < entries.len() && #[trigger] entries[i].0@ == k
    &&& forall|i: int, j: int|
        0 <= i < j < entries.len() ==> #[trigger] entries[i].0@ != #[trigger] entries[j].0@
}

/// Whether an object holds both credentials.
pub open spec fn holds_credentials(object: Map<Seq<char>, Seq<char>>) -> bool {
    object.contains_key("username"@) && object.contains_key("password"@)
}

/// Whether credentials can be read from a request body: an empty body is
/// refused as such; any other must be a JSON object of strings that holds both.
pub open spec fn body_credentials_readable(body: Seq<u8>) -> bool {
    body.len() > 0 ==> (json_string_object(latin1_text(body)) matches Some(object) && holds_credentials(
        object,
    ))
}

/// What reading credentials from a readable request body gives: `Empty` for
/// an empty body, otherwise `Ok` with the "username" and "password" values of
/// its JSON object.
pub open spec fn body_credentials_match(body: Seq<u8>, read: Result<LoginInformation, LoginInfoParseError>) -> bool {
    &&& body.len() == 0 <==> read == Err::<LoginInformation, LoginInfoParseError>(LoginInfoParseError::Empty)
    &&& body.len() > 0 ==> read is Ok
    &&& read matches Ok(info) ==> {
        let object = json_string_object(latin1_text(body))->Some_0;
        &&& info.username@ == object["username"@]
        &&& info.password@ == object["password"@]
    }
}

/// Reads `text` as a JSON object whose values are all strings:
/// `serde_json::from_str::<HashMap<String, String>>`. Its entries come out in
/// the order in which the map walks them, which nothing here states.
#[verifier::external_body]
fn parse_string_object(text: &str) -> (entries: Option<Vec<(String, String)>>)
    ensures
        entries is Some <==> json_string_object(text@) is Some,
        entries matches Some(v) ==> lists_entries(v@, json_string_object(text@)->Some_0),
{
    serde_json::from_str::<HashMap<String, String>>(text).ok().map(|m| m.into_iter().collect())
}

/// The value stored under `key`, if there is one.
fn entry_value(entries: &Vec<(String, String)>, key: &str) -> (value: Option<String>)
    ensures
        value is None <==> forall|i: int| 0 <= i < entries@.len() ==> #[trigger] entries@[i].0@ != key@,
        value matches Some(v) ==> exists|i: int|
            0 <= i < entries@.len() && #[trigger] entries@[i].0@ == key@ && entries@[i].1 == v,
{
    let owned_key = key.to_owned();
    let mut i: usize = 0;
    while i < entries.len()
        invariant
            i <= entries@.len(),
            owned_key@ == key@,
            forall|j: int| 0 <= j < i ==> #[trigger] entries@[j].0@ != key@,
        decreases entries@.len() - i,
    {
        if entries[i].0 == owned_key {
            return Some(entries[i].1.clone());
        }
        i = i + 1;
    }
    None
}

/// Appends a character to a string: `String::push`.
#[verifier::external_body]
fn push_char(text: &mut String, c: char)
    ensures
        final(text)@ == old(text)@.push(c),
{
    text.push(c);
}

impl LoginInformation {
    /// Logs in with these credentials. `record` is what the account service
    /// holds for the user name: the user id and the password, or nothing.
    /// A user who logs in for the first time gets an empty library.
    pub fn login(&self, account_handler: &mut Database, record: Option<(u128, String)>) -> (outcome: LoginResult)
        ensures
            outcome == login_outcome(self.password@, record),
            outcome is Success ==> has_username(final(account_handler).users@, self.username@),
            login_creates_user(old(account_handler).users@, self.username@, self.password@, record) ==> {
                let user_id = outcome->Success_0;
                let created = final(account_handler).users@[user_id];
                &&& final(account_handler).users@ == old(account_handler).users@.insert(user_id, created)
                &&& created.id == user_id
                &&& created.username@ == self.username@
                &&& created.library@ == Map::<usize, Task>::empty()
            },
            !login_creates_user(old(account_handler).users@, self.username@, self.password@, record)
                ==> final(account_handler).users@ == old(account_handler).users@,
    {
        match record {
            Some((user_id, password)) => {
                if !(password == self.password) {
                    return LoginResult::PasswordWrong;
                }
                let chronos_lookup = account_handler.fetch_user_id(&self.username);
                if chronos_lookup.is_none() {
                    account_handler.users.insert(
                        user_id,
                        User { id: user_id, username: self.username.clone(), library: HashMap::new() },
                    );
                    assert(account_handler.users@.contains_key(user_id));
                }
                return LoginResult::Success(user_id);
            },
            None => LoginResult::UsernameNoExist,
        }
    }

    /// The credentials in a request body: the "username" and "password"
    /// values of the JSON object that the body holds, its bytes read one
    /// character each. An empty body gives `Empty`.
    pub fn from_body(body: &[u8]) -> (read: Result<LoginInformation, LoginInfoParseError>)
        requires
            body_credentials_readable(body@),
        ensures
            body_credentials_match(body@, read),
    {
        let text = match Self::body_text(body) {
            Ok(t) => t,
            Err(e) => return Err(e),
        };
        let entries = parse_string_object(text.as_str()).unwrap();
        let ghost object = json_string_object(text@)->Some_0;
        let username = entry_value(&entries, "username");
        let password = entry_value(&entries, "password");
        proof {
            // Both keys are listed, so neither lookup comes back empty.
            let name_at = choose|i: int| 0 <= i < entries@.len() && #[trigger] entries@[i].0@ == "username"@;
            let password_at = choose|i: int|
                0 <= i < entries@.len() && #[trigger] entries@[i].0@ == "password"@;
        }
        Ok(LoginInformation { username: username.unwrap(), password: password.unwrap() })
    }

    /// `from_body` where the body holds readable credentials; `None` where it
    /// does not, which `from_body` leaves out.
    pub fn checked_from_body(body: &[u8]) -> (read: Option<Result<LoginInformation, LoginInfoParseError>>)
        ensures
            read is None <==> !body_credentials_readable(body@),
            read matches Some(r) ==> body_credentials_match(body@, r),
    {
        if body.len() == 0 {
            return Some(Self::from_body(body));
        }
        let text = match Self::body_text(body) {
            Ok(t) => t,
            Err(_) => return None,
        };
        let entries = match parse_string_object(text.as_str()) {
            Some(e) => e,
            None => return None,
        };
        if entry_value(&entries, "username").is_none() || entry_value(&entries, "password").is_none() {
            proof {
                let object = json_string_object(text@)->Some_0;
                if holds_credentials(object) {
                    let name_at = choose|i: int|
                        0 <= i < entries@.len() && #[trigger] entries@[i].0@ == "username"@;
                    let password_at = choose|i: int|
                        0 <= i < entries@.len() && #[trigger] entries@[i].0@ == "password"@;
                }
            }
            return None;
        }
        proof {
            let object = json_string_object(text@)->Some_0;
            assert(holds_credentials(object));
        }
        Some(Self::from_body(body))
    }

    /// The text of a request body that should hold the credentials: each byte
    /// read as the character with that code. An empty body gives `Empty`.
    pub fn body_text(body: &[u8]) -> (text: Result<String, LoginInfoParseError>)
        ensures
            body@.len() == 0 <==> text == Err::<String, LoginInfoParseError>(LoginInfoParseError::Empty),
            body@.len() > 0 ==> text is Ok,
            text matches Ok(t) ==> t@ == latin1_text(body@),
    {
        if body.len() == 0 {
            return Err(LoginInfoParseError::Empty);
        }
        let mut text = String::new();
        let mut i: usize = 0;
        while i < body.len()
            invariant
                i <= body@.len(),
                text@ == body@.take(i as int).map_values(|b: u8| b as char),
            decreases body@.len() - i,
        {
            push_char(&mut text, body[i] as char);
            proof {
                assert(body@.take(i + 1) == body@.take(i as int).push(body@[i as int]));
            }
            i = i + 1;
        }
        assert(body@.take(body@.len() as int) == body@);
        Ok(text)
    }
}

} // verus!
