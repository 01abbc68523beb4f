//! Properties that hold across the operations on a task library and on the
//! store of users.

use crate::account_handler::{has_username, only_library_changed};
use crate::task::{
    occurance_species_named, species_named, time_species_named, requested_occurance, requested_species, requested_time, OccuranceSpecies, Species, Task,
    TimeSpecies,
};
use crate::user::{
    body_credentials_match, completed_library, ids_match_keys, is_greatest_id, is_window_listing,
    json_string_object, latin1_text, task_error_text, lists_window, login_creates_user, login_outcome,
    next_task_id, task_answer, updated_library, with_task_added, LoginInfoParseError,
    LoginInformation, LoginResult, TaskError, User,
};
use vstd::prelude::*;

verus! {

/// A finite library with at least one task has a greatest task id.
proof fn greatest_id_exists(lib: Map<usize, Task>)
    requires
        lib.dom().finite(),
        exists|k: usize| #[trigger] lib.contains_key(k),
    ensures
        exists|k: usize| is_greatest_id(lib, k),
    decreases lib.dom().len(),
{
    let k0 = choose|k: usize| #[trigger] lib.contains_key(k);
    let rest = lib.remove(k0);
    assert(rest.dom() == lib.dom().remove(k0));
    if exists|k: usize| #[trigger] rest.contains_key(k) {
        greatest_id_exists(rest);
        let g = choose|k: usize| is_greatest_id(rest, k);
        if g >= k0 {
            assert(is_greatest_id(lib, g));
        } else {
            assert(is_greatest_id(lib, k0));
        }
    } else {
        assert(is_greatest_id(lib, k0));
    }
}

/// The id that a new task gets is greater than every id in the library, so
/// adding a task never replaces one.
pub proof fn next_id_exceeds_all(lib: Map<usize, Task>)
    requires
        lib.dom().finite(),
        !lib.contains_key(usize::MAX),
    ensures
        forall|k: usize| #[trigger] lib.contains_key(k) ==> k < next_task_id(lib),
        !lib.contains_key(next_task_id(lib)),
        (exists|k: usize| #[trigger] lib.contains_key(k)) ==> next_task_id(lib) >= 1 && lib.contains_key(
            (next_task_id(lib) - 1) as usize,
        ),
        (forall|k: usize| !#[trigger] lib.contains_key(k)) ==> next_task_id(lib) == 0,
{
    if exists|k: usize| #[trigger] lib.contains_key(k) {
        greatest_id_exists(lib);
        let g = choose|k: usize| is_greatest_id(lib, k);
        assert(g < usize::MAX);
    }
}

/// Adding a task keeps every task that was there and adds exactly one, under
/// the next id, holding the contents passed in.
pub proof fn adding_keeps_existing_tasks(
    lib: Map<usize, Task>,
    species: Species,
    occurance_species: OccuranceSpecies,
    time_species: TimeSpecies,
    title: String,
    description: String,
    colour: u128,
)
    requires
        lib.dom().finite(),
        !lib.contains_key(usize::MAX),
    ensures
        ({
            let added = with_task_added(lib, species, occurance_species, time_species, title, description, colour);
            &&& added.dom() == lib.dom().insert(next_task_id(lib))
            &&& added.len() == lib.len() + 1
            &&& forall|k: usize| #[trigger] lib.contains_key(k) ==> added[k] == lib[k]
            &&& added[next_task_id(lib)].id == next_task_id(lib)
            &&& added[next_task_id(lib)].species == species
            &&& added[next_task_id(lib)].occurance_species == occurance_species
            &&& added[next_task_id(lib)].time_species == time_species
            &&& added[next_task_id(lib)].title == title
            &&& added[next_task_id(lib)].description == description
            &&& added[next_task_id(lib)].colour == colour
        }),
{
    next_id_exceeds_all(lib);
    let added = with_task_added(lib, species, occurance_species, time_species, title, description, colour);
    assert(added.dom() == lib.dom().insert(next_task_id(lib)));
}

/// Deleting the task that was just added gives back the library as it was.
pub proof fn delete_undoes_add(
    lib: Map<usize, Task>,
    species: Species,
    occurance_species: OccuranceSpecies,
    time_species: TimeSpecies,
    title: String,
    description: String,
    colour: u128,
)
    requires
        lib.dom().finite(),
        !lib.contains_key(usize::MAX),
    ensures
        with_task_added(lib, species, occurance_species, time_species, title, description, colour).remove(
            next_task_id(lib),
        ) == lib,
{
    next_id_exceeds_all(lib);
    assert(with_task_added(lib, species, occurance_species, time_species, title, description, colour).remove(
        next_task_id(lib),
    ) =~= lib);
}

/// Deleting a task a second time finds nothing to delete.
pub proof fn delete_twice_finds_nothing(lib: Map<usize, Task>, id: usize)
    ensures
        task_answer(lib.remove(id), id) == TaskError::TaskNoExist,
        lib.remove(id).remove(id) == lib.remove(id),
{
    assert(lib.remove(id).remove(id) =~= lib.remove(id));
}

/// Completing a one-off entry twice leaves the library as it was: the done
/// flag of a task flips back, an event never changes.
pub proof fn completing_one_off_twice_restores(
    lib: Map<usize, Task>,
    id: usize,
    week_start: u128,
    current_day: u8,
)
    requires
        lib.contains_key(id),
        lib[id].occurance_species == OccuranceSpecies::Once,
    ensures
        completed_library(completed_library(lib, id, week_start, current_day), id, week_start, current_day)
            == lib,
{
    let once = completed_library(lib, id, week_start, current_day);
    let twice = completed_library(once, id, week_start, current_day);
    assert(twice =~= lib);
}

/// Completing a repeating entry keeps every entry, the repeating one
/// included, and adds one one-off entry under a new id: a copy of the entry
/// with its times moved to the given day (`t * 86400 * current_day +
/// week_start`), where a day range becomes an all-day entry.
pub proof fn completing_repeating_adds_one_off(
    lib: Map<usize, Task>,
    id: usize,
    week_start: u128,
    current_day: u8,
)
    requires
        lib.dom().finite(),
        !lib.contains_key(usize::MAX),
        lib.contains_key(id),
        lib[id].occurance_species is Repeating,
    ensures
        ({
            let done = completed_library(lib, id, week_start, current_day);
            let new_id = next_task_id(lib);
            &&& !lib.contains_key(new_id)
            &&& done.dom() == lib.dom().insert(new_id)
            &&& forall|k: usize| #[trigger] lib.contains_key(k) ==> done[k] == lib[k]
            &&& done[new_id].occurance_species == OccuranceSpecies::Once
            &&& done[new_id].id == new_id
            &&& done[new_id].species == lib[id].species
            &&& done[new_id].title == lib[id].title
            &&& done[new_id].description == lib[id].description
            &&& done[new_id].colour == lib[id].colour
            &&& lib[id].time_species matches TimeSpecies::Start(s) ==> done[new_id].time_species
                == TimeSpecies::Start((s * 86400 * current_day + week_start) as u128)
            &&& lib[id].time_species matches TimeSpecies::Range(s, e) ==> done[new_id].time_species
                == TimeSpecies::Range(
                (s * 86400 * current_day + week_start) as u128,
                (e * 86400 * current_day + week_start) as u128,
            )
            &&& lib[id].time_species matches TimeSpecies::AllDay(s) ==> done[new_id].time_species
                == TimeSpecies::AllDay((s * 86400 * current_day + week_start) as u128)
            &&& lib[id].time_species matches TimeSpecies::DayRange(s, _) ==> done[new_id].time_species
                == TimeSpecies::AllDay((s * 86400 * current_day + week_start) as u128)
        }),
{
    next_id_exceeds_all(lib);
    let done = completed_library(lib, id, week_start, current_day);
    assert(done.dom() == lib.dom().insert(next_task_id(lib)));
}

/// Updating a task gives it exactly the contents passed in, whatever it held
/// before, keeps its id and every other task, and keeps every task under its
/// own id where that held before. Updating a missing task changes nothing.
pub proof fn update_keeps_ids(
    lib: Map<usize, Task>,
    id: usize,
    species: Species,
    occurance_species: OccuranceSpecies,
    time_species: TimeSpecies,
    title: String,
    description: String,
    colour: u128,
)
    ensures
        ({
            let updated = updated_library(lib, id, species, occurance_species, time_species, title, description, colour);
            &&& updated.dom() == lib.dom()
            &&& ids_match_keys(lib) ==> ids_match_keys(updated)
            &&& lib.contains_key(id) ==> {
                &&& updated[id].id == lib[id].id
                &&& updated[id].species == species
                &&& updated[id].occurance_species == occurance_species
                &&& updated[id].time_species == time_species
                &&& updated[id].title == title
                &&& updated[id].description == description
                &&& updated[id].colour == colour
                &&& forall|k: usize| #[trigger] lib.contains_key(k) && k != id ==> updated[k] == lib[k]
            }
            &&& !lib.contains_key(id) ==> updated == lib
        }),
{
    let updated = updated_library(lib, id, species, occurance_species, time_species, title, description, colour);
    assert(updated.dom() =~= lib.dom());
}

/// A task that was just added shows in every listing of a window that it
/// meets.
pub proof fn added_task_is_listed(
    lib: Map<usize, Task>,
    species: Species,
    occurance_species: OccuranceSpecies,
    time_species: TimeSpecies,
    title: String,
    description: String,
    colour: u128,
    start: u128,
    end: u128,
    tasks: Seq<Task>,
)
    requires
        is_window_listing(
            with_task_added(lib, species, occurance_species, time_species, title, description, colour),
            start,
            end,
            tasks,
        ),
        (Task {
            id: next_task_id(lib),
            species,
            occurance_species,
            time_species,
            title,
            description,
            colour,
        }).meets_window(start, end),
    ensures
        tasks.contains(
            Task {
                id: next_task_id(lib),
                species,
                occurance_species,
                time_species,
                title,
                description,
                colour,
            },
        ),
{
    let added = with_task_added(lib, species, occurance_species, time_species, title, description, colour);
    let new_id = next_task_id(lib);
    let keys = choose|keys: Seq<usize>| lists_window(added, start, end, tasks, keys);
    assert(added.contains_key(new_id));
    assert(keys.contains(new_id));
    let i = choose|i: int| 0 <= i < keys.len() && keys[i] == new_id;
    assert(tasks[i] == added[new_id]);
}

/// A deleted task shows in no listing, where every task was stored under its
/// own id.
pub proof fn deleted_task_is_not_listed(
    lib: Map<usize, Task>,
    id: usize,
    start: u128,
    end: u128,
    tasks: Seq<Task>,
)
    requires
        ids_match_keys(lib),
        is_window_listing(lib.remove(id), start, end, tasks),
    ensures
        forall|i: int| 0 <= i < tasks.len() ==> #[trigger] tasks[i].id != id,
{
    let keys = choose|keys: Seq<usize>| lists_window(lib.remove(id), start, end, tasks, keys);
    assert forall|i: int| 0 <= i < tasks.len() implies #[trigger] tasks[i].id != id by {
        assert(lib.remove(id).contains_key(keys[i]));
        assert(lib.contains_key(keys[i]));
    }
}

/// The tasks stored under `keys`, in that order.
pub open spec fn tasks_under(lib: Map<usize, Task>, keys: Seq<usize>) -> Seq<Task> {
    keys.map_values(|k: usize| lib[k])
}

/// Keys listed once each, all of them among other keys listed once each, name
/// a multiset of tasks contained in the other keys' multiset of tasks.
proof fn fewer_keys_fewer_tasks(lib: Map<usize, Task>, k1: Seq<usize>, k2: Seq<usize>)
    requires
        k1.no_duplicates(),
        k2.no_duplicates(),
        forall|i: int| 0 <= i < k1.len() ==> k2.contains(#[trigger] k1[i]),
    ensures
        tasks_under(lib, k1).to_multiset().subset_of(tasks_under(lib, k2).to_multiset()),
    decreases k1.len(),
{
    broadcast use vstd::multiset::group_multiset_axioms;
    broadcast use vstd::seq_lib::group_to_multiset_ensures;

    if k1.len() == 0 {
        assert(tasks_under(lib, k1) =~= Seq::<Task>::empty());
        assert(tasks_under(lib, k1).to_multiset() =~= vstd::multiset::Multiset::<Task>::empty());
    } else {
        let x = k1.last();
        let k1p = k1.drop_last();
        assert(k2.contains(k1[k1.len() - 1]));
        let j = choose|j: int| 0 <= j < k2.len() && k2[j] == x;
        let k2p = k2.remove(j);
        assert forall|i: int| 0 <= i < k1p.len() implies k2p.contains(#[trigger] k1p[i]) by {
            assert(k1[i] == k1p[i]);
            assert(k2.contains(k1[i]));
            let m = choose|m: int| 0 <= m < k2.len() && k2[m] == k1p[i];
            assert(m != j);
            if m < j {
                assert(k2p[m] == k1p[i]);
            } else {
                assert(k2p[m - 1] == k1p[i]);
            }
        }
        assert(k2p.no_duplicates()) by {
            assert forall|a: int, b: int| 0 <= a < k2p.len() && 0 <= b < k2p.len() && a != b implies k2p[a]
                != k2p[b] by {
                let ia = if a < j { a } else { a + 1 };
                let ib = if b < j { b } else { b + 1 };
                assert(k2p[a] == k2[ia] && k2p[b] == k2[ib]);
            }
        }
        fewer_keys_fewer_tasks(lib, k1p, k2p);
        assert(tasks_under(lib, k1) =~= tasks_under(lib, k1p).push(lib[x]));
        assert(tasks_under(lib, k2p) =~= tasks_under(lib, k2).remove(j));
        let m1p = tasks_under(lib, k1p).to_multiset();
        let m2 = tasks_under(lib, k2).to_multiset();
        let m2p = tasks_under(lib, k2p).to_multiset();
        assert(m2p == m2.remove(lib[x]));
        assert(tasks_under(lib, k1).to_multiset() == m1p.insert(lib[x]));
        assert(m2.count(lib[x]) > 0) by {
            assert(tasks_under(lib, k2)[j] == lib[x]);
            assert(tasks_under(lib, k2).contains(lib[x]));
        }
    }
}

/// Widening the window of a listing never drops a task: every task listed
/// for `[start, end]` is listed, as often, for a window that contains it.
pub proof fn widening_window_drops_no_task(
    lib: Map<usize, Task>,
    start: u128,
    end: u128,
    tasks: Seq<Task>,
    wide_start: u128,
    wide_end: u128,
    wide_tasks: Seq<Task>,
)
    requires
        wide_start <= start,
        end <= wide_end,
        is_window_listing(lib, start, end, tasks),
        is_window_listing(lib, wide_start, wide_end, wide_tasks),
    ensures
        tasks.to_multiset().subset_of(wide_tasks.to_multiset()),
{
    let keys = choose|keys: Seq<usize>| lists_window(lib, start, end, tasks, keys);
    let wide_keys = choose|keys: Seq<usize>| lists_window(lib, wide_start, wide_end, wide_tasks, keys);
    assert forall|i: int| 0 <= i < keys.len() implies wide_keys.contains(#[trigger] keys[i]) by {
        assert(lib.contains_key(keys[i]));
        assert(lib[keys[i]].meets_window(wide_start, wide_end));
    }
    fewer_keys_fewer_tasks(lib, keys, wide_keys);
    assert(tasks =~= tasks_under(lib, keys));
    assert(wide_tasks =~= tasks_under(lib, wide_keys));
}

/// The first and last time of each kind of entry: a single time is both its
/// start and has no end; a range starts at its first number and ends at its
/// second.
pub proof fn entry_times(time: TimeSpecies)
    ensures
        time matches TimeSpecies::Start(s) ==> time.starts_at() == s && time.ends_at() == None::<u128>,
        time matches TimeSpecies::AllDay(s) ==> time.starts_at() == s && time.ends_at() == None::<u128>,
        time matches TimeSpecies::Range(s, e) ==> time.starts_at() == s && time.ends_at() == Some(e),
        time matches TimeSpecies::DayRange(s, e) ==> time.starts_at() == s && time.ends_at() == Some(e),
{
}

/// Which entries meet the window `[start, end]`: an entry with a single time
/// exactly when that time lies in the window; an entry with a first and a
/// last time exactly when the two intervals overlap, however long before
/// the window it began.
pub proof fn window_rule(task: Task, start: u128, end: u128)
    ensures
        task.time_species matches TimeSpecies::Start(s) ==> (task.meets_window(start, end) <==> start <= s
            && s <= end),
        task.time_species matches TimeSpecies::AllDay(s) ==> (task.meets_window(start, end) <==> start <= s
            && s <= end),
        task.time_species matches TimeSpecies::Range(s, e) ==> (task.meets_window(start, end) <==> start
            <= e && s <= end),
        task.time_species matches TimeSpecies::DayRange(s, e) ==> (task.meets_window(start, end) <==> start
            <= e && s <= end),
{
}

/// A listing for the window `[start, end]` comes in order of first times,
/// holds only library entries that meet the window, holds every entry that
/// meets it, and is exactly as long as the number of such entries.
pub proof fn listing_rule(lib: Map<usize, Task>, start: u128, end: u128, tasks: Seq<Task>)
    requires
        lib.dom().finite(),
        is_window_listing(lib, start, end, tasks),
    ensures
        forall|i: int, j: int|
            0 <= i < j < tasks.len() ==> #[trigger] tasks[i].time_species.starts_at()
                <= #[trigger] tasks[j].time_species.starts_at(),
        forall|i: int|
            0 <= i < tasks.len() ==> lib.values().contains(#[trigger] tasks[i]) && tasks[i].meets_window(
                start,
                end,
            ),
        forall|k: usize|
            #[trigger] lib.contains_key(k) && lib[k].meets_window(start, end) ==> tasks.contains(lib[k]),
        tasks.len() == lib.dom().filter(|k: usize| lib[k].meets_window(start, end)).len(),
{
    let keys = choose|keys: Seq<usize>| lists_window(lib, start, end, tasks, keys);
    assert forall|i: int| 0 <= i < tasks.len() implies lib.values().contains(#[trigger] tasks[i])
        && tasks[i].meets_window(start, end) by {
        assert(lib.contains_key(keys[i]));
        assert(lib[keys[i]] == tasks[i]);
    }
    assert forall|k: usize| #[trigger] lib.contains_key(k) && lib[k].meets_window(start, end) implies tasks.contains(
        lib[k],
    ) by {
        assert(keys.contains(k));
        let i = choose|i: int| 0 <= i < keys.len() && keys[i] == k;
        assert(tasks[i] == lib[k]);
    }
    let meeting = lib.dom().filter(|k: usize| lib[k].meets_window(start, end));
    assert(keys.to_set() =~= meeting) by {
        assert forall|k: usize| meeting.contains(k) implies keys.to_set().contains(k) by {
            assert(keys.contains(k));
        }
        assert forall|k: usize| keys.to_set().contains(k) implies meeting.contains(k) by {
            let i = choose|i: int| 0 <= i < keys.len() && keys[i] == k;
            assert(lib.contains_key(keys[i]));
        }
    }
    keys.unique_seq_to_set();
}

/// The species a request names: "Task" gives a task not yet done, "Event" an
/// event, and any other name an event.
pub proof fn requested_species_rule(name: Seq<char>)
    ensures
        name == "Task"@ ==> requested_species(name) == Species::Task(false),
        name != "Task"@ ==> requested_species(name) == Species::Event,
{
}

/// The occurrence a request names: "Repeating" takes the low byte of the day
/// mask; every other name, "Once" included, gives a one-off entry whatever
/// the mask.
pub proof fn requested_occurance_rule(name: Seq<char>, repeating_day: u128)
    ensures
        name == "Repeating"@ ==> requested_occurance(name, repeating_day) == OccuranceSpecies::Repeating(
            (repeating_day % 256) as u8,
        ),
        name != "Repeating"@ ==> requested_occurance(name, repeating_day) == OccuranceSpecies::Once,
{
    reveal_strlit("Once");
    reveal_strlit("Repeating");
    assert("Once"@.len() == 4 && "Repeating"@.len() == 9);
    assert((repeating_day as u8) == ((repeating_day % 256) as u8)) by (bit_vector);
}

/// The time a request names: "Range" and "DayRange" take both `start` and
/// `end`, "AllDay" takes `start`, and "Start" or any other name gives
/// `Start(start)`.
pub proof fn requested_time_rule(name: Seq<char>, start: u128, end: u128)
    ensures
        name == "Range"@ ==> requested_time(name, start, end) == TimeSpecies::Range(start, end),
        name == "DayRange"@ ==> requested_time(name, start, end) == TimeSpecies::DayRange(start, end),
        name == "AllDay"@ ==> requested_time(name, start, end) == TimeSpecies::AllDay(start),
        name != "Range"@ && name != "DayRange"@ && name != "AllDay"@ ==> requested_time(name, start, end)
            == TimeSpecies::Start(start),
{
    reveal_strlit("Start");
    reveal_strlit("Range");
    reveal_strlit("AllDay");
    reveal_strlit("DayRange");
    assert("Start"@.len() == 5 && "Start"@[0] == 'S');
    assert("Range"@.len() == 5 && "Range"@[0] == 'R');
    assert("AllDay"@.len() == 6 && "DayRange"@.len() == 8);
}

/// Completing a one-off entry changes only that entry, and of it only the
/// species: a task's done flag flips, an event stays as it was.
pub proof fn completing_one_off_flips_done(
    lib: Map<usize, Task>,
    id: usize,
    week_start: u128,
    current_day: u8,
)
    requires
        lib.contains_key(id),
        lib[id].occurance_species == OccuranceSpecies::Once,
    ensures
        ({
            let done = completed_library(lib, id, week_start, current_day);
            &&& done.dom() == lib.dom()
            &&& forall|k: usize| #[trigger] lib.contains_key(k) && k != id ==> done[k] == lib[k]
            &&& done[id].id == lib[id].id
            &&& done[id].occurance_species == lib[id].occurance_species
            &&& done[id].time_species == lib[id].time_species
            &&& done[id].title == lib[id].title
            &&& done[id].description == lib[id].description
            &&& done[id].colour == lib[id].colour
            &&& lib[id].species matches Species::Task(d) ==> done[id].species == Species::Task(!d)
            &&& lib[id].species == Species::Event ==> done[id].species == Species::Event
        }),
{
    let done = completed_library(lib, id, week_start, current_day);
    assert(done.dom() =~= lib.dom());
}

/// A task operation answers `Success` exactly when the task is there.
pub proof fn task_answer_rule(lib: Map<usize, Task>, id: usize)
    ensures
        (task_answer(lib, id) == TaskError::Success) <==> lib.contains_key(id),
        (task_answer(lib, id) == TaskError::TaskNoExist) <==> !lib.contains_key(id),
{
}

/// Logging in succeeds with the account service's user id exactly when the
/// service knows the name and the password matches; a known name with
/// another password is answered `PasswordWrong`, an unknown name
/// `UsernameNoExist`.
pub proof fn login_rule(password: Seq<char>, record: Option<(u128, String)>)
    ensures
        record matches Some((id, stored)) ==> (stored@ == password ==> login_outcome(password, record)
            == LoginResult::Success(id)),
        record matches Some((id, stored)) ==> (stored@ != password ==> login_outcome(password, record)
            == LoginResult::PasswordWrong),
        record is None ==> login_outcome(password, record) == LoginResult::UsernameNoExist,
{
}

/// A body is read one character per byte, each character the one whose code
/// is that byte: nothing is folded, dropped or added.
pub proof fn body_text_rule(body: Seq<u8>)
    ensures
        latin1_text(body).len() == body.len(),
        forall|i: int| 0 <= i < body.len() ==> (#[trigger] latin1_text(body)[i]) as u32 == body[i] as u32,
{
    assert forall|i: int| 0 <= i < body.len() implies (#[trigger] latin1_text(body)[i]) as u32 == body[i]
        as u32 by {
        let b = body[i];
        assert(latin1_text(body)[i] == b as char);
    }
}

/// Credentials read from a non-empty body are the "username" and "password"
/// values of the JSON object in its text, the first as the user name and the
/// second as the password.
pub proof fn credentials_rule(body: Seq<u8>, read: Result<LoginInformation, LoginInfoParseError>)
    requires
        body_credentials_match(body, read),
        body.len() > 0,
    ensures
        read matches Ok(info) && ({
            let object = json_string_object(latin1_text(body))->Some_0;
            &&& info.username@ == object["username"@]
            &&& info.password@ == object["password"@]
        }),
{
}

/// Kinds are read from their exact variant names, with zero for any number
/// the name leaves open; every other name reads as nothing.
pub proof fn name_rules(name: Seq<char>)
    ensures
        name == "Task"@ ==> species_named(name) == Some(Species::Task(false)),
        name == "Event"@ ==> species_named(name) == Some(Species::Event),
        name != "Task"@ && name != "Event"@ ==> species_named(name) == None::<Species>,
        name == "Start"@ ==> time_species_named(name) == Some(TimeSpecies::Start(0)),
        name == "Range"@ ==> time_species_named(name) == Some(TimeSpecies::Range(0, 0)),
        name == "AllDay"@ ==> time_species_named(name) == Some(TimeSpecies::AllDay(0)),
        name == "DayRange"@ ==> time_species_named(name) == Some(TimeSpecies::DayRange(0, 0)),
        name != "Start"@ && name != "Range"@ && name != "AllDay"@ && name != "DayRange"@
            ==> time_species_named(name) == None::<TimeSpecies>,
        name == "Once"@ ==> occurance_species_named(name) == Some(OccuranceSpecies::Once),
        name == "Repeating"@ ==> occurance_species_named(name) == Some(OccuranceSpecies::Repeating(0)),
        name != "Once"@ && name != "Repeating"@ ==> occurance_species_named(name) == None::<OccuranceSpecies>,
{
    reveal_strlit("Task");
    reveal_strlit("Event");
    reveal_strlit("Start");
    reveal_strlit("Range");
    reveal_strlit("AllDay");
    reveal_strlit("DayRange");
    reveal_strlit("Once");
    reveal_strlit("Repeating");
    assert("Task"@.len() == 4 && "Event"@.len() == 5);
    assert("Start"@.len() == 5 && "Start"@[0] == 'S');
    assert("Range"@.len() == 5 && "Range"@[0] == 'R');
    assert("AllDay"@.len() == 6 && "DayRange"@.len() == 8);
    assert("Once"@.len() == 4 && "Repeating"@.len() == 9);
}

/// The texts of the task answers are their variant names.
pub proof fn task_answer_texts()
    ensures
        task_error_text(TaskError::Success) == "Success"@,
        task_error_text(TaskError::TaskNoExist) == "TaskNoExist"@,
{
}

/// A user name is known exactly when some stored user carries it.
pub proof fn username_rule(users: Map<u128, User>, username: Seq<char>, id: u128)
    ensures
        users.contains_key(id) && users[id].username@ == username ==> has_username(users, username),
        (forall|k: u128| #[trigger] users.contains_key(k) ==> users[k].username@ != username) ==> !has_username(
            users,
            username,
        ),
{
}

/// A handler that acts on one user's library leaves every other user as
/// they were, keeps the set of users, and keeps that user's id and name.
pub proof fn only_one_library_changes(
    before: Map<u128, User>,
    after: Map<u128, User>,
    id: u128,
    library: Map<usize, Task>,
)
    requires
        before.contains_key(id),
        only_library_changed(before, after, id, library),
    ensures
        after.dom() == before.dom(),
        forall|k: u128| #[trigger] before.contains_key(k) && k != id ==> after[k] == before[k],
        after[id].id == before[id].id,
        after[id].username == before[id].username,
        after[id].library@ == library,
{
    assert(after.dom() =~= before.dom());
}

/// Once a login has succeeded, logging in again with the same answer from the
/// account service creates no further user.
pub proof fn second_login_creates_no_user(
    users: Map<u128, User>,
    username: Seq<char>,
    password: Seq<char>,
    record: Option<(u128, String)>,
)
    requires
        login_outcome(password, record) is Success,
        has_username(users, username),
    ensures
        !login_creates_user(users, username, password, record),
{
}

} // verus!
