//! Task aggregation: which task lists are read, which of their entries
//! become tasks, and the requests sent to the task service.

use vstd::prelude::*;
use vstd::string::*;
use crate::encoding::{
    owned_or_empty, percent_encode, percent_encoded, same_text, text_or_empty,
};

verus! {

/// Root of the task service.
pub const TASKS_API_BASE: &'static str = "https://tasks.googleapis.com/tasks/v1";

/// A normalized task, as handed to the caller.
#[derive(Debug, Clone)]
pub struct Task {
    pub id: String,
    pub title: String,
    pub completed: bool,
    pub tasklist_id: String,
}

/// The mathematical value of a `Task`.
pub struct TaskModel {
    pub id: Seq<char>,
    pub title: Seq<char>,
    pub completed: bool,
    pub tasklist_id: Seq<char>,
}

impl View for Task {
    type V = TaskModel;

    open spec fn view(&self) -> TaskModel {
        TaskModel {
            id: self.id@,
            title: self.title@,
            completed: self.completed,
            tasklist_id: self.tasklist_id@,
        }
    }
}

/// One task list of the account, as the provider reports it.
#[derive(Debug, Clone)]
pub struct TaskListEntry {
    pub id: String,
    pub title: Option<String>,
}

impl Task {
    /// A copy of the task.
    pub fn duplicate(&self) -> (r: Task)
        ensures
            r == *self,
    {
        Task {
            id: self.id.clone(),
            title: self.title.clone(),
            completed: self.completed,
            tasklist_id: self.tasklist_id.clone(),
        }
    }
}

/// One task of a list, as the provider reports it.
#[derive(Debug, Clone)]
pub struct TaskEntry {
    pub id: Option<String>,
    pub title: Option<String>,
    pub status: Option<String>,
}

/// A task list with what fetching its tasks gave: `None` where the fetch
/// failed or the answer held no items.
#[derive(Debug, Clone)]
pub struct TaskListItems {
    pub list: TaskListEntry,
    pub items: Option<Vec<TaskEntry>>,
}

/// A write request to the task service.
#[derive(Debug, Clone)]
pub struct TaskRequest {
    pub url: String,
    pub body: String,
}

/// The models of a sequence of tasks.
pub open spec fn task_models(tasks: Seq<Task>) -> Seq<TaskModel> {
    tasks.map_values(|t: Task| t@)
}

/// The names of the task lists that are shown.
pub open spec fn allowed_title(title: Seq<char>) -> bool {
    title == "I dag"@ || title == "Min huskeliste"@
}

/// Whether the provider marks the entry as completed.
pub open spec fn entry_completed(entry: TaskEntry) -> bool {
    entry.status is Some && entry.status->0@ == "completed"@
}

/// An entry becomes a task when it has a title and is not completed.
pub open spec fn entry_kept(entry: TaskEntry) -> bool {
    text_or_empty(entry.title).len() > 0 && !entry_completed(entry)
}

/// The task that a kept entry of the list `list_id` becomes.
pub open spec fn entry_task(list_id: Seq<char>, entry: TaskEntry) -> TaskModel {
    TaskModel {
        id: text_or_empty(entry.id),
        title: text_or_empty(entry.title),
        completed: false,
        tasklist_id: list_id,
    }
}

/// The tasks of one list: its kept entries, in their order.
pub open spec fn list_tasks(list_id: Seq<char>, items: Seq<TaskEntry>) -> Seq<TaskModel>
    decreases items.len(),
{
    if items.len() == 0 {
        Seq::empty()
    } else {
        let before = list_tasks(list_id, items.drop_last());
        if entry_kept(items.last()) {
            before.push(entry_task(list_id, items.last()))
        } else {
            before
        }
    }
}

/// What one fetched list contributes: nothing unless its name is allowed.
pub open spec fn fetched_tasks(fetched: TaskListItems) -> Seq<TaskModel> {
    if allowed_title(text_or_empty(fetched.list.title)) && fetched.items is Some {
        list_tasks(fetched.list.id@, fetched.items->0@)
    } else {
        Seq::empty()
    }
}

/// The tasks of all fetched lists, list after list.
pub open spec fn all_tasks(fetched: Seq<TaskListItems>) -> Seq<TaskModel>
    decreases fetched.len(),
{
    if fetched.len() == 0 {
        Seq::empty()
    } else {
        all_tasks(fetched.drop_last()) + fetched_tasks(fetched.last())
    }
}

/// Whether a task list of this name is read at all.
pub fn is_allowed_list(title: &str) -> (r: bool)
    ensures
        r == allowed_title(title@),
{
    same_text(title, "I dag") || same_text(title, "Min huskeliste")
}

/// Whether the tasks of this list are to be fetched.
pub fn wants_list(list: &TaskListEntry) -> (r: bool)
    ensures
        r == allowed_title(text_or_empty(list.title)),
{
    match &list.title {
        Some(t) => is_allowed_list(t.as_str()),
        None => {
            proof {
                reveal_strlit("I dag");
                reveal_strlit("Min huskeliste");
                assert("I dag"@.len() == 5);
                assert("Min huskeliste"@.len() == 14);
                assert(Seq::<char>::empty().len() == 0);
            }
            false
        },
    }
}

fn is_completed(entry: &TaskEntry) -> (r: bool)
    ensures
        r == entry_completed(*entry),
{
    match &entry.status {
        Some(s) => same_text(s.as_str(), "completed"),
        None => false,
    }
}

/// Appends the tasks of one list to `out`.
fn push_list_tasks(out: &mut Vec<Task>, list_id: &String, items: &Vec<TaskEntry>)
    ensures
        task_models(final(out)@) == task_models(old(out)@) + list_tasks(list_id@, items@),
{
    let ghost start = task_models(out@);
    let mut j: usize = 0;
    assert(items@.take(0) =~= Seq::empty());
    assert(start + Seq::<TaskModel>::empty() =~= start);
    while j < items.len()
        invariant
            j <= items.len(),
            task_models(out@) == start + list_tasks(list_id@, items@.take(j as int)),
        decreases items.len() - j,
    {
        let item = &items[j];
        let title = owned_or_empty(&item.title);
        let ghost before = out@;
        proof {
            assert(items@.take(j as int + 1).drop_last() =~= items@.take(j as int));
            assert(items@.take(j as int + 1).last() == items@[j as int]);
        }
        if !title.as_str().is_empty() && !is_completed(item) {
            out.push(
                Task {
                    id: owned_or_empty(&item.id),
                    title,
                    completed: false,
                    tasklist_id: list_id.clone(),
                },
            );
            proof {
                assert(task_models(out@) =~= task_models(before).push(
                    entry_task(list_id@, items@[j as int]),
                ));
                assert(start + list_tasks(list_id@, items@.take(j as int)).push(
                    entry_task(list_id@, items@[j as int]),
                ) =~= (start + list_tasks(list_id@, items@.take(j as int))).push(
                    entry_task(list_id@, items@[j as int]),
                ));
            }
        }
        j = j + 1;
    }
    assert(items@.take(items.len() as int) =~= items@);
}

/// The tasks shown to the caller: from each list whose name is allowed,
/// the entries that have a title and are not completed, in the order of
/// the lists and of their entries. Lists of another name contribute
/// nothing, whatever was fetched for them.
pub fn get_tasks(fetched: &Vec<TaskListItems>) -> (tasks: Vec<Task>)
    ensures
        task_models(tasks@) == all_tasks(fetched@),
{
    let mut out: Vec<Task> = Vec::new();
    let mut i: usize = 0;
    assert(fetched@.take(0) =~= Seq::empty());
    assert(task_models(out@) =~= Seq::empty());
    while i < fetched.len()
        invariant
            i <= fetched.len(),
            task_models(out@) == all_tasks(fetched@.take(i as int)),
        decreases fetched.len() - i,
    {
        let entry = &fetched[i];
        proof {
            assert(fetched@.take(i as int + 1).drop_last() =~= fetched@.take(i as int));
            assert(fetched@.take(i as int + 1).last() == fetched@[i as int]);
        }
        let ghost before = task_models(out@);
        if wants_list(&entry.list) {
            match &entry.items {
                Some(items) => {
                    push_list_tasks(&mut out, &entry.list.id, items);
                },
                None => {
                    assert(before + Seq::<TaskModel>::empty() =~= before);
                },
            }
        } else {
            assert(before + Seq::<TaskModel>::empty() =~= before);
        }
        i = i + 1;
    }
    assert(fetched@.take(fetched.len() as int) =~= fetched@);
    out
}

/// Every task of one list has a title, is open, and belongs to that list.
pub proof fn lemma_list_tasks_kept(list_id: Seq<char>, items: Seq<TaskEntry>, k: int)
    requires
        0 <= k < list_tasks(list_id, items).len(),
    ensures
        list_tasks(list_id, items)[k].title.len() > 0,
        !list_tasks(list_id, items)[k].completed,
        list_tasks(list_id, items)[k].tasklist_id == list_id,
    decreases items.len(),
{
    if items.len() > 0 {
        let before = list_tasks(list_id, items.drop_last());
        if k < before.len() {
            lemma_list_tasks_kept(list_id, items.drop_last(), k);
        }
    }
}

/// A task list whose name is not allowed contributes no task, whatever it
/// holds; and no returned task has an empty title or is completed.
pub proof fn lemma_task_filtering(fetched: Seq<TaskListItems>, k: int)
    ensures
        forall|i: int|
            0 <= i < fetched.len() && !allowed_title(text_or_empty(fetched[i].list.title))
                ==> #[trigger] fetched_tasks(fetched[i]) == Seq::<TaskModel>::empty(),
        0 <= k < all_tasks(fetched).len() ==> all_tasks(fetched)[k].title.len() > 0
            && !all_tasks(fetched)[k].completed,
    decreases fetched.len(),
{
    if fetched.len() > 0 && 0 <= k < all_tasks(fetched).len() {
        let before = all_tasks(fetched.drop_last());
        if k < before.len() {
            lemma_task_filtering(fetched.drop_last(), k);
        } else {
            let last = fetched.last();
            lemma_list_tasks_kept(last.list.id@, last.items->0@, k - before.len());
        }
    }
}

/// Where none of the fetched lists has an allowed name, there are no tasks.
pub proof fn lemma_only_allowed_lists(fetched: Seq<TaskListItems>)
    requires
        forall|i: int|
            0 <= i < fetched.len() ==> !allowed_title(
                text_or_empty((#[trigger] fetched[i]).list.title),
            ),
    ensures
        all_tasks(fetched) == Seq::<TaskModel>::empty(),
    decreases fetched.len(),
{
    if fetched.len() > 0 {
        lemma_only_allowed_lists(fetched.drop_last());
        assert(all_tasks(fetched) =~= Seq::<TaskModel>::empty());
    }
}

/// URL that lists the account's task lists.
pub fn task_lists_url() -> (url: String)
    ensures
        url@ == TASKS_API_BASE@ + "/users/@me/lists"@,
{
    let mut url = String::from_str(TASKS_API_BASE);
    url.append("/users/@me/lists");
    url
}

/// URL that lists the open tasks of one list, at most 50 of them.
pub fn tasks_url(list_id: &str) -> (url: String)
    ensures
        url@ == TASKS_API_BASE@ + "/lists/"@ + percent_encoded(list_id@)
            + "/tasks?showCompleted=false&maxResults=50"@,
{
    let mut url = String::from_str(TASKS_API_BASE);
    url.append("/lists/");
    url.append(percent_encode(list_id).as_str());
    url.append("/tasks?showCompleted=false&maxResults=50");
    url
}

/// The request that marks a task as completed: a patch of the task's
/// resource whose body sets the status.
pub fn complete_task(task_id: &str, tasklist_id: &str) -> (request: TaskRequest)
    ensures
        request.url@ == TASKS_API_BASE@ + "/lists/"@ + percent_encoded(tasklist_id@) + "/tasks/"@
            + percent_encoded(task_id@),
        request.body@ == "{\"status\":\"completed\"}"@,
{
    let mut url = String::from_str(TASKS_API_BASE);
    url.append("/lists/");
    url.append(percent_encode(tasklist_id).as_str());
    url.append("/tasks/");
    url.append(percent_encode(task_id).as_str());
    TaskRequest { url, body: String::from_str("{\"status\":\"completed\"}") }
}

} // verus!
