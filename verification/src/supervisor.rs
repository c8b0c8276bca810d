//! The background tasks of a registry.
use vstd::prelude::*;

use crate::json::{opt_json, Json, JsonView};
use crate::text::{opt_text, same, Text};

verus! {

/// A background task as its supervisor knows it.
#[derive(Debug)]
pub struct SupervisedTask {
    pub id: String,
    pub tool_name: String,
    pub tool_call_id: String,
    pub session_key: Option<String>,
    /// What the tool was called with.
    pub tool_input: Option<Json>,
    /// The message that led to the task.
    pub client_message_id: Option<String>,
    /// The task has not ended.
    pub active: bool,
}

#[verifier::ext_equal]
pub struct TaskView {
    pub id: Text,
    pub tool_name: Text,
    pub tool_call_id: Text,
    pub session_key: Option<Text>,
    pub tool_input: Option<JsonView>,
    pub client_message_id: Option<Text>,
    pub active: bool,
}

impl View for SupervisedTask {
    type V = TaskView;

    open spec fn view(&self) -> TaskView {
        TaskView {
            id: self.id@,
            tool_name: self.tool_name@,
            tool_call_id: self.tool_call_id@,
            session_key: opt_text(self.session_key),
            tool_input: opt_json(self.tool_input),
            client_message_id: opt_text(self.client_message_id),
            active: self.active,
        }
    }
}

/// The task that was last registered under an id.
pub open spec fn task_with(tasks: Seq<TaskView>, id: Text) -> Option<TaskView>
    decreases tasks.len(),
{
    if tasks.len() == 0 {
        None
    } else if tasks.last().id == id {
        Some(tasks.last())
    } else {
        task_with(tasks.drop_last(), id)
    }
}

/// The number of tasks that have not ended.
pub open spec fn active_count(tasks: Seq<TaskView>) -> nat
    decreases tasks.len(),
{
    if tasks.len() == 0 {
        0
    } else if tasks.last().active {
        active_count(tasks.drop_last()) + 1
    } else {
        active_count(tasks.drop_last())
    }
}

/// A task once the one with an id has ended.
pub open spec fn ended(task: TaskView, id: Text) -> TaskView {
    if task.id == id {
        TaskView { active: false, ..task }
    } else {
        task
    }
}

/// The tasks of a session, in the order in which they were registered.
#[derive(Debug)]
pub struct TaskSupervisor {
    tasks: Vec<SupervisedTask>,
}

impl View for TaskSupervisor {
    type V = Seq<TaskView>;

    closed spec fn view(&self) -> Seq<TaskView> {
        Seq::new(self.tasks@.len(), |i: int| self.tasks@[i]@)
    }
}

impl TaskSupervisor {
    /// A supervisor that knows no task.
    pub fn new() -> (r: TaskSupervisor)
        ensures
            r@ == Seq::<TaskView>::empty(),
    {
        let r = TaskSupervisor { tasks: Vec::new() };
        proof {
            assert(r@ =~= Seq::empty());
        }
        r
    }

    /// Takes note of a task.
    pub fn register(&mut self, task: SupervisedTask)
        ensures
            final(self)@ == old(self)@.push(task@),
    {
        self.tasks.push(task);
        proof {
            assert(self@ =~= old(self)@.push(task@));
        }
    }

    /// Takes note of the end of a task.
    pub fn finish(&mut self, id: &str)
        ensures
            final(self)@ == old(self)@.map_values(|task: TaskView| ended(task, id@)),
    {
        let ghost before = self@;
        let mut i: usize = 0;
        while i < self.tasks.len()
            invariant
                i <= self.tasks@.len(),
                before.len() == self.tasks@.len(),
                forall|j: int| 0 <= j < i ==> (#[trigger] self.tasks@[j])@ == ended(before[j], id@),
                forall|j: int| i <= j < before.len() ==> (#[trigger] self.tasks@[j])@ == before[j],
            decreases self.tasks@.len() - i,
        {
            if same(self.tasks[i].id.as_str(), id) {
                self.tasks[i].active = false;
            }
            i += 1;
        }
        proof {
            assert(self@ =~= before.map_values(|task: TaskView| ended(task, id@)));
        }
    }

    /// The task with an id.
    pub fn get_task(&self, id: &str) -> (r: Option<&SupervisedTask>)
        ensures
            match r {
                Some(task) => task_with(self@, id@) == Some(task@),
                None => task_with(self@, id@) is None,
            },
    {
        let ghost all = self@;
        let mut i: usize = self.tasks.len();
        proof {
            assert(all.take(i as int) =~= all);
        }
        while i > 0
            invariant
                i <= self.tasks@.len(),
                all == self@,
                task_with(all, id@) == task_with(all.take(i as int), id@),
            decreases i,
        {
            let k: usize = i - 1;
            proof {
                assert(all.take(i as int).drop_last() =~= all.take(k as int));
                assert(all.take(i as int).last() == self.tasks@[k as int]@);
            }
            if same(self.tasks[k].id.as_str(), id) {
                return Some(&self.tasks[k]);
            }
            i = k;
        }
        None
    }

    /// The number of tasks that have not ended.
    pub fn task_count(&self) -> (r: usize)
        ensures
            r == active_count(self@),
    {
        let ghost all = self@;
        let mut n: usize = 0;
        let mut i: usize = 0;
        while i < self.tasks.len()
            invariant
                n <= i <= self.tasks@.len(),
                all == self@,
                n == active_count(all.take(i as int)),
            decreases self.tasks@.len() - i,
        {
            proof {
                assert(all.take(i + 1).drop_last() =~= all.take(i as int));
                assert(all.take(i + 1).last() == self.tasks@[i as int]@);
            }
            if self.tasks[i].active {
                n += 1;
            }
            i += 1;
        }
        proof {
            assert(all.take(all.len() as int) =~= all);
        }
        n
    }
}

/// A task that was registered is found under its id, counts as one more if it
/// has not ended, and does not change what is found under another id.
pub proof fn registered_tasks_are_found(tasks: Seq<TaskView>, task: TaskView, id: Text)
    ensures
        task_with(tasks.push(task), task.id) == Some(task),
        id != task.id ==> task_with(tasks.push(task), id) == task_with(tasks, id),
        task.active ==> active_count(tasks.push(task)) == active_count(tasks) + 1,
{
    assert(tasks.push(task).drop_last() =~= tasks);
}

/// No task with the id is active once it has ended, and the others are as they
/// were.
pub proof fn finished_tasks_are_not_active(tasks: Seq<TaskView>, id: Text, other: Text)
    ensures
        ({
            let after = tasks.map_values(|task: TaskView| ended(task, id));
            &&& task_with(after, id) matches Some(task) ==> !task.active
            &&& other != id ==> task_with(after, other) == task_with(tasks, other)
            &&& active_count(after) <= active_count(tasks)
        }),
    decreases tasks.len(),
{
    let after = tasks.map_values(|task: TaskView| ended(task, id));
    if tasks.len() > 0 {
        finished_tasks_are_not_active(tasks.drop_last(), id, other);
        assert(after.drop_last() =~= tasks.drop_last().map_values(
            |task: TaskView| ended(task, id),
        ));
    }
}

} // verus!
