//! The in-memory store: users keyed by name, tasks keyed by id, and the
//! counter that hands out task ids.

use vstd::prelude::*;
use crate::task::{Task, TaskView, tasks_json, tasks_to_json};
use crate::user::{User, password_matches, bcrypt_hash_at};

verus! {

/// The store as the rules see it.
pub struct StoreView {
    /// Name and stored password hash of each user, in order of registration.
    pub users: Seq<(Seq<char>, Seq<char>)>,
    /// The tasks, in order of creation.
    pub tasks: Seq<TaskView>,
    /// The id the next task gets.
    pub next_id: nat,
}

/// Why a store operation did not happen.
#[derive(Debug, PartialEq, Eq, Structural)]
pub enum StoreError {
    /// The username is taken.
    Conflict,
    /// No task has that id.
    NotFound,
    /// The task belongs to someone else.
    Forbidden,
    /// No salt could be drawn to hash the password.
    HashUnavailable,
    /// Every task id has been handed out.
    IdsExhausted,
}

/// The first index at or after `i` of a user named `name`.
pub open spec fn find_user_from(users: Seq<(Seq<char>, Seq<char>)>, name: Seq<char>, i: int) -> Option<int>
    decreases users.len() - i,
{
    if i < 0 || i >= users.len() {
        None
    } else if users[i].0 == name {
        Some(i)
    } else {
        find_user_from(users, name, i + 1)
    }
}

pub open spec fn find_user(users: Seq<(Seq<char>, Seq<char>)>, name: Seq<char>) -> Option<int> {
    find_user_from(users, name, 0)
}

/// Whether `name` is registered and `password` is that user's password.
pub open spec fn authenticated(users: Seq<(Seq<char>, Seq<char>)>, name: Seq<char>, password: Seq<char>) -> bool {
    match find_user(users, name) {
        Some(i) => password_matches(password, users[i].1),
        None => false,
    }
}

/// The first index at or after `i` of the task with id `id`.
pub open spec fn find_task_from(tasks: Seq<TaskView>, id: nat, i: int) -> Option<int>
    decreases tasks.len() - i,
{
    if i < 0 || i >= tasks.len() {
        None
    } else if tasks[i].id == id {
        Some(i)
    } else {
        find_task_from(tasks, id, i + 1)
    }
}

pub open spec fn find_task(tasks: Seq<TaskView>, id: nat) -> Option<int> {
    find_task_from(tasks, id, 0)
}

pub proof fn lemma_find_user_from(users: Seq<(Seq<char>, Seq<char>)>, name: Seq<char>, i: int)
    requires
        0 <= i,
    ensures
        match find_user_from(users, name, i) {
            Some(j) => i <= j < users.len() && users[j].0 == name && forall|k: int|
                i <= k < j ==> users[k].0 != name,
            None => forall|k: int| i <= k < users.len() ==> users[k].0 != name,
        },
    decreases users.len() - i,
{
    if i < users.len() && users[i].0 != name {
        lemma_find_user_from(users, name, i + 1);
    }
}

pub proof fn lemma_find_task_from(tasks: Seq<TaskView>, id: nat, i: int)
    requires
        0 <= i,
    ensures
        match find_task_from(tasks, id, i) {
            Some(j) => i <= j < tasks.len() && tasks[j].id == id && forall|k: int|
                i <= k < j ==> tasks[k].id != id,
            None => forall|k: int| i <= k < tasks.len() ==> tasks[k].id != id,
        },
    decreases tasks.len() - i,
{
    if i < tasks.len() && tasks[i].id != id {
        lemma_find_task_from(tasks, id, i + 1);
    }
}

/// The task table as the rules see it.
pub struct TasksView {
    /// The tasks, in order of creation.
    pub tasks: Seq<TaskView>,
    /// The id the next task gets.
    pub next_id: nat,
}

/// The task table of a store.
pub open spec fn tasks_of(s: StoreView) -> TasksView {
    TasksView { tasks: s.tasks, next_id: s.next_id }
}

/// The store with its task table replaced.
pub open spec fn with_tasks(s: StoreView, t: TasksView) -> StoreView {
    StoreView { tasks: t.tasks, next_id: t.next_id, ..s }
}

/// Whether `actor` may change the task with id `id`: the index of the task when
/// it exists and `actor` owns it. Existence is asked first.
pub open spec fn task_access(t: TasksView, id: nat, actor: Seq<char>) -> Result<int, StoreError> {
    match find_task(t.tasks, id) {
        None => Err(StoreError::NotFound),
        Some(i) => if t.tasks[i].owner == actor {
            Ok(i)
        } else {
            Err(StoreError::Forbidden)
        },
    }
}

/// The users with one more user.
pub open spec fn with_user(users: Seq<(Seq<char>, Seq<char>)>, name: Seq<char>, hash: Seq<char>) -> Seq<
    (Seq<char>, Seq<char>),
> {
    users.push((name, hash))
}

/// The table with a new task under the next id, not completed, and the counter moved on.
pub open spec fn with_task(t: TasksView, content: Seq<char>, owner: Seq<char>) -> TasksView {
    TasksView {
        tasks: t.tasks.push(TaskView { id: t.next_id, content, completed: false, owner }),
        next_id: t.next_id + 1,
    }
}

/// A task with the fields that were given replaced.
pub open spec fn task_updated(t: TaskView, content: Option<Seq<char>>, completed: Option<bool>) -> TaskView {
    TaskView {
        content: match content {
            Some(c) => c,
            None => t.content,
        },
        completed: match completed {
            Some(b) => b,
            None => t.completed,
        },
        ..t
    }
}

/// Names are unique.
pub open spec fn users_wf(users: Seq<(Seq<char>, Seq<char>)>) -> bool {
    forall|i: int, j: int| 0 <= i < j < users.len() ==> users[i].0 != users[j].0
}

/// Ids are unique and increasing, all below the counter, which starts at 1.
pub open spec fn tasks_wf(t: TasksView) -> bool {
    &&& 1 <= t.next_id
    &&& forall|i: int, j: int| 0 <= i < j < t.tasks.len() ==> t.tasks[i].id < t.tasks[j].id
    &&& forall|i: int| 0 <= i < t.tasks.len() ==> t.tasks[i].id < t.next_id
}

/// Holds of every store that the operations below reach from the empty one.
pub open spec fn store_wf(s: StoreView) -> bool {
    users_wf(s.users) && tasks_wf(tasks_of(s))
}

/// The registered users, guarded by a lock of their own when shared.
pub struct UserTable {
    users: Vec<User>,
}

impl View for UserTable {
    /// Name and stored password hash of each user, in order of registration.
    type V = Seq<(Seq<char>, Seq<char>)>;

    closed spec fn view(&self) -> Seq<(Seq<char>, Seq<char>)> {
        self.users@.map_values(|u: User| (u.username@, u.password_hash@))
    }
}

impl UserTable {
    /// No name is registered twice.
    #[verifier::type_invariant]
    pub(crate) open spec fn inv(&self) -> bool {
        users_wf(self@)
    }

    pub fn new() -> (r: UserTable)
        ensures
            r@ == Seq::<(Seq<char>, Seq<char>)>::empty(),
    {
        let r = UserTable { users: Vec::new() };
        assert(r@ =~= Seq::<(Seq<char>, Seq<char>)>::empty());
        r
    }

    fn find_user_index(&self, name: &String) -> (r: Option<usize>)
        ensures
            match r {
                Some(i) => find_user(self@, name@) == Some(i as int),
                None => find_user(self@, name@) is None,
            },
    {
        let mut i: usize = 0;
        while i < self.users.len()
            invariant
                find_user(self@, name@) == find_user_from(self@, name@, i as int),
            decreases self.users@.len() - i,
        {
            if self.users[i].username == *name {
                return Some(i);
            }
            i = i + 1;
        }
        None
    }

    /// Adds a user unless the name is taken.
    pub fn register(&mut self, username: &str, password: &str) -> (r: Result<(), StoreError>)
        ensures
            match r {
                Ok(()) => {
                    &&& find_user(old(self)@, username@) is None
                    &&& final(self)@ == with_user(old(self)@, username@, final(self)@.last().1)
                    &&& password_matches(password@, final(self)@.last().1)
                    &&& bcrypt_hash_at(final(self)@.last().1, 4)
                },
                Err(StoreError::Conflict) => find_user(old(self)@, username@) is Some
                    && final(self)@ == old(self)@,
                Err(StoreError::HashUnavailable) => find_user(old(self)@, username@) is None
                    && final(self)@ == old(self)@,
                Err(_) => false,
            },
    {
        let name = String::from_str(username);
        if self.find_user_index(&name).is_some() {
            return Err(StoreError::Conflict);
        }
        match User::new(username, password) {
            Some(user) => {
                proof {
                    use_type_invariant(&*self);
                    lemma_find_user_from(self@, username@, 0);
                }
                let ghost before = self@;
                let mut users: Vec<User> = Vec::new();
                std::mem::swap(&mut self.users, &mut users);
                users.push(user);
                let ghost after = users@.map_values(|u: User| (u.username@, u.password_hash@));
                assert(after =~= before.push((username@, after.last().1)));
                assert(users_wf(after)) by {
                    assert forall|i: int, j: int| 0 <= i < j < after.len() implies after[i].0
                        != after[j].0 by {
                        if j == before.len() {
                            assert(after[i] == before[i]);
                        } else {
                            assert(after[i] == before[i] && after[j] == before[j]);
                        }
                    }
                }
                std::mem::swap(&mut self.users, &mut users);
                Ok(())
            },
            None => Err(StoreError::HashUnavailable),
        }
    }

    /// The user named `username`, when `password` is theirs.
    pub fn authenticate(&self, username: &str, password: &str) -> (r: Option<User>)
        ensures
            match r {
                Some(u) => authenticated(self@, username@, password@) && u.username@ == username@,
                None => !authenticated(self@, username@, password@),
            },
    {
        let name = String::from_str(username);
        match self.find_user_index(&name) {
            Some(i) => {
                proof {
                    lemma_find_user_from(self@, username@, 0);
                }
                if self.users[i].authenticate(password) {
                    Some(
                        User {
                            username: self.users[i].username.clone(),
                            password_hash: self.users[i].password_hash.clone(),
                        },
                    )
                } else {
                    None
                }
            },
            None => None,
        }
    }
}

/// The tasks and the id counter, guarded together by one lock when shared:
/// creating a task takes the table and then the counter, always in that order.
pub struct TaskTable {
    tasks: Vec<Task>,
    next_id: usize,
}

impl View for TaskTable {
    type V = TasksView;

    closed spec fn view(&self) -> TasksView {
        TasksView { tasks: self.tasks@.map_values(|t: Task| t@), next_id: self.next_id as nat }
    }
}

impl TaskTable {
    /// Ids are unique, increasing, and below the counter.
    #[verifier::type_invariant]
    pub(crate) open spec fn inv(&self) -> bool {
        tasks_wf(self@)
    }

    /// An empty table whose first task gets id 1.
    pub fn new() -> (r: TaskTable)
        ensures
            r@ == (TasksView { tasks: seq![], next_id: 1 }),
    {
        let r = TaskTable { tasks: Vec::new(), next_id: 1 };
        assert(r@.tasks =~= seq![]);
        r
    }

    fn find_task_index(&self, id: usize) -> (r: Option<usize>)
        ensures
            match r {
                Some(i) => find_task(self@.tasks, id as nat) == Some(i as int),
                None => find_task(self@.tasks, id as nat) is None,
            },
    {
        let mut i: usize = 0;
        while i < self.tasks.len()
            invariant
                find_task(self@.tasks, id as nat) == find_task_from(self@.tasks, id as nat, i as int),
            decreases self.tasks@.len() - i,
        {
            if self.tasks[i].id == id {
                return Some(i);
            }
            i = i + 1;
        }
        None
    }

    /// Adds a task owned by `owner` under the next id, and returns that id.
    pub fn create_task(&mut self, content: String, owner: &User) -> (r: Result<usize, StoreError>)
        ensures
            match r {
                Ok(id) => id == old(self)@.next_id && old(self)@.next_id < usize::MAX && final(self)@
                    == with_task(old(self)@, content@, owner.username@),
                Err(e) => e == StoreError::IdsExhausted && old(self)@.next_id == usize::MAX
                    && final(self)@ == old(self)@,
            },
    {
        if self.next_id == usize::MAX {
            return Err(StoreError::IdsExhausted);
        }
        let id = self.next_id;
        let ghost before = self@;
        proof {
            use_type_invariant(&*self);
        }
        let task = Task::new(id, content, owner);
        let mut tasks: Vec<Task> = Vec::new();
        std::mem::swap(&mut self.tasks, &mut tasks);
        self.next_id = self.next_id + 1;
        tasks.push(task);
        let ghost after = TasksView { tasks: tasks@.map_values(|t: Task| t@), next_id: self.next_id as nat };
        assert(after.tasks =~= before.tasks.push(
            TaskView { id: id as nat, content: content@, completed: false, owner: owner.username@ },
        ));
        assert(tasks_wf(after)) by {
            assert forall|i: int, j: int| 0 <= i < j < after.tasks.len() implies after.tasks[i].id
                < after.tasks[j].id by {
                assert(after.tasks[i] == before.tasks[i]);
                if j < before.tasks.len() {
                    assert(after.tasks[j] == before.tasks[j]);
                }
            }
            assert forall|i: int| 0 <= i < after.tasks.len() implies after.tasks[i].id
                < after.next_id by {
                if i < before.tasks.len() {
                    assert(after.tasks[i] == before.tasks[i]);
                }
            }
        }
        std::mem::swap(&mut self.tasks, &mut tasks);
        Ok(id)
    }

    /// Every task, in order of creation.
    pub fn list_tasks(&self) -> (r: &Vec<Task>)
        ensures
            r@.map_values(|t: Task| t@) == self@.tasks,
    {
        &self.tasks
    }

    /// Every task as a JSON array.
    pub fn tasks_json(&self) -> (r: String)
        ensures
            r@ == tasks_json(self@.tasks),
    {
        tasks_to_json(&self.tasks)
    }

    /// The index of the task with id `id` when `actor` may change it.
    fn access(&self, id: usize, actor: &str) -> (r: Result<usize, StoreError>)
        ensures
            match r {
                Ok(i) => task_access(self@, id as nat, actor@) == Ok::<int, StoreError>(i as int),
                Err(e) => task_access(self@, id as nat, actor@) == Err::<int, StoreError>(e),
            },
    {
        match self.find_task_index(id) {
            None => Err(StoreError::NotFound),
            Some(i) => {
                proof {
                    lemma_find_task_from(self@.tasks, id as nat, 0);
                }
                let actor_name = String::from_str(actor);
                if self.tasks[i].owner.username == actor_name {
                    Ok(i)
                } else {
                    Err(StoreError::Forbidden)
                }
            },
        }
    }

    /// Replaces the given fields of the task with id `id`, when `actor` owns it.
    pub fn update_task(
        &mut self,
        id: usize,
        actor: &str,
        content: Option<String>,
        completed: Option<bool>,
    ) -> (r: Result<(), StoreError>)
        ensures
            match task_access(old(self)@, id as nat, actor@) {
                Ok(i) => r is Ok && final(self)@ == (TasksView {
                    tasks: old(self)@.tasks.update(
                        i,
                        task_updated(
                            old(self)@.tasks[i],
                            match content {
                                Some(c) => Some(c@),
                                None => None,
                            },
                            completed,
                        ),
                    ),
                    ..old(self)@
                }),
                Err(e) => r == Err::<(), StoreError>(e) && final(self)@ == old(self)@,
            },
    {
        match self.access(id, actor) {
            Err(e) => Err(e),
            Ok(i) => {
                proof {
                    lemma_find_task_from(self@.tasks, id as nat, 0);
                }
                proof {
                    use_type_invariant(&*self);
                }
                let ghost before = self@;
                let mut tasks: Vec<Task> = Vec::new();
                std::mem::swap(&mut self.tasks, &mut tasks);
                let mut task = tasks.remove(i);
                match content {
                    Some(c) => {
                        task.content = c;
                    },
                    None => {},
                }
                match completed {
                    Some(b) => {
                        task.completed = b;
                    },
                    None => {},
                }
                tasks.insert(i, task);
                let ghost after = TasksView { tasks: tasks@.map_values(|t: Task| t@), next_id: self.next_id as nat };
                assert(after.tasks =~= before.tasks.update(
                    i as int,
                    task_updated(
                        before.tasks[i as int],
                        match content {
                            Some(c) => Some(c@),
                            None => None,
                        },
                        completed,
                    ),
                ));
                assert(tasks_wf(after)) by {
                    assert forall|k: int| 0 <= k < after.tasks.len() implies after.tasks[k].id
                        == before.tasks[k].id by {
                        if k == i {
                        } else {
                            assert(after.tasks[k] == before.tasks[k]);
                        }
                    }
                }
                std::mem::swap(&mut self.tasks, &mut tasks);
                Ok(())
            },
        }
    }

    /// Removes the task with id `id`, when `actor` owns it.
    pub fn delete_task(&mut self, id: usize, actor: &str) -> (r: Result<(), StoreError>)
        ensures
            match task_access(old(self)@, id as nat, actor@) {
                Ok(i) => r is Ok && final(self)@ == (TasksView {
                    tasks: old(self)@.tasks.remove(i),
                    ..old(self)@
                }),
                Err(e) => r == Err::<(), StoreError>(e) && final(self)@ == old(self)@,
            },
    {
        match self.access(id, actor) {
            Err(e) => Err(e),
            Ok(i) => {
                proof {
                    lemma_find_task_from(self@.tasks, id as nat, 0);
                }
                proof {
                    use_type_invariant(&*self);
                }
                let ghost before = self@;
                let mut tasks: Vec<Task> = Vec::new();
                std::mem::swap(&mut self.tasks, &mut tasks);
                tasks.remove(i);
                let ghost after = TasksView { tasks: tasks@.map_values(|t: Task| t@), next_id: self.next_id as nat };
                assert(after.tasks =~= before.tasks.remove(i as int));
                assert(tasks_wf(after)) by {
                    assert forall|a: int, b: int| 0 <= a < b < after.tasks.len() implies after.tasks[a].id
                        < after.tasks[b].id by {
                        let aa = if a < i { a } else { a + 1 };
                        let bb = if b < i { b } else { b + 1 };
                        assert(after.tasks[a] == before.tasks[aa]);
                        assert(after.tasks[b] == before.tasks[bb]);
                    }
                    assert forall|a: int| 0 <= a < after.tasks.len() implies after.tasks[a].id
                        < after.next_id by {
                        let aa = if a < i { a } else { a + 1 };
                        assert(after.tasks[a] == before.tasks[aa]);
                    }
                }
                std::mem::swap(&mut self.tasks, &mut tasks);
                Ok(())
            },
        }
    }
}

/// The whole store: the user table and the task table. Either can be taken
/// out and guarded by its own lock.
pub struct Server {
    pub users: UserTable,
    pub tasks: TaskTable,
}

impl View for Server {
    type V = StoreView;

    open spec fn view(&self) -> StoreView {
        StoreView { users: self.users@, tasks: self.tasks@.tasks, next_id: self.tasks@.next_id }
    }
}

impl Server {
    /// An empty store whose first task gets id 1.
    pub fn new() -> (r: Server)
        ensures
            r@ == (StoreView { users: seq![], tasks: seq![], next_id: 1 }),
            store_wf(r@),
    {
        Server { users: UserTable::new(), tasks: TaskTable::new() }
    }
}

} // verus!
