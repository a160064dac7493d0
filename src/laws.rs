//! What holds of the dispatch over any store and any request, proved from
//! `route`, the rule `Server::handle_request` follows.

use vstd::prelude::*;
use crate::json::json_string_field;
use crate::request::{method_of, path_of, body_of, header_of};
use crate::response::{STATUS_OK, STATUS_CONFLICT};
use crate::router::{
    route, register_route, task_route, reply, auth_failure_text, unauthorized_text, not_found_text,
    task_id_text, MISSING_CREDENTIALS, USER_EXISTS, TASK_DELETED,
};
use crate::store::{
    StoreView, TasksView, store_wf, users_wf, tasks_wf, find_user, find_task, authenticated,
    lemma_find_user_from, lemma_find_task_from, with_user, with_task, with_tasks, tasks_of,
};
use crate::task::{TaskView, tasks_json};
use crate::text::parse_decimal;
use crate::user::basic_credentials;

verus! {

/// The name and password a request's `Authorization` header carries.
pub open spec fn credentials_in(req: Seq<char>) -> Option<(Seq<char>, Seq<char>)> {
    match header_of(req, "Authorization"@) {
        Some(value) => basic_credentials(value),
        None => None,
    }
}

/// Whether `req` is `POST /users` with a body naming `name` and `password`.
pub open spec fn is_registration(req: Seq<char>, name: Seq<char>, password: Seq<char>) -> bool {
    &&& method_of(req) == "POST"@
    &&& path_of(req) == "/users"@
    &&& body_of(req).len() > 0
    &&& json_string_field(body_of(req), "username"@) == Some(name)
    &&& json_string_field(body_of(req), "password"@) == Some(password)
}

/// Whether `req` is `method /tasks/{id}`.
pub open spec fn targets_task(req: Seq<char>, method: Seq<char>, id: nat) -> bool {
    &&& method_of(req) == method
    &&& task_id_text(path_of(req)) matches Some(t)
    &&& parse_decimal(t) matches Some(n)
    &&& n as nat == id
}

proof fn lemma_literals_differ()
    ensures
        "GET"@ != "POST"@,
        "PUT"@ != "POST"@,
        "DELETE"@ != "POST"@,
        "PUT"@ != "GET"@,
        "DELETE"@ != "GET"@,
        "DELETE"@ != "PUT"@,
        "/tasks"@ != "/users"@,
{
    reveal_strlit("/tasks");
    reveal_strlit("/users");
    assert("/tasks"@[1] != "/users"@[1]);
    reveal_strlit("GET");
    reveal_strlit("POST");
    reveal_strlit("PUT");
    reveal_strlit("DELETE");
    assert("GET"@.len() != "POST"@.len());
    assert("PUT"@.len() != "POST"@.len());
    assert("DELETE"@.len() != "POST"@.len());
    assert("PUT"@[0] != "GET"@[0]);
    assert("DELETE"@.len() != "GET"@.len());
    assert("DELETE"@.len() != "PUT"@.len());
}

/// Once a name is registered, registering it again, with any password, is
/// answered 409 and changes nothing.
pub proof fn law_register_twice_conflicts(
    s: StoreView,
    first: Seq<char>,
    hash: Seq<char>,
    second: Seq<char>,
    fresh: Option<Seq<char>>,
    name: Seq<char>,
    password: Seq<char>,
    other_password: Seq<char>,
)
    requires
        is_registration(first, name, password),
        is_registration(second, name, other_password),
        name.len() > 0,
        password.len() > 0,
        other_password.len() > 0,
    ensures
        ({
            let after = route(s, first, Some(hash)).0;
            route(after, second, fresh) == (after, Ok::<Seq<char>, crate::router::RequestFault>(
                reply(STATUS_CONFLICT@, USER_EXISTS@),
            ))
        }),
{
    let after = route(s, first, Some(hash)).0;
    if find_user(s.users, name) is None {
        assert(after.users == with_user(s.users, name, hash));
        lemma_find_user_from(after.users, name, 0);
        assert(after.users[after.users.len() - 1].0 == name);
    }
    lemma_find_user_from(after.users, name, 0);
}

/// A registration whose name or password is empty is answered 200 with an
/// error body, not 400, and changes nothing.
pub proof fn law_empty_credentials_answered_ok(
    s: StoreView,
    req: Seq<char>,
    fresh: Option<Seq<char>>,
    name: Seq<char>,
    password: Seq<char>,
)
    requires
        is_registration(req, name, password),
        name.len() == 0 || password.len() == 0,
    ensures
        route(s, req, fresh) == (s, Ok::<Seq<char>, crate::router::RequestFault>(
            reply(STATUS_OK@, MISSING_CREDENTIALS@),
        )),
{
}

/// A user who does not own a task can neither change nor delete it: both are
/// answered 401, and the store stays as it was.
pub proof fn law_foreign_task_unauthorized(
    s: StoreView,
    req: Seq<char>,
    fresh: Option<Seq<char>>,
    method: Seq<char>,
    id: nat,
    user: Seq<char>,
    password: Seq<char>,
)
    requires
        method == "PUT"@ || method == "DELETE"@,
        targets_task(req, method, id),
        method == "PUT"@ ==> body_of(req).len() > 0,
        credentials_in(req) == Some((user, password)),
        authenticated(s.users, user, password),
        find_task(s.tasks, id) matches Some(i) && s.tasks[i].owner != user,
    ensures
        route(s, req, fresh) == (s, Ok::<Seq<char>, crate::router::RequestFault>(unauthorized_text())),
{
    lemma_literals_differ();
}

/// Changing or deleting a task id that does not exist is answered 404, for
/// every authenticated user alike.
pub proof fn law_missing_task_not_found(
    s: StoreView,
    req: Seq<char>,
    fresh: Option<Seq<char>>,
    method: Seq<char>,
    id: nat,
    user: Seq<char>,
    password: Seq<char>,
)
    requires
        method == "PUT"@ || method == "DELETE"@,
        targets_task(req, method, id),
        method == "PUT"@ ==> body_of(req).len() > 0,
        credentials_in(req) == Some((user, password)),
        authenticated(s.users, user, password),
        find_task(s.tasks, id) is None,
    ensures
        route(s, req, fresh) == (s, Ok::<Seq<char>, crate::router::RequestFault>(not_found_text())),
{
    lemma_literals_differ();
}

/// `GET /tasks` without an `Authorization` header is answered 401.
pub proof fn law_listing_needs_credentials(s: StoreView, req: Seq<char>, fresh: Option<Seq<char>>)
    requires
        method_of(req) == "GET"@,
        path_of(req) == "/tasks"@,
        header_of(req, "Authorization"@) is None,
    ensures
        route(s, req, fresh) == (s, Ok::<Seq<char>, crate::router::RequestFault>(unauthorized_text())),
{
    lemma_literals_differ();
}

/// Outside registration, an `Authorization` header that is no Basic credential
/// of a registered user is answered 404, as an unknown route would be.
pub proof fn law_bad_credentials_not_found(s: StoreView, req: Seq<char>, fresh: Option<Seq<char>>)
    requires
        !(method_of(req) == "POST"@ && path_of(req) == "/users"@),
        header_of(req, "Authorization"@) is Some,
        match credentials_in(req) {
            Some(c) => !authenticated(s.users, c.0, c.1),
            None => true,
        },
    ensures
        route(s, req, fresh) == (s, Ok::<Seq<char>, crate::router::RequestFault>(auth_failure_text())),
{
}

/// On an empty store, creating a task with content `content` and then listing
/// the tasks shows exactly that task: its id, its content, not completed, and
/// its creator as owner.
pub proof fn law_create_then_list(
    s: StoreView,
    create: Seq<char>,
    list: Seq<char>,
    fresh: Option<Seq<char>>,
    content: Seq<char>,
    user: Seq<char>,
    password: Seq<char>,
    lister: Seq<char>,
    lister_password: Seq<char>,
)
    requires
        s.tasks.len() == 0,
        s.next_id < usize::MAX,
        method_of(create) == "POST"@,
        path_of(create) == "/tasks"@,
        json_string_field(body_of(create), "content"@) == Some(content),
        content.len() > 0,
        credentials_in(create) == Some((user, password)),
        authenticated(s.users, user, password),
        method_of(list) == "GET"@,
        path_of(list) == "/tasks"@,
        credentials_in(list) == Some((lister, lister_password)),
        authenticated(s.users, lister, lister_password),
    ensures
        ({
            let after = route(s, create, fresh).0;
            route(after, list, fresh).1 == Ok::<Seq<char>, crate::router::RequestFault>(
                reply(
                    STATUS_OK@,
                    tasks_json(
                        seq![TaskView { id: s.next_id, content, completed: false, owner: user }],
                    ),
                ),
            )
        }),
{
    lemma_literals_differ();
    let after = route(s, create, fresh).0;
    assert(after == with_tasks(s, with_task(tasks_of(s), content, user)));
    assert(after.users == s.users);
    assert(after.tasks =~= seq![TaskView { id: s.next_id, content, completed: false, owner: user }]);
}

/// The owner deletes a task: it is answered 200 and the task is gone, so
/// deleting it again is answered 404. The store is well formed, as every store
/// a `Server` holds is (`Server::handle_request` ensures it before and after).
pub proof fn law_delete_twice_not_found(
    s: StoreView,
    req: Seq<char>,
    fresh: Option<Seq<char>>,
    id: nat,
    user: Seq<char>,
    password: Seq<char>,
)
    requires
        store_wf(s),
        targets_task(req, "DELETE"@, id),
        credentials_in(req) == Some((user, password)),
        authenticated(s.users, user, password),
        find_task(s.tasks, id) matches Some(i) && s.tasks[i].owner == user,
    ensures
        route(s, req, fresh).1 == Ok::<Seq<char>, crate::router::RequestFault>(
            reply(STATUS_OK@, TASK_DELETED@),
        ),
        ({
            let after = route(s, req, fresh).0;
            route(after, req, fresh) == (after, Ok::<Seq<char>, crate::router::RequestFault>(
                not_found_text(),
            ))
        }),
{
    lemma_literals_differ();
    lemma_find_task_from(s.tasks, id, 0);
    let after = route(s, req, fresh).0;
    let i = find_task(s.tasks, id)->0;
    assert(after == StoreView { tasks: s.tasks.remove(i), ..s });
    lemma_find_task_from(after.tasks, id, 0);
    assert forall|k: int| 0 <= k < after.tasks.len() implies after.tasks[k].id != id by {
        if k < i {
            assert(after.tasks[k] == s.tasks[k]);
        } else {
            assert(after.tasks[k] == s.tasks[k + 1]);
        }
    }
}

proof fn lemma_register_route_wf(
    users: Seq<(Seq<char>, Seq<char>)>,
    body: Seq<char>,
    fresh: Option<Seq<char>>,
)
    requires
        users_wf(users),
    ensures
        users_wf(register_route(users, body, fresh).0),
{
    let after = register_route(users, body, fresh).0;
    if after != users {
        let name = json_string_field(body, "username"@)->0;
        lemma_find_user_from(users, name, 0);
        assert(after == with_user(users, name, fresh->0));
        assert forall|i: int, j: int| 0 <= i < j < after.len() implies after[i].0 != after[j].0 by {
            if j == users.len() {
                assert(after[i] == users[i]);
            }
        }
    }
}

proof fn lemma_task_route_wf(
    s: TasksView,
    method: Seq<char>,
    path: Seq<char>,
    body: Seq<char>,
    user: Seq<char>,
)
    requires
        tasks_wf(s),
    ensures
        tasks_wf(task_route(s, method, path, body, user).0),
{
    let after = task_route(s, method, path, body, user).0;
    if method == "POST"@ && path == "/tasks"@ {
        if after != s {
            let content = json_string_field(body, "content"@)->0;
            assert(after == with_task(s, content, user));
            assert forall|i: int, j: int| 0 <= i < j < after.tasks.len() implies after.tasks[i].id
                < after.tasks[j].id by {
                if j == s.tasks.len() {
                    assert(after.tasks[i] == s.tasks[i]);
                }
            }
        }
    } else if method == "GET"@ && path == "/tasks"@ {
    } else if (method == "PUT"@ || method == "DELETE"@) && task_id_text(path) is Some {
        if after != s {
            let id = parse_decimal(task_id_text(path)->0)->0;
            lemma_find_task_from(s.tasks, id as nat, 0);
            let k = find_task(s.tasks, id as nat)->0;
            if method == "PUT"@ {
                assert forall|i: int| 0 <= i < after.tasks.len() implies after.tasks[i].id
                    == s.tasks[i].id by {
                    if i == k {
                    }
                }
            } else {
                assert(after.tasks == s.tasks.remove(k));
                assert forall|i: int, j: int| 0 <= i < j < after.tasks.len() implies after.tasks[i].id
                    < after.tasks[j].id by {
                    let ii = if i < k {
                        i
                    } else {
                        i + 1
                    };
                    let jj = if j < k {
                        j
                    } else {
                        j + 1
                    };
                    assert(after.tasks[i] == s.tasks[ii]);
                    assert(after.tasks[j] == s.tasks[jj]);
                }
                assert forall|i: int| 0 <= i < after.tasks.len() implies after.tasks[i].id
                    < after.next_id by {
                    let ii = if i < k {
                        i
                    } else {
                        i + 1
                    };
                    assert(after.tasks[i] == s.tasks[ii]);
                }
            }
        }
    }
}

/// Every request keeps the store well formed: names stay unique, ids stay
/// unique, increasing, and below the counter.
pub proof fn law_route_keeps_store_wf(s: StoreView, req: Seq<char>, fresh: Option<Seq<char>>)
    requires
        store_wf(s),
    ensures
        store_wf(route(s, req, fresh).0),
{
    lemma_register_route_wf(s.users, body_of(req), fresh);
    match credentials_in(req) {
        Some(c) => lemma_task_route_wf(tasks_of(s), method_of(req), path_of(req), body_of(req), c.0),
        None => {},
    }
}

} // verus!
