//! Dispatch: from a request and the store to a response and the next store.

use vstd::prelude::*;
use crate::json::{json_string_field, json_bool_field, string_field, bool_field};
use crate::request::{Request, method_of, path_of, body_of, header_of};
use crate::response::{
    ResponseBuilder, response_text, STATUS_OK, STATUS_BAD_REQUEST, STATUS_UNAUTHORIZED,
    STATUS_NOT_FOUND, STATUS_CONFLICT, CONTENT_TYPE_JSON, NOT_FOUND_BODY, UNAUTHORIZED_BODY,
};
use crate::store::{
    Server, StoreView, TasksView, UserTable, TaskTable, StoreError, authenticated, task_access, store_wf,
    with_user, with_task, with_tasks, tasks_of, task_updated, find_user,
};
use crate::task::tasks_json;
use crate::text::{chars_of, chars_equal, starts_with, slice_of, parse_usize, parse_decimal};
use crate::user::{User, basic_credentials, decode_basic, password_matches, bcrypt_hash_at};

verus! {

pub const EMPTY_BODY: &'static str = "{\"error\":\"Empty body\"}";

pub const MISSING_USERNAME: &'static str = "{\"error\":\"Missing username\"}";

pub const MISSING_PASSWORD: &'static str = "{\"error\":\"Missing password\"}";

/// Sent with status 200, not 400, when a name or password is empty.
pub const MISSING_CREDENTIALS: &'static str = "{\"error\":\"Missing username or password\"}";

pub const USER_EXISTS: &'static str = "{\"error\":\"User already exists\"}";

pub const USER_CREATED: &'static str = "{\"status\":\"User created\"}";

pub const TASK_CREATED: &'static str = "{\"status\":\"Task created\"}";

pub const TASK_UPDATED: &'static str = "{\"status\":\"Task updated\"}";

pub const TASK_DELETED: &'static str = "{\"status\":\"Task deleted\"}";

/// The start of the path of a single task; its id follows.
pub const TASK_PATH_PREFIX: &'static str = "/tasks/";

/// A request that gets no response: the connection that carried it is closed.
#[derive(Debug, PartialEq, Eq, Structural)]
pub enum RequestFault {
    /// The id in a `/tasks/{id}` path is not an unsigned number.
    MalformedTaskId,
    /// No salt could be drawn to hash a new password.
    HashUnavailable,
    /// Every task id has been handed out.
    IdsExhausted,
}

/// A JSON response with the given status and body.
pub open spec fn reply(status: Seq<char>, body: Seq<char>) -> Seq<char> {
    response_text(status, CONTENT_TYPE_JSON@, body)
}

/// What a caller gets when the credentials fail: the same as for an unknown
/// route, so that a failed login and a wrong path look alike.
pub open spec fn auth_failure_text() -> Seq<char> {
    reply(STATUS_NOT_FOUND@, NOT_FOUND_BODY@)
}

/// What a caller gets without credentials, or on a task owned by someone else.
pub open spec fn unauthorized_text() -> Seq<char> {
    reply(STATUS_UNAUTHORIZED@, UNAUTHORIZED_BODY@)
}

pub open spec fn not_found_text() -> Seq<char> {
    reply(STATUS_NOT_FOUND@, NOT_FOUND_BODY@)
}

/// The id part of a `/tasks/{id}` path.
pub open spec fn task_id_text(path: Seq<char>) -> Option<Seq<char>> {
    let prefix = TASK_PATH_PREFIX@;
    if prefix.len() <= path.len() && path.subrange(0, prefix.len() as int) == prefix {
        Some(path.subrange(prefix.len() as int, path.len() as int))
    } else {
        None
    }
}

/// `POST /users`: checks the body, then adds the user with the hash `fresh`
/// that was made of the password (none when hashing failed).
pub open spec fn register_route(
    users: Seq<(Seq<char>, Seq<char>)>,
    body: Seq<char>,
    fresh: Option<Seq<char>>,
) -> (Seq<(Seq<char>, Seq<char>)>, Result<Seq<char>, RequestFault>) {
    if body.len() == 0 {
        (users, Ok(reply(STATUS_BAD_REQUEST@, EMPTY_BODY@)))
    } else {
        match json_string_field(body, "username"@) {
            None => (users, Ok(reply(STATUS_BAD_REQUEST@, MISSING_USERNAME@))),
            Some(name) => match json_string_field(body, "password"@) {
                None => (users, Ok(reply(STATUS_BAD_REQUEST@, MISSING_PASSWORD@))),
                Some(password) => if name.len() == 0 || password.len() == 0 {
                    (users, Ok(reply(STATUS_OK@, MISSING_CREDENTIALS@)))
                } else if find_user(users, name) is Some {
                    (users, Ok(reply(STATUS_CONFLICT@, USER_EXISTS@)))
                } else {
                    match fresh {
                        Some(hash) => (with_user(users, name, hash), Ok(reply(STATUS_OK@, USER_CREATED@))),
                        None => (users, Err(RequestFault::HashUnavailable)),
                    }
                },
            },
        }
    }
}

/// The task routes, for the authenticated user `user`.
pub open spec fn task_route(
    t: TasksView,
    method: Seq<char>,
    path: Seq<char>,
    body: Seq<char>,
    user: Seq<char>,
) -> (TasksView, Result<Seq<char>, RequestFault>) {
    if method == "POST"@ && path == "/tasks"@ {
        match json_string_field(body, "content"@) {
            Some(content) => if content.len() == 0 {
                (t, Ok(reply(STATUS_BAD_REQUEST@, EMPTY_BODY@)))
            } else if t.next_id < usize::MAX {
                (with_task(t, content, user), Ok(reply(STATUS_OK@, TASK_CREATED@)))
            } else {
                (t, Err(RequestFault::IdsExhausted))
            },
            None => (t, Ok(reply(STATUS_BAD_REQUEST@, EMPTY_BODY@))),
        }
    } else if method == "GET"@ && path == "/tasks"@ {
        (t, Ok(reply(STATUS_OK@, tasks_json(t.tasks))))
    } else if (method == "PUT"@ || method == "DELETE"@) && task_id_text(path) is Some {
        match parse_decimal(task_id_text(path)->0) {
            None => (t, Err(RequestFault::MalformedTaskId)),
            Some(id) => if method == "PUT"@ && body.len() == 0 {
                (t, Ok(reply(STATUS_BAD_REQUEST@, EMPTY_BODY@)))
            } else {
                match task_access(t, id as nat, user) {
                    Err(StoreError::NotFound) => (t, Ok(not_found_text())),
                    Err(_) => (t, Ok(unauthorized_text())),
                    Ok(i) => if method == "PUT"@ {
                        (
                            TasksView {
                                tasks: t.tasks.update(
                                    i,
                                    task_updated(
                                        t.tasks[i],
                                        json_string_field(body, "content"@),
                                        json_bool_field(body, "completed"@),
                                    ),
                                ),
                                ..t
                            },
                            Ok(reply(STATUS_OK@, TASK_UPDATED@)),
                        )
                    } else {
                        (TasksView { tasks: t.tasks.remove(i), ..t }, Ok(reply(STATUS_OK@, TASK_DELETED@)))
                    },
                }
            },
        }
    } else {
        (t, Ok(not_found_text()))
    }
}

/// The first stage of dispatch, which needs only the users: either the
/// request is answered here, or it goes on to the task routes for a user.
pub enum AdmissionView {
    Answer(Seq<(Seq<char>, Seq<char>)>, Result<Seq<char>, RequestFault>),
    Admitted(Seq<char>),
}

/// Registration needs no credentials; everything else needs an
/// `Authorization` header (401 without one) carrying Basic credentials of a
/// registered user (404 otherwise).
pub open spec fn admission(users: Seq<(Seq<char>, Seq<char>)>, req: Seq<char>, fresh: Option<Seq<char>>) -> AdmissionView {
    if method_of(req) == "POST"@ && path_of(req) == "/users"@ {
        let (after, out) = register_route(users, body_of(req), fresh);
        AdmissionView::Answer(after, out)
    } else {
        match header_of(req, "Authorization"@) {
            None => AdmissionView::Answer(users, Ok(unauthorized_text())),
            Some(value) => match basic_credentials(value) {
                Some(c) => if authenticated(users, c.0, c.1) {
                    AdmissionView::Admitted(c.0)
                } else {
                    AdmissionView::Answer(users, Ok(auth_failure_text()))
                },
                None => AdmissionView::Answer(users, Ok(auth_failure_text())),
            },
        }
    }
}

/// The whole dispatch: admission, then for an admitted user the task routes.
pub open spec fn route(s: StoreView, req: Seq<char>, fresh: Option<Seq<char>>) -> (
    StoreView,
    Result<Seq<char>, RequestFault>,
) {
    match admission(s.users, req, fresh) {
        AdmissionView::Answer(users, out) => (StoreView { users, ..s }, out),
        AdmissionView::Admitted(user) => {
            let (t, out) = task_route(tasks_of(s), method_of(req), path_of(req), body_of(req), user);
            (with_tasks(s, t), out)
        },
    }
}

/// Whether `fresh` may be the hash made of the password in `body`: a bcrypt
/// hash at cost 4 that accepts that password.
pub open spec fn fresh_hash_fits_body(body: Seq<char>, fresh: Option<Seq<char>>) -> bool {
    match fresh {
        Some(hash) => bcrypt_hash_at(hash, 4) && match json_string_field(body, "password"@) {
            Some(password) => password_matches(password, hash),
            None => true,
        },
        None => true,
    }
}

/// Whether `fresh` may be the hash made while serving `req`.
pub open spec fn fresh_hash_fits(req: Seq<char>, fresh: Option<Seq<char>>) -> bool {
    fresh_hash_fits_body(body_of(req), fresh)
}

pub open spec fn outcome_view(r: Result<String, RequestFault>) -> Result<Seq<char>, RequestFault> {
    match r {
        Ok(s) => Ok(s@),
        Err(e) => Err(e),
    }
}

fn reply_exec(status: &'static str, body: &'static str) -> (r: Result<String, RequestFault>)
    ensures
        outcome_view(r) == Ok::<Seq<char>, RequestFault>(reply(status@, body@)),
{
    Ok(ResponseBuilder::new(status, CONTENT_TYPE_JSON, String::from_str(body)).build())
}

impl UserTable {
    /// `POST /users`, given the body.
    fn handle_registration(&mut self, body: &String) -> (r: Result<String, RequestFault>)
        ensures
            exists|fresh: Option<Seq<char>>|
                fresh_hash_fits_body(body@, fresh) && #[trigger] register_route(old(self)@, body@, fresh)
                    == (final(self)@, outcome_view(r)),
    {
        let ghost none: Option<Seq<char>> = None;
        if body.as_str().unicode_len() == 0 {
            let r = reply_exec(STATUS_BAD_REQUEST, EMPTY_BODY);
            assert(register_route(old(self)@, body@, none) == (self@, outcome_view(r)));
            return r;
        }
        let name = match string_field(body.as_str(), "username") {
            Some(n) => n,
            None => {
                let r = reply_exec(STATUS_BAD_REQUEST, MISSING_USERNAME);
                assert(register_route(old(self)@, body@, none) == (self@, outcome_view(r)));
                return r;
            },
        };
        let password = match string_field(body.as_str(), "password") {
            Some(p) => p,
            None => {
                let r = reply_exec(STATUS_BAD_REQUEST, MISSING_PASSWORD);
                assert(register_route(old(self)@, body@, none) == (self@, outcome_view(r)));
                return r;
            },
        };
        if name.as_str().unicode_len() == 0 || password.as_str().unicode_len() == 0 {
            let r = reply_exec(STATUS_OK, MISSING_CREDENTIALS);
            assert(register_route(old(self)@, body@, none) == (self@, outcome_view(r)));
            return r;
        }
        match self.register(name.as_str(), password.as_str()) {
            Ok(()) => {
                let ghost fresh = Some(self@.last().1);
                let r = reply_exec(STATUS_OK, USER_CREATED);
                assert(register_route(old(self)@, body@, fresh) == (self@, outcome_view(r)));
                r
            },
            Err(StoreError::Conflict) => {
                let r = reply_exec(STATUS_CONFLICT, USER_EXISTS);
                assert(register_route(old(self)@, body@, none) == (self@, outcome_view(r)));
                r
            },
            Err(_) => {
                let r: Result<String, RequestFault> = Err(RequestFault::HashUnavailable);
                assert(register_route(old(self)@, body@, none) == (self@, outcome_view(r)));
                r
            },
        }
    }

    /// The first stage of dispatch, which needs only the users: answers a
    /// registration or a request without valid credentials, and passes the
    /// rest on with the user its credentials name.
    pub fn authorize(&mut self, request: &str) -> (r: Admission)
        ensures
            exists|fresh: Option<Seq<char>>|
                fresh_hash_fits(request@, fresh) && #[trigger] admission(old(self)@, request@, fresh)
                    == admission_of(r, final(self)@),
            r matches Admission::Admitted(a) ==> {
                &&& final(self)@ == old(self)@
                &&& a.method@ == method_of(request@)
                &&& a.path@ == path_of(request@)
                &&& a.body@ == body_of(request@)
            },
    {
        let ghost none: Option<Seq<char>> = None;
        let req = Request::parse(request);
        let method = chars_of(req.method.as_str());
        let path = chars_of(req.path.as_str());
        if chars_equal(&method, "POST") && chars_equal(&path, "/users") {
            let out = self.handle_registration(&req.body);
            let r = Admission::Answer(out);
            proof {
                let fresh = choose|fresh: Option<Seq<char>>|
                    fresh_hash_fits_body(req.body@, fresh) && #[trigger] register_route(
                        old(self)@,
                        req.body@,
                        fresh,
                    ) == (self@, outcome_view(out));
                assert(admission(old(self)@, request@, fresh) == admission_of(r, self@));
                assert(fresh_hash_fits(request@, fresh));
            }
            return r;
        }
        let r = match req.header("Authorization") {
            None => Admission::Answer(Ok(ResponseBuilder::unauthorized().build())),
            Some(value) => match decode_basic(value.as_str()) {
                None => Admission::Answer(Ok(ResponseBuilder::not_found().build())),
                Some((name, password)) => match self.authenticate(name.as_str(), password.as_str()) {
                    None => Admission::Answer(Ok(ResponseBuilder::not_found().build())),
                    Some(user) => Admission::Admitted(
                        AdmittedRequest { method: req.method, path: req.path, body: req.body, user },
                    ),
                },
            },
        };
        assert(admission(old(self)@, request@, none) == admission_of(r, self@));
        r
    }
}

/// The outcome of the first stage of dispatch.
pub enum Admission {
    /// The request is answered, or its connection closed, without the tasks.
    Answer(Result<String, RequestFault>),
    /// The request goes on to the task routes.
    Admitted(AdmittedRequest),
}

/// A request whose credentials were accepted.
pub struct AdmittedRequest {
    pub method: String,
    pub path: String,
    pub body: String,
    /// The user the credentials belong to.
    pub user: User,
}

/// What the first stage decided, with the users as they are after it.
pub open spec fn admission_of(r: Admission, users: Seq<(Seq<char>, Seq<char>)>) -> AdmissionView {
    match r {
        Admission::Answer(out) => AdmissionView::Answer(users, outcome_view(out)),
        Admission::Admitted(a) => AdmissionView::Admitted(a.user.username@),
    }
}

impl TaskTable {
    /// The second stage of dispatch: the task routes for an admitted request.
    pub fn serve(&mut self, admitted: &AdmittedRequest) -> (r: Result<String, RequestFault>)
        ensures
            task_route(
                old(self)@,
                admitted.method@,
                admitted.path@,
                admitted.body@,
                admitted.user.username@,
            ) == (final(self)@, outcome_view(r)),
    {
        let method = &chars_of(admitted.method.as_str());
        let path = &chars_of(admitted.path.as_str());
        let body = &admitted.body;
        let user = &admitted.user;
        let is_post = chars_equal(method, "POST");
        let is_get = chars_equal(method, "GET");
        let is_put = chars_equal(method, "PUT");
        let is_delete = chars_equal(method, "DELETE");
        let is_tasks = chars_equal(path, "/tasks");
        if is_post && is_tasks {
            match string_field(body.as_str(), "content") {
                Some(content) => {
                    if content.as_str().unicode_len() == 0 {
                        return reply_exec(STATUS_BAD_REQUEST, EMPTY_BODY);
                    }
                    match self.create_task(content, user) {
                        Ok(_) => reply_exec(STATUS_OK, TASK_CREATED),
                        Err(_) => Err(RequestFault::IdsExhausted),
                    }
                },
                None => reply_exec(STATUS_BAD_REQUEST, EMPTY_BODY),
            }
        } else if is_get && is_tasks {
            Ok(ResponseBuilder::json(self.tasks_json()).build())
        } else if (is_put || is_delete) && starts_with(path, TASK_PATH_PREFIX) {
            let skip = TASK_PATH_PREFIX.unicode_len();
            let id_text = slice_of(path, skip, path.len());
            match parse_usize(&id_text) {
                None => Err(RequestFault::MalformedTaskId),
                Some(id) => {
                    if is_put {
                        if body.as_str().unicode_len() == 0 {
                            return reply_exec(STATUS_BAD_REQUEST, EMPTY_BODY);
                        }
                        let content = string_field(body.as_str(), "content");
                        let completed = bool_field(body.as_str(), "completed");
                        match self.update_task(id, user.username.as_str(), content, completed) {
                            Ok(()) => reply_exec(STATUS_OK, TASK_UPDATED),
                            Err(StoreError::NotFound) => Ok(ResponseBuilder::not_found().build()),
                            Err(_) => Ok(ResponseBuilder::unauthorized().build()),
                        }
                    } else {
                        match self.delete_task(id, user.username.as_str()) {
                            Ok(()) => reply_exec(STATUS_OK, TASK_DELETED),
                            Err(StoreError::NotFound) => Ok(ResponseBuilder::not_found().build()),
                            Err(_) => Ok(ResponseBuilder::unauthorized().build()),
                        }
                    }
                },
            }
        } else {
            Ok(ResponseBuilder::not_found().build())
        }
    }
}

impl Server {
    /// Serves one request: the response to send back, or the fault for which
    /// the connection is closed without one.
    pub fn handle_request(&mut self, request: &str) -> (r: Result<String, RequestFault>)
        ensures
            store_wf(old(self)@),
            store_wf(final(self)@),
            exists|fresh: Option<Seq<char>>|
                fresh_hash_fits(request@, fresh) && #[trigger] route(old(self)@, request@, fresh) == (
                    final(self)@,
                    outcome_view(r),
                ),
    {
        proof {
            use_type_invariant(&self.users);
            use_type_invariant(&self.tasks);
        }
        let admitted = self.users.authorize(request);
        let ghost decided = admission_of(admitted, self.users@);
        let r = match admitted {
            Admission::Answer(out) => out,
            Admission::Admitted(a) => self.tasks.serve(&a),
        };
        proof {
            let fresh = choose|fresh: Option<Seq<char>>|
                fresh_hash_fits(request@, fresh) && #[trigger] admission(old(self)@.users, request@, fresh)
                    == decided;
            assert(route(old(self)@, request@, fresh) == (self@, outcome_view(r)));
            use_type_invariant(&self.users);
            use_type_invariant(&self.tasks);
        }
        r
    }
}

} // verus!
