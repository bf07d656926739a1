//! The dispatcher: a raw request is matched by literal prefix onto one of
//! five operations (the `/users/all` listing is tried before the general
//! single-resource read, so it is never shadowed), its inputs are parsed,
//! the table operation runs, and the outcome is formatted. `handle` runs a
//! whole request against the in-memory table; `plan` and the `respond_*`
//! functions expose the same decisions to a caller that keeps its table
//! elsewhere and only runs the SQL itself.
use vstd::prelude::*;
use vstd::string::StrSliceExecFns;
use crate::http::{sp_starts, sp_id, sp_body, starts_with, get_id, body_of};
use crate::json::{sp_user, sp_enc_row, sp_enc_rows, parse_user, encode_row, encode_rows};
use crate::num::{sp_parse_i32, parse_i32};
use crate::response::{Status, Response, msg_created, msg_updated, msg_deleted, msg_user_not_found,
    msg_not_found, msg_error, msg_invalid_id, msg_conn_error};
use crate::store::{Store, StoreV, Row, RowV, wf, wf_rows, contains_id, sp_lookup, sp_update,
    sp_delete, rows_v, lemma_delete_preserves_wf, lemma_delete_absent};

verus! {

#[derive(PartialEq, Eq, Structural, Clone, Copy, Debug)]
pub enum Route {
    Create,
    List,
    One,
    Update,
    Delete,
    Unknown,
}

pub open spec fn create_prefix() -> Seq<u8> {
    seq![
        'P' as u8,
        'O' as u8,
        'S' as u8,
        'T' as u8,
        ' ' as u8,
        '/' as u8,
        'u' as u8,
        's' as u8,
        'e' as u8,
        'r' as u8,
        's' as u8,
    ]
}

pub open spec fn list_prefix() -> Seq<u8> {
    seq![
        'G' as u8,
        'E' as u8,
        'T' as u8,
        ' ' as u8,
        '/' as u8,
        'u' as u8,
        's' as u8,
        'e' as u8,
        'r' as u8,
        's' as u8,
        '/' as u8,
        'a' as u8,
        'l' as u8,
        'l' as u8,
    ]
}

pub open spec fn one_prefix() -> Seq<u8> {
    seq![
        'G' as u8,
        'E' as u8,
        'T' as u8,
        ' ' as u8,
        '/' as u8,
        'u' as u8,
        's' as u8,
        'e' as u8,
        'r' as u8,
        's' as u8,
    ]
}

pub open spec fn update_prefix() -> Seq<u8> {
    seq![
        'P' as u8,
        'U' as u8,
        'T' as u8,
        ' ' as u8,
        '/' as u8,
        'u' as u8,
        's' as u8,
        'e' as u8,
        'r' as u8,
        's' as u8,
    ]
}

pub open spec fn delete_prefix() -> Seq<u8> {
    seq![
        'D' as u8,
        'E' as u8,
        'L' as u8,
        'E' as u8,
        'T' as u8,
        'E' as u8,
        ' ' as u8,
        '/' as u8,
        'u' as u8,
        's' as u8,
        'e' as u8,
        'r' as u8,
        's' as u8,
    ]
}

/// Which operation a raw request selects. The listing prefix is tried
/// before the single-resource read so that `GET /users/all` is never taken
/// for an ID read.
pub open spec fn sp_route(r: Seq<u8>) -> Route {
    if sp_starts(r, create_prefix()) {
        Route::Create
    } else if sp_starts(r, list_prefix()) {
        Route::List
    } else if sp_starts(r, one_prefix()) {
        Route::One
    } else if sp_starts(r, update_prefix()) {
        Route::Update
    } else if sp_starts(r, delete_prefix()) {
        Route::Delete
    } else {
        Route::Unknown
    }
}

fn prefix_create() -> (r: Vec<u8>)
    ensures
        r@ == create_prefix(),
{
    let mut v: Vec<u8> = Vec::new();
    v.push('P' as u8);
    v.push('O' as u8);
    v.push('S' as u8);
    v.push('T' as u8);
    v.push(' ' as u8);
    v.push('/' as u8);
    v.push('u' as u8);
    v.push('s' as u8);
    v.push('e' as u8);
    v.push('r' as u8);
    v.push('s' as u8);
    proof {
        assert(v@ =~= create_prefix());
    }
    v
}

fn prefix_list() -> (r: Vec<u8>)
    ensures
        r@ == list_prefix(),
{
    let mut v: Vec<u8> = Vec::new();
    v.push('G' as u8);
    v.push('E' as u8);
    v.push('T' as u8);
    v.push(' ' as u8);
    v.push('/' as u8);
    v.push('u' as u8);
    v.push('s' as u8);
    v.push('e' as u8);
    v.push('r' as u8);
    v.push('s' as u8);
    v.push('/' as u8);
    v.push('a' as u8);
    v.push('l' as u8);
    v.push('l' as u8);
    proof {
        assert(v@ =~= list_prefix());
    }
    v
}

fn prefix_one() -> (r: Vec<u8>)
    ensures
        r@ == one_prefix(),
{
    let mut v: Vec<u8> = Vec::new();
    v.push('G' as u8);
    v.push('E' as u8);
    v.push('T' as u8);
    v.push(' ' as u8);
    v.push('/' as u8);
    v.push('u' as u8);
    v.push('s' as u8);
    v.push('e' as u8);
    v.push('r' as u8);
    v.push('s' as u8);
    proof {
        assert(v@ =~= one_prefix());
    }
    v
}

fn prefix_update() -> (r: Vec<u8>)
    ensures
        r@ == update_prefix(),
{
    let mut v: Vec<u8> = Vec::new();
    v.push('P' as u8);
    v.push('U' as u8);
    v.push('T' as u8);
    v.push(' ' as u8);
    v.push('/' as u8);
    v.push('u' as u8);
    v.push('s' as u8);
    v.push('e' as u8);
    v.push('r' as u8);
    v.push('s' as u8);
    proof {
        assert(v@ =~= update_prefix());
    }
    v
}

fn prefix_delete() -> (r: Vec<u8>)
    ensures
        r@ == delete_prefix(),
{
    let mut v: Vec<u8> = Vec::new();
    v.push('D' as u8);
    v.push('E' as u8);
    v.push('L' as u8);
    v.push('E' as u8);
    v.push('T' as u8);
    v.push('E' as u8);
    v.push(' ' as u8);
    v.push('/' as u8);
    v.push('u' as u8);
    v.push('s' as u8);
    v.push('e' as u8);
    v.push('r' as u8);
    v.push('s' as u8);
    proof {
        assert(v@ =~= delete_prefix());
    }
    v
}

/// Matches the request against the five prefixes, in order.
pub fn route(req: &Vec<u8>) -> (r: Route)
    ensures
        r == sp_route(req@),
{
    let p1 = prefix_create();
    if starts_with(req, &p1) {
        return Route::Create;
    }
    let p2 = prefix_list();
    if starts_with(req, &p2) {
        return Route::List;
    }
    let p3 = prefix_one();
    if starts_with(req, &p3) {
        return Route::One;
    }
    let p4 = prefix_update();
    if starts_with(req, &p4) {
        return Route::Update;
    }
    let p5 = prefix_delete();
    if starts_with(req, &p5) {
        return Route::Delete;
    }
    Route::Unknown
}

/// What a request asks the table to do, or the response owed at once when
/// no table work is needed (an unroutable request, or inputs that fail to
/// parse).
pub enum Action {
    Create { name: Vec<u8>, email: Vec<u8> },
    List,
    ReadOne { id: i32 },
    Update { id: i32, name: Vec<u8>, email: Vec<u8> },
    Delete { id: i32 },
    Respond(Response),
}

/// Routes the request and parses its inputs, as each operation requires.
pub fn plan(req: &Vec<u8>) -> (a: Action)
    ensures
        match a {
            Action::Create { name, email } => sp_route(req@) == Route::Create && sp_user(
                sp_body(req@),
            ) is Some && sp_user(sp_body(req@))->0.name == name@ && sp_user(sp_body(req@))->0.email
                == email@,
            Action::List => sp_route(req@) == Route::List,
            Action::ReadOne { id } => sp_route(req@) == Route::One && sp_parse_i32(sp_id(req@))
                == Some(id),
            Action::Update { id, name, email } => sp_route(req@) == Route::Update && sp_parse_i32(
                sp_id(req@),
            ) == Some(id) && sp_user(sp_body(req@)) is Some && sp_user(sp_body(req@))->0.name
                == name@ && sp_user(sp_body(req@))->0.email == email@,
            Action::Delete { id } => sp_route(req@) == Route::Delete && sp_parse_i32(sp_id(req@))
                == Some(id),
            Action::Respond(resp) => {
                ||| (sp_route(req@) == Route::Create && sp_user(sp_body(req@)) is None
                    && resp.status == Status::Error && resp.body@ == msg_error())
                ||| (sp_route(req@) == Route::One && sp_parse_i32(sp_id(req@)) is None
                    && resp.status == Status::Error && resp.body@ == msg_invalid_id())
                ||| (sp_route(req@) == Route::Update && !(sp_parse_i32(sp_id(req@)) is Some
                    && sp_user(sp_body(req@)) is Some) && resp.status == Status::Error
                    && resp.body@ == msg_error())
                ||| (sp_route(req@) == Route::Delete && sp_parse_i32(sp_id(req@)) is None
                    && resp.status == Status::Error && resp.body@ == msg_error())
                ||| (sp_route(req@) == Route::Unknown && resp.status == Status::NotFound
                    && resp.body@ == msg_not_found())
            },
        },
{
    match route(req) {
        Route::Create => {
            let body = body_of(req);
            match parse_user(&body) {
                Some(u) => Action::Create { name: u.name, email: u.email },
                None => Action::Respond(
                    Response { status: Status::Error, body: "Error occurred".as_bytes_vec() },
                ),
            }
        },
        Route::List => Action::List,
        Route::One => {
            let seg = get_id(req);
            match parse_i32(&seg) {
                Some(id) => Action::ReadOne { id },
                None => Action::Respond(
                    Response { status: Status::Error, body: "Invalid ID format".as_bytes_vec() },
                ),
            }
        },
        Route::Update => {
            let seg = get_id(req);
            let body = body_of(req);
            match (parse_i32(&seg), parse_user(&body)) {
                (Some(id), Some(u)) => Action::Update { id, name: u.name, email: u.email },
                _ => Action::Respond(
                    Response { status: Status::Error, body: "Error occurred".as_bytes_vec() },
                ),
            }
        },
        Route::Delete => {
            let seg = get_id(req);
            match parse_i32(&seg) {
                Some(id) => Action::Delete { id },
                None => Action::Respond(
                    Response { status: Status::Error, body: "Error occurred".as_bytes_vec() },
                ),
            }
        },
        Route::Unknown => Action::Respond(
            Response { status: Status::NotFound, body: "Not found".as_bytes_vec() },
        ),
    }
}

/// The answer to a create whose `INSERT` ran without error (`ok`), or
/// failed (`!ok`).
pub fn respond_create(ok: bool) -> (r: Response)
    ensures
        ok ==> r.status == Status::Okay && r.body@ == msg_created(),
        !ok ==> r.status == Status::Error && r.body@ == msg_error(),
{
    if ok {
        Response { status: Status::Okay, body: "User created".as_bytes_vec() }
    } else {
        Response { status: Status::Error, body: "Error occurred".as_bytes_vec() }
    }
}

/// The answer to a single read: the row encoded, or 404 when none matched.
pub fn respond_read(row: Option<&Row>) -> (r: Response)
    ensures
        match row {
            Some(rw) => r.status == Status::Okay && r.body@ == sp_enc_row(rw@),
            None => r.status == Status::NotFound && r.body@ == msg_user_not_found(),
        },
{
    match row {
        Some(rw) => Response { status: Status::Okay, body: encode_row(rw) },
        None => Response { status: Status::NotFound, body: "User not found".as_bytes_vec() },
    }
}

/// The answer to a listing: every row as a JSON array.
pub fn respond_list(rows: &Vec<Row>) -> (r: Response)
    ensures
        r.status == Status::Okay,
        r.body@ == sp_enc_rows(rows_v(rows@)),
{
    Response { status: Status::Okay, body: encode_rows(rows) }
}

/// The answer to an update whose `UPDATE` ran without error, whatever the
/// affected row count, or failed.
pub fn respond_update(ok: bool) -> (r: Response)
    ensures
        ok ==> r.status == Status::Okay && r.body@ == msg_updated(),
        !ok ==> r.status == Status::Error && r.body@ == msg_error(),
{
    if ok {
        Response { status: Status::Okay, body: "User updated".as_bytes_vec() }
    } else {
        Response { status: Status::Error, body: "Error occurred".as_bytes_vec() }
    }
}

/// The answer to a delete, from its affected row count.
pub fn respond_delete(n: u64) -> (r: Response)
    ensures
        n == 0 ==> r.status == Status::NotFound && r.body@ == msg_user_not_found(),
        n != 0 ==> r.status == Status::Okay && r.body@ == msg_deleted(),
{
    if n == 0 {
        Response { status: Status::NotFound, body: "User not found".as_bytes_vec() }
    } else {
        Response { status: Status::Okay, body: "User deleted".as_bytes_vec() }
    }
}

/// The answer when the store cannot be reached for a single read.
pub fn conn_error_response() -> (r: Response)
    ensures
        r.status == Status::Error,
        r.body@ == msg_conn_error(),
{
    Response { status: Status::Error, body: "Database connection error".as_bytes_vec() }
}

/// The answer when an operation fails for any other reason.
pub fn error_response() -> (r: Response)
    ensures
        r.status == Status::Error,
        r.body@ == msg_error(),
{
    Response { status: Status::Error, body: "Error occurred".as_bytes_vec() }
}

/// A whole request's outcome over the table model.
pub ghost struct Outcome {
    pub store: StoreV,
    pub status: Status,
    pub body: Seq<u8>,
}

/// What one request does to the table and what it answers.
pub open spec fn sp_handle(req: Seq<u8>, s: StoreV) -> Outcome {
    match sp_route(req) {
        Route::Create => match sp_user(sp_body(req)) {
            Some(u) => Outcome {
                store: StoreV {
                    rows: s.rows.push(RowV { id: s.next, name: u.name, email: u.email }),
                    next: s.next + 1,
                },
                status: Status::Okay,
                body: msg_created(),
            },
            None => Outcome { store: s, status: Status::Error, body: msg_error() },
        },
        Route::List => Outcome { store: s, status: Status::Okay, body: sp_enc_rows(s.rows) },
        Route::One => match sp_parse_i32(sp_id(req)) {
            None => Outcome { store: s, status: Status::Error, body: msg_invalid_id() },
            Some(id) => if contains_id(s.rows, id as int) {
                Outcome {
                    store: s,
                    status: Status::Okay,
                    body: sp_enc_row(sp_lookup(s.rows, id as int)),
                }
            } else {
                Outcome { store: s, status: Status::NotFound, body: msg_user_not_found() }
            },
        },
        Route::Update => match (sp_parse_i32(sp_id(req)), sp_user(sp_body(req))) {
            (Some(id), Some(u)) => Outcome {
                store: StoreV {
                    rows: sp_update(s.rows, id as int, u.name, u.email),
                    next: s.next,
                },
                status: Status::Okay,
                body: msg_updated(),
            },
            _ => Outcome { store: s, status: Status::Error, body: msg_error() },
        },
        Route::Delete => match sp_parse_i32(sp_id(req)) {
            None => Outcome { store: s, status: Status::Error, body: msg_error() },
            Some(id) => Outcome {
                store: StoreV { rows: sp_delete(s.rows, id as int), next: s.next },
                status: if contains_id(s.rows, id as int) {
                    Status::Okay
                } else {
                    Status::NotFound
                },
                body: if contains_id(s.rows, id as int) {
                    msg_deleted()
                } else {
                    msg_user_not_found()
                },
            },
        },
        Route::Unknown => Outcome { store: s, status: Status::NotFound, body: msg_not_found() },
    }
}

/// Runs one request to completion against the in-memory table.
pub fn handle(req: &Vec<u8>, store: &mut Store) -> (resp: Response)
    requires
        wf(old(store)@),
        old(store)@.next < 2147483647,
    ensures
        final(store)@ == sp_handle(req@, old(store)@).store,
        resp.status == sp_handle(req@, old(store)@).status,
        resp.body@ == sp_handle(req@, old(store)@).body,
        wf(final(store)@),
{
    let a = plan(req);
    match a {
        Action::Create { name, email } => {
            let _id = store.insert(name, email);
            respond_create(true)
        },
        Action::List => {
            let rows = store.query_all();
            respond_list(rows)
        },
        Action::ReadOne { id } => {
            let found = store.query_one(id);
            respond_read(found)
        },
        Action::Update { id, name, email } => {
            let _n = store.update(id, name, email);
            respond_update(true)
        },
        Action::Delete { id } => {
            let n = store.delete(id);
            respond_delete(n)
        },
        Action::Respond(r) => r,
    }
}

// ---------------------------------------------------------------------------
// Properties of the service as a whole
// ---------------------------------------------------------------------------
/// Reading an ID that no stored row holds answers 404 with `User not
/// found` and leaves the table unchanged.
pub proof fn law_read_absent(req: Seq<u8>, s: StoreV, id: i32)
    requires
        sp_route(req) == Route::One,
        sp_parse_i32(sp_id(req)) == Some(id),
        !contains_id(s.rows, id as int),
    ensures
        sp_handle(req, s).status == Status::NotFound,
        sp_handle(req, s).body == msg_user_not_found(),
        sp_handle(req, s).store == s,
{
}

/// An update with a well-formed ID and body answers 200 with `User
/// updated` even when no row holds the ID; in that case the table is
/// unchanged.
pub proof fn law_update_reports_success(req: Seq<u8>, s: StoreV, id: i32)
    requires
        sp_route(req) == Route::Update,
        sp_parse_i32(sp_id(req)) == Some(id),
        sp_user(sp_body(req)) is Some,
    ensures
        sp_handle(req, s).status == Status::Okay,
        sp_handle(req, s).body == msg_updated(),
        sp_handle(req, s).store.rows.len() == s.rows.len(),
        !contains_id(s.rows, id as int) ==> sp_handle(req, s).store == s,
{
    if !contains_id(s.rows, id as int) {
        let u = sp_user(sp_body(req))->0;
        let upd = sp_update(s.rows, id as int, u.name, u.email);
        assert forall|t: int| 0 <= t < s.rows.len() implies #[trigger] upd[t] == s.rows[t] by {
            if s.rows[t].id == id as int {
                assert(contains_id(s.rows, id as int));
            }
        }
        assert(upd =~= s.rows);
    }
}

/// Deleting a present ID answers 200 with `User deleted`; a second delete
/// of the same ID then answers 404: the first delete removed the row.
pub proof fn law_delete_twice(req: Seq<u8>, s: StoreV, id: i32)
    requires
        wf_rows(s.rows, s.next),
        sp_route(req) == Route::Delete,
        sp_parse_i32(sp_id(req)) == Some(id),
        contains_id(s.rows, id as int),
    ensures
        sp_handle(req, s).status == Status::Okay,
        sp_handle(req, s).body == msg_deleted(),
        sp_handle(req, sp_handle(req, s).store).status == Status::NotFound,
        sp_handle(req, sp_handle(req, s).store).body == msg_user_not_found(),
        sp_handle(req, sp_handle(req, s).store).store == sp_handle(req, s).store,
{
    lemma_delete_preserves_wf(s.rows, id as int, s.next);
    let left = sp_delete(s.rows, id as int);
    lemma_delete_absent(left, id as int);
}

/// `GET /users/all` always reaches the listing: it is never taken for a
/// single-resource read, and answers 200 with every row encoded, in order,
/// leaving the table unchanged.
pub proof fn law_list_not_shadowed(req: Seq<u8>, s: StoreV)
    requires
        sp_starts(req, list_prefix()),
    ensures
        sp_route(req) == Route::List,
        sp_handle(req, s).status == Status::Okay,
        sp_handle(req, s).body == sp_enc_rows(s.rows),
        sp_handle(req, s).store == s,
{
    assert(req.subrange(0, 14)[0] == 'G' as u8);
    assert(req[0] == 'G' as u8);
    if sp_starts(req, create_prefix()) {
        assert(req.subrange(0, 11)[0] == 'P' as u8);
        assert(req[0] == 'P' as u8);
    }
}

/// A create with a well-formed body answers 200 with `User created` and
/// appends exactly one row, holding the submitted name and email under the
/// next serial ID.
pub proof fn law_create_appends(req: Seq<u8>, s: StoreV)
    requires
        sp_route(req) == Route::Create,
        sp_user(sp_body(req)) is Some,
    ensures
        sp_handle(req, s).status == Status::Okay,
        sp_handle(req, s).body == msg_created(),
        sp_handle(req, s).store.rows == s.rows.push(
            (RowV {
                id: s.next,
                name: sp_user(sp_body(req))->0.name,
                email: sp_user(sp_body(req))->0.email,
            }),
        ),
        sp_handle(req, s).store.rows.len() == s.rows.len() + 1,
{
}

/// A created user is read back under the assigned ID with the same name
/// and email.
pub proof fn law_create_then_read(req1: Seq<u8>, req2: Seq<u8>, s: StoreV, id: i32)
    requires
        wf_rows(s.rows, s.next),
        sp_route(req1) == Route::Create,
        sp_user(sp_body(req1)) is Some,
        sp_route(req2) == Route::One,
        sp_parse_i32(sp_id(req2)) == Some(id),
        id as int == s.next,
    ensures
        sp_handle(req1, s).status == Status::Okay,
        sp_handle(req2, sp_handle(req1, s).store).status == Status::Okay,
        sp_handle(req2, sp_handle(req1, s).store).body == sp_enc_row(
            (RowV {
                id: s.next,
                name: sp_user(sp_body(req1))->0.name,
                email: sp_user(sp_body(req1))->0.email,
            }),
        ),
{
    let u = sp_user(sp_body(req1))->0;
    let row = RowV { id: s.next, name: u.name, email: u.email };
    let grown = s.rows.push(row);
    assert(grown[grown.len() - 1] == row);
    assert(contains_id(grown, id as int));
    let w = choose|i: int| 0 <= i < grown.len() && (#[trigger] grown[i].id) == id as int;
    if w < s.rows.len() {
        assert(grown[w] == s.rows[w]);
        assert(s.rows[w].id < s.next);
    }
    assert(w == grown.len() - 1);
    assert(sp_lookup(grown, id as int) == row);
}

/// A create or update whose body does not decode answers 500 with `Error
/// occurred` and leaves the table unchanged.
pub proof fn law_malformed_body(req: Seq<u8>, s: StoreV)
    requires
        sp_route(req) == Route::Create || sp_route(req) == Route::Update,
        sp_user(sp_body(req)) is None,
    ensures
        sp_handle(req, s).status == Status::Error,
        sp_handle(req, s).body == msg_error(),
        sp_handle(req, s).store == s,
{
}

/// A single read whose ID segment is not a well-formed `i32` answers 500
/// with `Invalid ID format` and leaves the table unchanged.
pub proof fn law_bad_id_segment(req: Seq<u8>, s: StoreV)
    requires
        sp_route(req) == Route::One,
        sp_parse_i32(sp_id(req)) is None,
    ensures
        sp_handle(req, s).status == Status::Error,
        sp_handle(req, s).body == msg_invalid_id(),
        sp_handle(req, s).store == s,
{
}

} // verus!
