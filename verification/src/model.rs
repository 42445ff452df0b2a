//! The service's record shapes — health status, users and posts — with
//! their JSON decoders and encoders.
//!
//! Decoding follows the usual record rules: unknown fields are ignored, a
//! missing or mistyped required field rejects the value, and so does a
//! required field given twice.  Encoding is pinned down to the exact
//! character sequence by [`health_json`], [`user_json`] and [`post_json`].

use vstd::prelude::*;

use crate::json::{jv_of, jv_of_fields, lemma_jv_of_fields_props, JsonValue, Jv};
use crate::text::{dec_int, push_dec_i64, push_quoted, push_str_chars, quoted, str_eq};

verus! {

/// Health report: `{ status, version }`.
pub struct HealthStatus {
    pub status: String,
    pub version: String,
}

/// A user record: `{ id, name, email }`.
pub struct User {
    pub id: i32,
    pub name: String,
    pub email: String,
}

/// A post record: `{ id, user_id, title, body }`.
pub struct Post {
    pub id: i32,
    pub user_id: i32,
    pub title: String,
    pub body: String,
}

pub struct HealthV {
    pub status: Seq<char>,
    pub version: Seq<char>,
}

pub struct UserV {
    pub id: int,
    pub name: Seq<char>,
    pub email: Seq<char>,
}

pub struct PostV {
    pub id: int,
    pub user_id: int,
    pub title: Seq<char>,
    pub body: Seq<char>,
}

impl View for HealthStatus {
    type V = HealthV;

    open spec fn view(&self) -> HealthV {
        HealthV { status: self.status@, version: self.version@ }
    }
}

impl View for User {
    type V = UserV;

    open spec fn view(&self) -> UserV {
        UserV { id: self.id as int, name: self.name@, email: self.email@ }
    }
}

impl View for Post {
    type V = PostV;

    open spec fn view(&self) -> PostV {
        PostV {
            id: self.id as int,
            user_id: self.user_id as int,
            title: self.title@,
            body: self.body@,
        }
    }
}

// ---------------------------------------------------------------------------
// Decoding records from JSON values
// ---------------------------------------------------------------------------

/// Whether a JSON number fits an `i32` record field.
pub open spec fn fits_i32(v: int) -> bool {
    -0x8000_0000 <= v <= 0x7fff_ffff
}

pub struct UserAcc {
    pub id: Option<int>,
    pub name: Option<Seq<char>>,
    pub email: Option<Seq<char>>,
}

/// Folds one object member into the fields of a user record: a known key
/// must come once, with the right type; an unknown key is ignored.
pub open spec fn user_field(acc: UserAcc, f: (Seq<char>, Jv)) -> Option<UserAcc> {
    if f.0 == "id"@ {
        match f.1 {
            Jv::Int(v) => if acc.id is None && fits_i32(v) {
                Some(UserAcc { id: Some(v), name: acc.name, email: acc.email })
            } else {
                None
            },
            _ => None,
        }
    } else if f.0 == "name"@ {
        match f.1 {
            Jv::Str(t) => if acc.name is None {
                Some(UserAcc { id: acc.id, name: Some(t), email: acc.email })
            } else {
                None
            },
            _ => None,
        }
    } else if f.0 == "email"@ {
        match f.1 {
            Jv::Str(t) => if acc.email is None {
                Some(UserAcc { id: acc.id, name: acc.name, email: Some(t) })
            } else {
                None
            },
            _ => None,
        }
    } else {
        Some(acc)
    }
}

pub open spec fn user_scan(fs: Seq<(Seq<char>, Jv)>) -> Option<UserAcc>
    decreases fs.len(),
{
    if fs.len() == 0 {
        Some(UserAcc { id: None, name: None, email: None })
    } else {
        match user_scan(fs.drop_last()) {
            None => None,
            Some(acc) => user_field(acc, fs.last()),
        }
    }
}

/// The user record a JSON value denotes, if it is an object with exactly
/// the required fields (unknown fields aside).
pub open spec fn user_of_fields(fs: Seq<(Seq<char>, Jv)>) -> Option<UserV> {
    match user_scan(fs) {
        Some(acc) => match (acc.id, acc.name, acc.email) {
            (Some(id), Some(name), Some(email)) => Some(
                UserV { id: id, name: name, email: email },
            ),
            _ => None,
        },
        None => None,
    }
}

pub open spec fn user_of_jv(j: Jv) -> Option<UserV> {
    match j {
        Jv::Obj(fs) => user_of_fields(fs),
        _ => None,
    }
}

pub struct PostAcc {
    pub id: Option<int>,
    pub user_id: Option<int>,
    pub title: Option<Seq<char>>,
    pub body: Option<Seq<char>>,
}

pub open spec fn post_field(acc: PostAcc, f: (Seq<char>, Jv)) -> Option<PostAcc> {
    if f.0 == "id"@ {
        match f.1 {
            Jv::Int(v) => if acc.id is None && fits_i32(v) {
                Some(PostAcc { id: Some(v), user_id: acc.user_id, title: acc.title, body: acc.body })
            } else {
                None
            },
            _ => None,
        }
    } else if f.0 == "user_id"@ {
        match f.1 {
            Jv::Int(v) => if acc.user_id is None && fits_i32(v) {
                Some(PostAcc { id: acc.id, user_id: Some(v), title: acc.title, body: acc.body })
            } else {
                None
            },
            _ => None,
        }
    } else if f.0 == "title"@ {
        match f.1 {
            Jv::Str(t) => if acc.title is None {
                Some(PostAcc { id: acc.id, user_id: acc.user_id, title: Some(t), body: acc.body })
            } else {
                None
            },
            _ => None,
        }
    } else if f.0 == "body"@ {
        match f.1 {
            Jv::Str(t) => if acc.body is None {
                Some(PostAcc { id: acc.id, user_id: acc.user_id, title: acc.title, body: Some(t) })
            } else {
                None
            },
            _ => None,
        }
    } else {
        Some(acc)
    }
}

pub open spec fn post_scan(fs: Seq<(Seq<char>, Jv)>) -> Option<PostAcc>
    decreases fs.len(),
{
    if fs.len() == 0 {
        Some(PostAcc { id: None, user_id: None, title: None, body: None })
    } else {
        match post_scan(fs.drop_last()) {
            None => None,
            Some(acc) => post_field(acc, fs.last()),
        }
    }
}

/// Once the field scan has failed, scanning the rest cannot recover.
pub proof fn lemma_user_scan_none(fs: Seq<(Seq<char>, Jv)>, m: int)
    requires
        0 <= m <= fs.len(),
        user_scan(fs.take(m)) is None,
    ensures
        user_scan(fs) is None,
    decreases fs.len() - m,
{
    if m < fs.len() {
        assert(fs.take(m + 1).drop_last() =~= fs.take(m));
        lemma_user_scan_none(fs, m + 1);
    } else {
        assert(fs.take(m) =~= fs);
    }
}

/// The post record a sequence of object members denotes, if any.
pub open spec fn post_of_fields(fs: Seq<(Seq<char>, Jv)>) -> Option<PostV> {
    match post_scan(fs) {
        Some(acc) => match (acc.id, acc.user_id, acc.title, acc.body) {
            (Some(id), Some(user_id), Some(title), Some(body)) => Some(
                PostV { id: id, user_id: user_id, title: title, body: body },
            ),
            _ => None,
        },
        None => None,
    }
}

pub open spec fn post_of_jv(j: Jv) -> Option<PostV> {
    match j {
        Jv::Obj(fs) => post_of_fields(fs),
        _ => None,
    }
}

/// Once the field scan has failed, scanning the rest cannot recover.
pub proof fn lemma_post_scan_none(fs: Seq<(Seq<char>, Jv)>, m: int)
    requires
        0 <= m <= fs.len(),
        post_scan(fs.take(m)) is None,
    ensures
        post_scan(fs) is None,
    decreases fs.len() - m,
{
    if m < fs.len() {
        assert(fs.take(m + 1).drop_last() =~= fs.take(m));
        lemma_post_scan_none(fs, m + 1);
    } else {
        assert(fs.take(m) =~= fs);
    }
}

pub open spec fn opt_i32_v(o: Option<i32>) -> Option<int> {
    match o {
        Some(v) => Some(v as int),
        None => None,
    }
}

pub open spec fn opt_str_v(o: Option<String>) -> Option<Seq<char>> {
    match o {
        Some(s) => Some(s@),
        None => None,
    }
}

/// Reads a user record out of a parsed JSON value.
pub fn user_from_json(v: &JsonValue) -> (r: Option<User>)
    ensures
        r matches Some(u) ==> user_of_jv(jv_of(*v)) == Some(u@),
        r is None ==> user_of_jv(jv_of(*v)) is None,
{
    match v {
        JsonValue::Obj(fields) => user_from_fields(fields),
        _ => None,
    }
}

fn user_from_fields(fields: &Vec<(String, JsonValue)>) -> (r: Option<User>)
    ensures
        r matches Some(u) ==> user_of_fields(jv_of_fields(fields@)) == Some(u@),
        r is None ==> user_of_fields(jv_of_fields(fields@)) is None,
{
    let ghost fsv = jv_of_fields(fields@);
    proof {
        lemma_jv_of_fields_props(fields@);
    }
    let mut id: Option<i32> = None;
    let mut name: Option<String> = None;
    let mut email: Option<String> = None;
    let mut i: usize = 0;
    proof {
        assert(fsv.take(0) =~= Seq::<(Seq<char>, Jv)>::empty());
    }
    while i < fields.len()
        invariant
            i <= fields@.len(),
            fsv == jv_of_fields(fields@),
            fsv.len() == fields@.len(),
            forall|k: int|
                0 <= k < fields@.len() ==> fsv[k] == (fields@[k].0@, jv_of(fields@[k].1)),
            user_scan(fsv.take(i as int)) == Some(
                UserAcc { id: opt_i32_v(id), name: opt_str_v(name), email: opt_str_v(email) },
            ),
        decreases fields@.len() - i,
    {
        let ghost pre = fsv.take(i as int);
        let (k, val) = &fields[i];
        proof {
            assert(fsv.take(i + 1).drop_last() =~= pre);
            assert(fsv.take(i + 1).last() == fsv[i as int]);
        }
        if str_eq(k.as_str(), "id") {
            match val {
                JsonValue::Int(n) => {
                    let n = *n;
                    if id.is_none() && -0x8000_0000i64 <= n && n <= 0x7fff_ffffi64 {
                        id = Some(n as i32);
                    } else {
                        proof {
                            lemma_user_scan_none(fsv, i + 1);
                        }
                        return None;
                    }
                },
                _ => {
                    proof {
                        lemma_user_scan_none(fsv, i + 1);
                    }
                    return None;
                },
            }
        } else if str_eq(k.as_str(), "name") {
            match val {
                JsonValue::Str(t) => {
                    if name.is_none() {
                        name = Some(t.clone());
                    } else {
                        proof {
                            lemma_user_scan_none(fsv, i + 1);
                        }
                        return None;
                    }
                },
                _ => {
                    proof {
                        lemma_user_scan_none(fsv, i + 1);
                    }
                    return None;
                },
            }
        } else if str_eq(k.as_str(), "email") {
            match val {
                JsonValue::Str(t) => {
                    if email.is_none() {
                        email = Some(t.clone());
                    } else {
                        proof {
                            lemma_user_scan_none(fsv, i + 1);
                        }
                        return None;
                    }
                },
                _ => {
                    proof {
                        lemma_user_scan_none(fsv, i + 1);
                    }
                    return None;
                },
            }
        }
        i = i + 1;
    }
    proof {
        assert(fsv.take(fields@.len() as int) =~= fsv);
    }
    match (id, name, email) {
        (Some(a), Some(b), Some(c)) => Some(User { id: a, name: b, email: c }),
        _ => None,
    }
}

/// Reads a post record out of a parsed JSON value.
pub fn post_from_json(v: &JsonValue) -> (r: Option<Post>)
    ensures
        r matches Some(p) ==> post_of_jv(jv_of(*v)) == Some(p@),
        r is None ==> post_of_jv(jv_of(*v)) is None,
{
    match v {
        JsonValue::Obj(fields) => post_from_fields(fields),
        _ => None,
    }
}

fn post_from_fields(fields: &Vec<(String, JsonValue)>) -> (r: Option<Post>)
    ensures
        r matches Some(p) ==> post_of_fields(jv_of_fields(fields@)) == Some(p@),
        r is None ==> post_of_fields(jv_of_fields(fields@)) is None,
{
    let ghost fsv = jv_of_fields(fields@);
    proof {
        lemma_jv_of_fields_props(fields@);
    }
    let mut id: Option<i32> = None;
    let mut user_id: Option<i32> = None;
    let mut title: Option<String> = None;
    let mut body: Option<String> = None;
    let mut i: usize = 0;
    proof {
        assert(fsv.take(0) =~= Seq::<(Seq<char>, Jv)>::empty());
    }
    while i < fields.len()
        invariant
            i <= fields@.len(),
            fsv == jv_of_fields(fields@),
            fsv.len() == fields@.len(),
            forall|k: int|
                0 <= k < fields@.len() ==> fsv[k] == (fields@[k].0@, jv_of(fields@[k].1)),
            post_scan(fsv.take(i as int)) == Some(
                PostAcc {
                    id: opt_i32_v(id),
                    user_id: opt_i32_v(user_id),
                    title: opt_str_v(title),
                    body: opt_str_v(body),
                },
            ),
        decreases fields@.len() - i,
    {
        let ghost pre = fsv.take(i as int);
        let (k, val) = &fields[i];
        proof {
            assert(fsv.take(i + 1).drop_last() =~= pre);
            assert(fsv.take(i + 1).last() == fsv[i as int]);
        }
        if str_eq(k.as_str(), "id") {
            match val {
                JsonValue::Int(n) => {
                    let n = *n;
                    if id.is_none() && -0x8000_0000i64 <= n && n <= 0x7fff_ffffi64 {
                        id = Some(n as i32);
                    } else {
                        proof {
                            lemma_post_scan_none(fsv, i + 1);
                        }
                        return None;
                    }
                },
                _ => {
                    proof {
                        lemma_post_scan_none(fsv, i + 1);
                    }
                    return None;
                },
            }
        } else if str_eq(k.as_str(), "user_id") {
            match val {
                JsonValue::Int(n) => {
                    let n = *n;
                    if user_id.is_none() && -0x8000_0000i64 <= n && n <= 0x7fff_ffffi64 {
                        user_id = Some(n as i32);
                    } else {
                        proof {
                            lemma_post_scan_none(fsv, i + 1);
                        }
                        return None;
                    }
                },
                _ => {
                    proof {
                        lemma_post_scan_none(fsv, i + 1);
                    }
                    return None;
                },
            }
        } else if str_eq(k.as_str(), "title") {
            match val {
                JsonValue::Str(t) => {
                    if title.is_none() {
                        title = Some(t.clone());
                    } else {
                        proof {
                            lemma_post_scan_none(fsv, i + 1);
                        }
                        return None;
                    }
                },
                _ => {
                    proof {
                        lemma_post_scan_none(fsv, i + 1);
                    }
                    return None;
                },
            }
        } else if str_eq(k.as_str(), "body") {
            match val {
                JsonValue::Str(t) => {
                    if body.is_none() {
                        body = Some(t.clone());
                    } else {
                        proof {
                            lemma_post_scan_none(fsv, i + 1);
                        }
                        return None;
                    }
                },
                _ => {
                    proof {
                        lemma_post_scan_none(fsv, i + 1);
                    }
                    return None;
                },
            }
        }
        i = i + 1;
    }
    proof {
        assert(fsv.take(fields@.len() as int) =~= fsv);
    }
    match (id, user_id, title, body) {
        (Some(a), Some(b), Some(c), Some(d)) => Some(
            Post { id: a, user_id: b, title: c, body: d },
        ),
        _ => None,
    }
}

// ---------------------------------------------------------------------------
// Encoding records as JSON text
// ---------------------------------------------------------------------------

/// The JSON text for a health report.
pub open spec fn health_json(status: Seq<char>, version: Seq<char>) -> Seq<char> {
    "{\"status\":"@ + quoted(status) + ",\"version\":"@ + quoted(version) + "}"@
}

/// The JSON text for a user record.
pub open spec fn user_json(id: int, name: Seq<char>, email: Seq<char>) -> Seq<char> {
    "{\"id\":"@ + dec_int(id) + ",\"name\":"@ + quoted(name) + ",\"email\":"@ + quoted(email)
        + "}"@
}

/// The JSON text for a post record.
pub open spec fn post_json(id: int, user_id: int, title: Seq<char>, body: Seq<char>) -> Seq<char> {
    "{\"id\":"@ + dec_int(id) + ",\"user_id\":"@ + dec_int(user_id) + ",\"title\":"@ + quoted(
        title,
    ) + ",\"body\":"@ + quoted(body) + "}"@
}

/// Appends the JSON text for a health report to `out`.
pub fn push_health_json(out: &mut Vec<char>, h: &HealthStatus)
    ensures
        final(out)@ == old(out)@ + health_json(h.status@, h.version@),
{
    push_str_chars(out, "{\"status\":");
    push_quoted(out, h.status.as_str());
    push_str_chars(out, ",\"version\":");
    push_quoted(out, h.version.as_str());
    push_str_chars(out, "}");
    proof {
        assert(out@ =~= old(out)@ + health_json(h.status@, h.version@));
    }
}

/// Appends the JSON text for a user record to `out`.
pub fn push_user_json(out: &mut Vec<char>, u: &User)
    ensures
        final(out)@ == old(out)@ + user_json(u.id as int, u.name@, u.email@),
{
    push_str_chars(out, "{\"id\":");
    push_dec_i64(out, u.id as i64);
    push_str_chars(out, ",\"name\":");
    push_quoted(out, u.name.as_str());
    push_str_chars(out, ",\"email\":");
    push_quoted(out, u.email.as_str());
    push_str_chars(out, "}");
    proof {
        assert(out@ =~= old(out)@ + user_json(u.id as int, u.name@, u.email@));
    }
}

/// Appends the JSON text for a post record to `out`.
pub fn push_post_json(out: &mut Vec<char>, p: &Post)
    ensures
        final(out)@ == old(out)@ + post_json(p.id as int, p.user_id as int, p.title@, p.body@),
{
    push_str_chars(out, "{\"id\":");
    push_dec_i64(out, p.id as i64);
    push_str_chars(out, ",\"user_id\":");
    push_dec_i64(out, p.user_id as i64);
    push_str_chars(out, ",\"title\":");
    push_quoted(out, p.title.as_str());
    push_str_chars(out, ",\"body\":");
    push_quoted(out, p.body.as_str());
    push_str_chars(out, "}");
    proof {
        assert(out@ =~= old(out)@ + post_json(p.id as int, p.user_id as int, p.title@, p.body@));
    }
}

} // verus!
