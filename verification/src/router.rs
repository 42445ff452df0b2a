//! The route table and the dispatcher.
//!
//! [`rocket`] assembles the fixed route table; [`handle_request`] matches a
//! request against it in order, coerces integer path parameters, decodes a
//! JSON body where the route takes one, runs the handler, and encodes the
//! answer.  [`spec_handle`] is the complete functional specification: for
//! every method, path and body it gives the exact status code and body the
//! service answers with.

use vstd::prelude::*;

use crate::handlers::{
    create_post, create_user, delete_post, delete_user, get_post, get_user, get_user_posts,
    health, list_posts, list_users, ready, update_post, update_user, MAX_POST_ID,
};
use crate::json::{parse_json, sp_json};
use crate::model::{
    health_json, post_from_json, post_json, post_of_jv, push_health_json, push_post_json,
    push_user_json, user_from_json, user_json, user_of_jv,
};
use crate::text::{
    chars_eq_str, chars_to_string, i32_of_str, parse_i32, push_str_chars, segs_view,
    split_on_slash, split_slash, str_chars, str_eq,
};

verus! {

/// An HTTP method the service answers.
#[derive(Clone, Copy, PartialEq, Eq, Structural)]
pub enum Method {
    Get,
    Post,
    Put,
    Delete,
}

/// One segment of a route pattern: a literal, or a typed `i32` parameter.
pub enum PatSeg {
    Lit(String),
    IntParam,
}

/// A route's handler.
#[derive(Clone, Copy, PartialEq, Eq, Structural)]
pub enum Endpoint {
    Health,
    Ready,
    ListUsers,
    GetUser,
    CreateUser,
    UpdateUser,
    DeleteUser,
    GetUserPosts,
    ListPosts,
    GetPost,
    CreatePost,
    UpdatePost,
    DeletePost,
}

/// One route: a method, a path pattern, and the handler it selects.
pub struct Route {
    pub method: Method,
    pub pattern: Vec<PatSeg>,
    pub endpoint: Endpoint,
}

pub enum PatV {
    Lit(Seq<char>),
    IntParam,
}

#[verifier::ext_equal]
pub struct RouteV {
    pub method: Method,
    pub pattern: Seq<PatV>,
    pub endpoint: Endpoint,
}

pub open spec fn pat_v(p: PatSeg) -> PatV {
    match p {
        PatSeg::Lit(l) => PatV::Lit(l@),
        PatSeg::IntParam => PatV::IntParam,
    }
}

pub open spec fn pat_seq_v(ps: Seq<PatSeg>) -> Seq<PatV> {
    Seq::new(ps.len(), |i: int| pat_v(ps[i]))
}

pub open spec fn route_v(r: Route) -> RouteV {
    RouteV { method: r.method, pattern: pat_seq_v(r.pattern@), endpoint: r.endpoint }
}

pub open spec fn routes_v(rs: Seq<Route>) -> Seq<RouteV> {
    Seq::new(rs.len(), |i: int| route_v(rs[i]))
}

/// The service's route table, in mounting order.
pub open spec fn spec_routes() -> Seq<RouteV> {
    seq![
        RouteV {
            method: Method::Get,
            pattern: seq![PatV::Lit("health"@)],
            endpoint: Endpoint::Health,
        },
        RouteV {
            method: Method::Get,
            pattern: seq![PatV::Lit("health"@), PatV::Lit("ready"@)],
            endpoint: Endpoint::Ready,
        },
        RouteV {
            method: Method::Get,
            pattern: seq![PatV::Lit("users"@)],
            endpoint: Endpoint::ListUsers,
        },
        RouteV {
            method: Method::Get,
            pattern: seq![PatV::Lit("users"@), PatV::IntParam],
            endpoint: Endpoint::GetUser,
        },
        RouteV {
            method: Method::Post,
            pattern: seq![PatV::Lit("users"@)],
            endpoint: Endpoint::CreateUser,
        },
        RouteV {
            method: Method::Put,
            pattern: seq![PatV::Lit("users"@), PatV::IntParam],
            endpoint: Endpoint::UpdateUser,
        },
        RouteV {
            method: Method::Delete,
            pattern: seq![PatV::Lit("users"@), PatV::IntParam],
            endpoint: Endpoint::DeleteUser,
        },
        RouteV {
            method: Method::Get,
            pattern: seq![PatV::Lit("users"@), PatV::IntParam, PatV::Lit("posts"@)],
            endpoint: Endpoint::GetUserPosts,
        },
        RouteV {
            method: Method::Get,
            pattern: seq![PatV::Lit("posts"@)],
            endpoint: Endpoint::ListPosts,
        },
        RouteV {
            method: Method::Get,
            pattern: seq![PatV::Lit("posts"@), PatV::IntParam],
            endpoint: Endpoint::GetPost,
        },
        RouteV {
            method: Method::Post,
            pattern: seq![PatV::Lit("posts"@)],
            endpoint: Endpoint::CreatePost,
        },
        RouteV {
            method: Method::Put,
            pattern: seq![PatV::Lit("posts"@), PatV::IntParam],
            endpoint: Endpoint::UpdatePost,
        },
        RouteV {
            method: Method::Delete,
            pattern: seq![PatV::Lit("posts"@), PatV::IntParam],
            endpoint: Endpoint::DeletePost,
        },
    ]
}

fn lit(s: &str) -> (p: PatSeg)
    ensures
        pat_v(p) == PatV::Lit(s@),
{
    PatSeg::Lit(s.to_owned())
}

/// Builds the service: the route table every request is matched against.
pub fn rocket() -> (rs: Vec<Route>)
    ensures
        routes_v(rs@) == spec_routes(),
{
    let mut rs: Vec<Route> = Vec::new();
    let mut p: Vec<PatSeg> = Vec::new();
    p.push(lit("health"));
    rs.push(Route { method: Method::Get, pattern: p, endpoint: Endpoint::Health });
    let mut p: Vec<PatSeg> = Vec::new();
    p.push(lit("health"));
    p.push(lit("ready"));
    rs.push(Route { method: Method::Get, pattern: p, endpoint: Endpoint::Ready });
    let mut p: Vec<PatSeg> = Vec::new();
    p.push(lit("users"));
    rs.push(Route { method: Method::Get, pattern: p, endpoint: Endpoint::ListUsers });
    let mut p: Vec<PatSeg> = Vec::new();
    p.push(lit("users"));
    p.push(PatSeg::IntParam);
    rs.push(Route { method: Method::Get, pattern: p, endpoint: Endpoint::GetUser });
    let mut p: Vec<PatSeg> = Vec::new();
    p.push(lit("users"));
    rs.push(Route { method: Method::Post, pattern: p, endpoint: Endpoint::CreateUser });
    let mut p: Vec<PatSeg> = Vec::new();
    p.push(lit("users"));
    p.push(PatSeg::IntParam);
    rs.push(Route { method: Method::Put, pattern: p, endpoint: Endpoint::UpdateUser });
    let mut p: Vec<PatSeg> = Vec::new();
    p.push(lit("users"));
    p.push(PatSeg::IntParam);
    rs.push(Route { method: Method::Delete, pattern: p, endpoint: Endpoint::DeleteUser });
    let mut p: Vec<PatSeg> = Vec::new();
    p.push(lit("users"));
    p.push(PatSeg::IntParam);
    p.push(lit("posts"));
    rs.push(Route { method: Method::Get, pattern: p, endpoint: Endpoint::GetUserPosts });
    let mut p: Vec<PatSeg> = Vec::new();
    p.push(lit("posts"));
    rs.push(Route { method: Method::Get, pattern: p, endpoint: Endpoint::ListPosts });
    let mut p: Vec<PatSeg> = Vec::new();
    p.push(lit("posts"));
    p.push(PatSeg::IntParam);
    rs.push(Route { method: Method::Get, pattern: p, endpoint: Endpoint::GetPost });
    let mut p: Vec<PatSeg> = Vec::new();
    p.push(lit("posts"));
    rs.push(Route { method: Method::Post, pattern: p, endpoint: Endpoint::CreatePost });
    let mut p: Vec<PatSeg> = Vec::new();
    p.push(lit("posts"));
    p.push(PatSeg::IntParam);
    rs.push(Route { method: Method::Put, pattern: p, endpoint: Endpoint::UpdatePost });
    let mut p: Vec<PatSeg> = Vec::new();
    p.push(lit("posts"));
    p.push(PatSeg::IntParam);
    rs.push(Route { method: Method::Delete, pattern: p, endpoint: Endpoint::DeletePost });
    proof {
        assert(routes_v(rs@) =~~= spec_routes());
    }
    rs
}

// ---------------------------------------------------------------------------
// Matching a request against the table
// ---------------------------------------------------------------------------

/// The pattern has the same number of segments and every literal agrees.
pub open spec fn shape_matches(pat: Seq<PatV>, segs: Seq<Seq<char>>) -> bool {
    &&& pat.len() == segs.len()
    &&& forall|k: int|
        0 <= k < pat.len() ==> (#[trigger] pat[k] matches PatV::Lit(l) ==> l == segs[k])
}

/// Every typed parameter segment parses as an `i32`.
pub open spec fn params_ok(pat: Seq<PatV>, segs: Seq<Seq<char>>) -> bool {
    forall|k: int|
        0 <= k < pat.len() ==> (#[trigger] pat[k] is IntParam ==> i32_of_str(segs[k]) is Some)
}

/// The value of the first typed parameter, if the pattern has one and it
/// parses.
pub open spec fn first_param(pat: Seq<PatV>, segs: Seq<Seq<char>>) -> Option<int>
    recommends
        pat.len() == segs.len(),
    decreases pat.len(),
{
    if pat.len() == 0 {
        None
    } else {
        let front = first_param(pat.drop_last(), segs.drop_last());
        if front is Some {
            front
        } else {
            match pat.last() {
                PatV::IntParam => i32_of_str(segs.last()),
                PatV::Lit(_) => None,
            }
        }
    }
}

/// How one route relates to a request.
pub enum RouteMatch {
    Hit { endpoint: Endpoint, param: Option<int> },
    Coerce,
    Miss,
}

pub open spec fn try_route(r: RouteV, m: Method, segs: Seq<Seq<char>>) -> RouteMatch {
    if r.method == m && shape_matches(r.pattern, segs) {
        if params_ok(r.pattern, segs) {
            RouteMatch::Hit { endpoint: r.endpoint, param: first_param(r.pattern, segs) }
        } else {
            RouteMatch::Coerce
        }
    } else {
        RouteMatch::Miss
    }
}

/// Ordered matching: the first full match wins; a route whose shape matched
/// but whose parameter failed to coerce turns a final miss into a coercion
/// failure.
pub open spec fn match_routes(rs: Seq<RouteV>, m: Method, segs: Seq<Seq<char>>) -> RouteMatch
    decreases rs.len(),
{
    if rs.len() == 0 {
        RouteMatch::Miss
    } else {
        match try_route(rs.first(), m, segs) {
            RouteMatch::Hit { endpoint, param } => RouteMatch::Hit { endpoint, param },
            RouteMatch::Coerce => match match_routes(rs.drop_first(), m, segs) {
                RouteMatch::Hit { endpoint, param } => RouteMatch::Hit { endpoint, param },
                _ => RouteMatch::Coerce,
            },
            RouteMatch::Miss => match_routes(rs.drop_first(), m, segs),
        }
    }
}

/// Outcome of matching the whole table.
pub enum Outcome {
    Hit(Endpoint, Option<i32>),
    Coerce,
    Miss,
}

/// Outcome of matching one pattern.
enum SegMatch {
    Full(Option<i32>),
    Partial,
    No,
}

pub open spec fn opt_param_v(o: Option<i32>) -> Option<int> {
    match o {
        Some(v) => Some(v as int),
        None => None,
    }
}

fn try_segs(pat: &Vec<PatSeg>, segs: &Vec<Vec<char>>) -> (r: SegMatch)
    ensures
        r matches SegMatch::Full(p) ==> shape_matches(pat_seq_v(pat@), segs_view(segs@))
            && params_ok(pat_seq_v(pat@), segs_view(segs@)) && opt_param_v(p) == first_param(
            pat_seq_v(pat@),
            segs_view(segs@),
        ),
        r is Partial ==> shape_matches(pat_seq_v(pat@), segs_view(segs@)) && !params_ok(
            pat_seq_v(pat@),
            segs_view(segs@),
        ),
        r is No ==> !shape_matches(pat_seq_v(pat@), segs_view(segs@)),
{
    let ghost patv = pat_seq_v(pat@);
    let ghost segsv = segs_view(segs@);
    let n = pat.len();
    if n != segs.len() {
        return SegMatch::No;
    }
    let mut k: usize = 0;
    let mut ok: bool = true;
    let mut param: Option<i32> = None;
    proof {
        assert(patv.take(0) =~= Seq::<PatV>::empty());
    }
    while k < n
        invariant
            k <= n,
            n == pat@.len() == segs@.len(),
            patv == pat_seq_v(pat@),
            segsv == segs_view(segs@),
            patv.len() == n,
            segsv.len() == n,
            forall|j: int| 0 <= j < n ==> patv[j] == pat_v(pat@[j]),
            forall|j: int| 0 <= j < n ==> segsv[j] == segs@[j]@,
            forall|j: int| 0 <= j < k ==> (#[trigger] patv[j] matches PatV::Lit(l) ==> l == segsv[j]),
            ok == params_ok(patv.take(k as int), segsv.take(k as int)),
            opt_param_v(param) == first_param(patv.take(k as int), segsv.take(k as int)),
        decreases n - k,
    {
        let ghost pre_p = patv.take(k as int);
        let ghost pre_s = segsv.take(k as int);
        proof {
            assert(patv.take(k + 1).drop_last() =~= pre_p);
            assert(segsv.take(k + 1).drop_last() =~= pre_s);
            assert(patv.take(k + 1).last() == patv[k as int]);
            assert(segsv.take(k + 1).last() == segsv[k as int]);
        }
        match &pat[k] {
            PatSeg::Lit(l) => {
                if !chars_eq_str(&segs[k], l.as_str()) {
                    proof {
                        assert(patv[k as int] matches PatV::Lit(w) && w != segsv[k as int]);
                    }
                    return SegMatch::No;
                }
                proof {
                    // params of the prefix are unchanged by a literal
                    assert(params_ok(patv.take(k + 1), segsv.take(k + 1)) == params_ok(
                        pre_p,
                        pre_s,
                    )) by {
                        assert(forall|j: int|
                            0 <= j < k ==> patv.take(k + 1)[j] == pre_p[j] && segsv.take(k + 1)[j]
                                == pre_s[j]);
                    };
                }
            },
            PatSeg::IntParam => {
                let p = parse_i32(&segs[k]);
                if p.is_none() {
                    ok = false;
                }
                if param.is_none() {
                    param = p;
                }
                proof {
                    assert(forall|j: int|
                        0 <= j < k ==> patv.take(k + 1)[j] == pre_p[j] && segsv.take(k + 1)[j]
                            == pre_s[j]);
                }
            },
        }
        k = k + 1;
    }
    proof {
        assert(patv.take(n as int) =~= patv);
        assert(segsv.take(n as int) =~= segsv);
    }
    if ok {
        SegMatch::Full(param)
    } else {
        SegMatch::Partial
    }
}

/// Matches the request against the table in order.
fn match_table(routes: &Vec<Route>, m: Method, segs: &Vec<Vec<char>>) -> (r: Outcome)
    ensures
        r matches Outcome::Hit(ep, p) ==> match_routes(routes_v(routes@), m, segs_view(segs@))
            == (RouteMatch::Hit { endpoint: ep, param: opt_param_v(p) }),
        r is Coerce ==> match_routes(routes_v(routes@), m, segs_view(segs@)) is Coerce,
        r is Miss ==> match_routes(routes_v(routes@), m, segs_view(segs@)) is Miss,
{
    let ghost rv = routes_v(routes@);
    let ghost segsv = segs_view(segs@);
    let n = routes.len();
    let mut i: usize = 0;
    let mut saw_coerce: bool = false;
    proof {
        assert(rv.skip(0) =~= rv);
    }
    while i < n
        invariant
            i <= n,
            n == routes@.len(),
            rv == routes_v(routes@),
            segsv == segs_view(segs@),
            rv.len() == n,
            forall|j: int| 0 <= j < n ==> rv[j] == route_v(routes@[j]),
            !saw_coerce ==> match_routes(rv, m, segsv) == match_routes(
                rv.skip(i as int),
                m,
                segsv,
            ),
            saw_coerce ==> match_routes(rv, m, segsv) == (match match_routes(
                rv.skip(i as int),
                m,
                segsv,
            ) {
                RouteMatch::Hit { endpoint, param } => RouteMatch::Hit { endpoint, param },
                _ => RouteMatch::Coerce,
            }),
        decreases n - i,
    {
        let route = &routes[i];
        proof {
            assert(rv.skip(i as int).first() == rv[i as int]);
            assert(rv.skip(i as int).drop_first() =~= rv.skip(i + 1));
        }
        if method_eq(m, route.method) {
            match try_segs(&route.pattern, segs) {
                SegMatch::Full(p) => {
                    proof {
                        assert(try_route(rv[i as int], m, segsv) == (RouteMatch::Hit {
                            endpoint: rv[i as int].endpoint,
                            param: opt_param_v(p),
                        }));
                    }
                    return Outcome::Hit(route.endpoint, p);
                },
                SegMatch::Partial => {
                    proof {
                        assert(try_route(rv[i as int], m, segsv) is Coerce);
                    }
                    saw_coerce = true;
                },
                SegMatch::No => {
                    proof {
                        assert(try_route(rv[i as int], m, segsv) is Miss);
                    }
                },
            }
        } else {
            proof {
                assert(try_route(rv[i as int], m, segsv) is Miss);
            }
        }
        i = i + 1;
    }
    proof {
        assert(rv.skip(n as int) =~= Seq::<RouteV>::empty());
    }
    if saw_coerce {
        Outcome::Coerce
    } else {
        Outcome::Miss
    }
}

fn method_eq(a: Method, b: Method) -> (r: bool)
    ensures
        r == (a == b),
{
    match (a, b) {
        (Method::Get, Method::Get) => true,
        (Method::Post, Method::Post) => true,
        (Method::Put, Method::Put) => true,
        (Method::Delete, Method::Delete) => true,
        _ => false,
    }
}

// ---------------------------------------------------------------------------
// Responses and dispatch
// ---------------------------------------------------------------------------

/// An HTTP response: a status code and, for successful JSON endpoints, a
/// body.  `body` is `Some` exactly when the response carries JSON.
pub struct Response {
    pub status: u16,
    pub body: Option<String>,
}

#[verifier::ext_equal]
pub struct RespV {
    pub status: int,
    pub body: Option<Seq<char>>,
}

impl View for Response {
    type V = RespV;

    open spec fn view(&self) -> RespV {
        RespV {
            status: self.status as int,
            body: match self.body {
                Some(s) => Some(s@),
                None => None,
            },
        }
    }
}

/// A bodyless response: an error, or no content.
pub open spec fn resp_status(status: int) -> RespV {
    RespV { status: status, body: None }
}

/// A successful JSON response.
pub open spec fn resp_json(body: Seq<char>) -> RespV {
    RespV { status: 200, body: Some(body) }
}

fn status_response(status: u16) -> (r: Response)
    ensures
        r@ == resp_status(status as int),
{
    Response { status: status, body: None }
}

fn json_response(body: Vec<char>) -> (r: Response)
    ensures
        r@ == resp_json(body@),
{
    Response { status: 200, body: Some(chars_to_string(&body)) }
}

/// The route's parameter value; routes without one never read it.
pub open spec fn param_or_zero(p: Option<int>) -> int {
    match p {
        Some(v) => v,
        None => 0,
    }
}

/// What each endpoint answers, given the integer path parameter and the
/// raw request body.
pub open spec fn spec_dispatch(ep: Endpoint, p: int, body: Seq<char>) -> RespV {
    match ep {
        Endpoint::Health => resp_json(health_json("ok"@, "0.1.0"@)),
        Endpoint::Ready => resp_json(health_json("ready"@, "0.1.0"@)),
        Endpoint::ListUsers => resp_json(
            "["@ + user_json(1, "Alice"@, "alice@example.com"@) + ","@ + user_json(
                2,
                "Bob"@,
                "bob@example.com"@,
            ) + "]"@,
        ),
        Endpoint::GetUser => resp_json(user_json(p, "Sample User"@, "user@example.com"@)),
        Endpoint::CreateUser => match sp_json(body) {
            None => resp_status(400),
            Some(j) => match user_of_jv(j) {
                None => resp_status(422),
                Some(u) => resp_json(user_json(1, u.name, u.email)),
            },
        },
        Endpoint::UpdateUser => match sp_json(body) {
            None => resp_status(400),
            Some(j) => match user_of_jv(j) {
                None => resp_status(422),
                Some(u) => resp_json(user_json(p, u.name, u.email)),
            },
        },
        Endpoint::DeleteUser => resp_status(204),
        Endpoint::GetUserPosts => resp_json(
            "["@ + post_json(1, p, "User Post"@, "Content"@) + "]"@,
        ),
        Endpoint::ListPosts => resp_json(
            "["@ + post_json(1, 1, "First Post"@, "Hello world"@) + ","@ + post_json(
                2,
                1,
                "Second Post"@,
                "Another post"@,
            ) + "]"@,
        ),
        Endpoint::GetPost => resp_json(post_json(p, 1, "Sample Post"@, "Post body"@)),
        Endpoint::CreatePost => match sp_json(body) {
            None => resp_status(400),
            Some(j) => match post_of_jv(j) {
                None => resp_status(422),
                Some(q) => resp_json(post_json(1, q.user_id, q.title, q.body)),
            },
        },
        Endpoint::UpdatePost => match sp_json(body) {
            None => resp_status(400),
            Some(j) => match post_of_jv(j) {
                None => resp_status(422),
                Some(q) => if p > MAX_POST_ID as int {
                    resp_status(404)
                } else {
                    resp_json(post_json(p, q.user_id, q.title, q.body))
                },
            },
        },
        Endpoint::DeletePost => if p > MAX_POST_ID as int {
            resp_status(404)
        } else {
            resp_status(204)
        },
    }
}

/// Runs the selected endpoint.
fn run_endpoint(ep: Endpoint, param: Option<i32>, body: &str) -> (r: Response)
    ensures
        r@ == spec_dispatch(ep, param_or_zero(opt_param_v(param)), body@),
{
    let p: i32 = match param {
        Some(v) => v,
        None => 0,
    };
    match ep {
        Endpoint::Health => {
            let h = health();
            let mut out: Vec<char> = Vec::new();
            push_health_json(&mut out, &h);
            json_response(out)
        },
        Endpoint::Ready => {
            let h = ready();
            let mut out: Vec<char> = Vec::new();
            push_health_json(&mut out, &h);
            json_response(out)
        },
        Endpoint::ListUsers => {
            let us = list_users();
            let mut out: Vec<char> = Vec::new();
            push_str_chars(&mut out, "[");
            push_user_json(&mut out, &us[0]);
            push_str_chars(&mut out, ",");
            push_user_json(&mut out, &us[1]);
            push_str_chars(&mut out, "]");
            proof {
                assert(out@ =~= "["@ + user_json(1, "Alice"@, "alice@example.com"@) + ","@
                    + user_json(2, "Bob"@, "bob@example.com"@) + "]"@);
            }
            json_response(out)
        },
        Endpoint::GetUser => {
            let u = get_user(p);
            let mut out: Vec<char> = Vec::new();
            push_user_json(&mut out, &u);
            json_response(out)
        },
        Endpoint::CreateUser => {
            let chars = str_chars(body);
            match parse_json(&chars) {
                None => status_response(400),
                Some(jv) => match user_from_json(&jv) {
                    None => status_response(422),
                    Some(u) => {
                        let created = create_user(u);
                        let mut out: Vec<char> = Vec::new();
                        push_user_json(&mut out, &created);
                        json_response(out)
                    },
                },
            }
        },
        Endpoint::UpdateUser => {
            let chars = str_chars(body);
            match parse_json(&chars) {
                None => status_response(400),
                Some(jv) => match user_from_json(&jv) {
                    None => status_response(422),
                    Some(u) => {
                        let updated = update_user(p, u);
                        let mut out: Vec<char> = Vec::new();
                        push_user_json(&mut out, &updated);
                        json_response(out)
                    },
                },
            }
        },
        Endpoint::DeleteUser => status_response(delete_user(p)),
        Endpoint::GetUserPosts => {
            let ps = get_user_posts(p);
            let mut out: Vec<char> = Vec::new();
            push_str_chars(&mut out, "[");
            push_post_json(&mut out, &ps[0]);
            push_str_chars(&mut out, "]");
            proof {
                assert(out@ =~= "["@ + post_json(1, p as int, "User Post"@, "Content"@) + "]"@);
            }
            json_response(out)
        },
        Endpoint::ListPosts => {
            let ps = list_posts();
            let mut out: Vec<char> = Vec::new();
            push_str_chars(&mut out, "[");
            push_post_json(&mut out, &ps[0]);
            push_str_chars(&mut out, ",");
            push_post_json(&mut out, &ps[1]);
            push_str_chars(&mut out, "]");
            proof {
                assert(out@ =~= "["@ + post_json(1, 1, "First Post"@, "Hello world"@) + ","@
                    + post_json(2, 1, "Second Post"@, "Another post"@) + "]"@);
            }
            json_response(out)
        },
        Endpoint::GetPost => {
            let q = get_post(p);
            let mut out: Vec<char> = Vec::new();
            push_post_json(&mut out, &q);
            json_response(out)
        },
        Endpoint::CreatePost => {
            let chars = str_chars(body);
            match parse_json(&chars) {
                None => status_response(400),
                Some(jv) => match post_from_json(&jv) {
                    None => status_response(422),
                    Some(q) => {
                        let created = create_post(q);
                        let mut out: Vec<char> = Vec::new();
                        push_post_json(&mut out, &created);
                        json_response(out)
                    },
                },
            }
        },
        Endpoint::UpdatePost => {
            let chars = str_chars(body);
            match parse_json(&chars) {
                None => status_response(400),
                Some(jv) => match post_from_json(&jv) {
                    None => status_response(422),
                    Some(q) => match update_post(p, q) {
                        None => status_response(404),
                        Some(updated) => {
                            let mut out: Vec<char> = Vec::new();
                            push_post_json(&mut out, &updated);
                            json_response(out)
                        },
                    },
                },
            }
        },
        Endpoint::DeletePost => status_response(delete_post(p)),
    }
}

// ---------------------------------------------------------------------------
// The request entry point
// ---------------------------------------------------------------------------

/// The method named by a request line.
pub open spec fn spec_method(s: Seq<char>) -> Option<Method> {
    if s == "GET"@ {
        Some(Method::Get)
    } else if s == "POST"@ {
        Some(Method::Post)
    } else if s == "PUT"@ {
        Some(Method::Put)
    } else if s == "DELETE"@ {
        Some(Method::Delete)
    } else {
        None
    }
}

/// The response the service gives to a request: the complete functional
/// specification of [`handle_request`].
pub open spec fn spec_handle(method: Seq<char>, path: Seq<char>, body: Seq<char>) -> RespV {
    match spec_method(method) {
        None => resp_status(404),
        Some(m) => {
            if path.len() == 0 || path[0] != '/' {
                resp_status(404)
            } else {
                let segs = split_slash(path.skip(1));
                match match_routes(spec_routes(), m, segs) {
                    RouteMatch::Miss => resp_status(404),
                    RouteMatch::Coerce => resp_status(422),
                    RouteMatch::Hit { endpoint, param } => spec_dispatch(
                        endpoint,
                        param_or_zero(param),
                        body,
                    ),
                }
            }
        },
    }
}

/// Answers one request.  Routes whose body is not needed ignore `body`;
/// pass the empty string for a request without one.
pub fn handle_request(method: &str, path: &str, body: &str) -> (r: Response)
    ensures
        r@ == spec_handle(method@, path@, body@),
{
    let m: Method = if str_eq(method, "GET") {
        Method::Get
    } else if str_eq(method, "POST") {
        Method::Post
    } else if str_eq(method, "PUT") {
        Method::Put
    } else if str_eq(method, "DELETE") {
        Method::Delete
    } else {
        return status_response(404);
    };
    let mut path_chars = str_chars(path);
    if path_chars.len() == 0 || path_chars[0] != '/' {
        return status_response(404);
    }
    path_chars.remove(0);
    proof {
        assert(path_chars@ =~= path@.skip(1));
    }
    let segs = split_on_slash(&path_chars);
    let routes = rocket();
    match match_table(&routes, m, &segs) {
        Outcome::Hit(ep, param) => run_endpoint(ep, param, body),
        Outcome::Coerce => status_response(422),
        Outcome::Miss => status_response(404),
    }
}

} // verus!
