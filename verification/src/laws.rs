//! Laws the service obeys, stated and proved over [`spec_handle`], the
//! functional specification of [`crate::handle_request`].

use vstd::prelude::*;

use crate::handlers::MAX_POST_ID;
use crate::json::sp_json;
use crate::model::{post_json, post_of_jv, user_json, user_of_jv, PostV, UserV};
use crate::router::{
    first_param, match_routes, resp_json, resp_status, shape_matches, spec_handle, spec_method,
    spec_routes, Endpoint, Method, PatV, RouteMatch,
};
use crate::text::{
    dec_int, lemma_dec_int_i32_round_trip, lemma_split_no_slash, lemma_split_two, no_slash,
    split_slash,
};

verus! {

/// The segments of `/users/{n}`.
proof fn lemma_users_id_segs(n: int)
    requires
        -0x8000_0000 <= n <= 0x7fff_ffff,
    ensures
        ("/users/"@ + dec_int(n)).len() > 0,
        ("/users/"@ + dec_int(n))[0] == '/',
        split_slash(("/users/"@ + dec_int(n)).skip(1)) == seq!["users"@, dec_int(n)],
{
    reveal_strlit("/users/");
    reveal_strlit("users");
    lemma_dec_int_i32_round_trip(n);
    let path = "/users/"@ + dec_int(n);
    assert(path.skip(1) =~= "users"@ + seq!['/'] + dec_int(n));
    assert(no_slash("users"@));
    lemma_split_two("users"@, dec_int(n));
}

/// The segments of `/posts/{n}`.
proof fn lemma_posts_id_segs(n: int)
    requires
        -0x8000_0000 <= n <= 0x7fff_ffff,
    ensures
        ("/posts/"@ + dec_int(n)).len() > 0,
        ("/posts/"@ + dec_int(n))[0] == '/',
        split_slash(("/posts/"@ + dec_int(n)).skip(1)) == seq!["posts"@, dec_int(n)],
{
    reveal_strlit("/posts/");
    reveal_strlit("posts");
    lemma_dec_int_i32_round_trip(n);
    let path = "/posts/"@ + dec_int(n);
    assert(path.skip(1) =~= "posts"@ + seq!['/'] + dec_int(n));
    assert(no_slash("posts"@));
    lemma_split_two("posts"@, dec_int(n));
}

proof fn lemma_literals_distinct()
    ensures
        "health"@ != "users"@,
        "health"@ != "posts"@,
        "users"@ != "posts"@,
{
    reveal_strlit("health");
    reveal_strlit("users");
    reveal_strlit("posts");
    assert("health"@.len() == 6);
    assert("users"@.len() == 5);
    assert("posts"@.len() == 5);
    assert("users"@[0] != "posts"@[0]);
}

/// The value of the single parameter of an id pattern.
proof fn lemma_first_param_lit_int(l: Seq<char>, d: Seq<char>)
    ensures
        first_param(seq![PatV::Lit(l), PatV::IntParam], seq![l, d]) == crate::text::i32_of_str(d),
{
    let pat = seq![PatV::Lit(l), PatV::IntParam];
    let segs = seq![l, d];
    assert(pat.drop_last() =~= seq![PatV::Lit(l)]);
    assert(segs.drop_last() =~= seq![l]);
    assert(seq![PatV::Lit(l)].drop_last() =~= Seq::<PatV>::empty());
    assert(seq![l].drop_last() =~= Seq::<Seq<char>>::empty());
    assert(first_param(Seq::<PatV>::empty(), Seq::<Seq<char>>::empty()) is None);
    assert(first_param(seq![PatV::Lit(l)], seq![l]) is None);
    assert(pat.last() == PatV::IntParam);
    assert(segs.last() == d);
}

/// How the table resolves `/users/{n}` for each method that has a route
/// there.
proof fn lemma_match_table_users_id(n: int)
    requires
        -0x8000_0000 <= n <= 0x7fff_ffff,
    ensures
        match_routes(spec_routes(), Method::Get, seq!["users"@, dec_int(n)])
            == (RouteMatch::Hit { endpoint: Endpoint::GetUser, param: Some(n) }),
        match_routes(spec_routes(), Method::Put, seq!["users"@, dec_int(n)])
            == (RouteMatch::Hit { endpoint: Endpoint::UpdateUser, param: Some(n) }),
        match_routes(spec_routes(), Method::Delete, seq!["users"@, dec_int(n)])
            == (RouteMatch::Hit { endpoint: Endpoint::DeleteUser, param: Some(n) }),
{
    let d = dec_int(n);
    let segs = seq!["users"@, d];
    let rs = spec_routes();
    lemma_dec_int_i32_round_trip(n);
    lemma_literals_distinct();
    lemma_first_param_lit_int("users"@, d);
    assert(!shape_matches(rs[0].pattern, segs));
    assert(!shape_matches(rs[1].pattern, segs)) by {
        assert(rs[1].pattern[0] == PatV::Lit("health"@));
        assert(segs[0] == "users"@);
    };
    assert(!shape_matches(rs[2].pattern, segs));
    assert(shape_matches(rs[3].pattern, segs) && shape_matches(rs[5].pattern, segs)
        && shape_matches(rs[6].pattern, segs)) by {
        assert(forall|k: int|
            0 <= k < 2 ==> (#[trigger] rs[3].pattern[k] matches PatV::Lit(l) ==> l == segs[k]))
            by {
            assert(rs[3].pattern[0] == PatV::Lit("users"@));
            assert(rs[3].pattern[1] == PatV::IntParam);
        };
        assert(rs[5].pattern =~= rs[3].pattern);
        assert(rs[6].pattern =~= rs[3].pattern);
    };
    assert(crate::router::params_ok(rs[3].pattern, segs)) by {
        assert(rs[3].pattern[0] == PatV::Lit("users"@));
        assert(rs[3].pattern[1] == PatV::IntParam);
    };
    assert(rs[5].pattern =~= rs[3].pattern);
    assert(rs[6].pattern =~= rs[3].pattern);
    reveal_with_fuel(match_routes, 8);
    assert(rs.drop_first().first() == rs[1]);
    assert(rs.drop_first().drop_first().first() == rs[2]);
    assert(rs.drop_first().drop_first().drop_first().first() == rs[3]);
    assert(rs.drop_first().drop_first().drop_first().drop_first().first() == rs[4]);
    assert(rs.drop_first().drop_first().drop_first().drop_first().drop_first().first() == rs[5]);
    assert(rs.drop_first().drop_first().drop_first().drop_first().drop_first().drop_first().first()
        == rs[6]);
}

/// How the table resolves `/posts/{n}` for each method that has a route
/// there.
proof fn lemma_match_table_posts_id(n: int)
    requires
        -0x8000_0000 <= n <= 0x7fff_ffff,
    ensures
        match_routes(spec_routes(), Method::Get, seq!["posts"@, dec_int(n)])
            == (RouteMatch::Hit { endpoint: Endpoint::GetPost, param: Some(n) }),
        match_routes(spec_routes(), Method::Put, seq!["posts"@, dec_int(n)])
            == (RouteMatch::Hit { endpoint: Endpoint::UpdatePost, param: Some(n) }),
        match_routes(spec_routes(), Method::Delete, seq!["posts"@, dec_int(n)])
            == (RouteMatch::Hit { endpoint: Endpoint::DeletePost, param: Some(n) }),
{
    let d = dec_int(n);
    let segs = seq!["posts"@, d];
    let rs = spec_routes();
    lemma_dec_int_i32_round_trip(n);
    lemma_literals_distinct();
    lemma_first_param_lit_int("posts"@, d);
    assert(!shape_matches(rs[0].pattern, segs));
    assert(!shape_matches(rs[1].pattern, segs)) by {
        assert(rs[1].pattern[0] == PatV::Lit("health"@));
    };
    assert(!shape_matches(rs[2].pattern, segs));
    assert(!shape_matches(rs[3].pattern, segs)) by {
        assert(rs[3].pattern[0] == PatV::Lit("users"@));
    };
    assert(!shape_matches(rs[5].pattern, segs)) by {
        assert(rs[5].pattern[0] == PatV::Lit("users"@));
    };
    assert(!shape_matches(rs[6].pattern, segs)) by {
        assert(rs[6].pattern[0] == PatV::Lit("users"@));
    };
    assert(!shape_matches(rs[7].pattern, segs));
    assert(!shape_matches(rs[8].pattern, segs));
    assert(shape_matches(rs[9].pattern, segs) && shape_matches(rs[11].pattern, segs)
        && shape_matches(rs[12].pattern, segs)) by {
        assert(forall|k: int|
            0 <= k < 2 ==> (#[trigger] rs[9].pattern[k] matches PatV::Lit(l) ==> l == segs[k]))
            by {
            assert(rs[9].pattern[0] == PatV::Lit("posts"@));
            assert(rs[9].pattern[1] == PatV::IntParam);
        };
        assert(rs[11].pattern =~= rs[9].pattern);
        assert(rs[12].pattern =~= rs[9].pattern);
    };
    assert(crate::router::params_ok(rs[9].pattern, segs)) by {
        assert(rs[9].pattern[0] == PatV::Lit("posts"@));
        assert(rs[9].pattern[1] == PatV::IntParam);
    };
    assert(rs[11].pattern =~= rs[9].pattern);
    assert(rs[12].pattern =~= rs[9].pattern);
    reveal_with_fuel(match_routes, 14);
    let r1 = rs.drop_first();
    let r2 = r1.drop_first();
    let r3 = r2.drop_first();
    let r4 = r3.drop_first();
    let r5 = r4.drop_first();
    let r6 = r5.drop_first();
    let r7 = r6.drop_first();
    let r8 = r7.drop_first();
    let r9 = r8.drop_first();
    let r10 = r9.drop_first();
    let r11 = r10.drop_first();
    let r12 = r11.drop_first();
    assert(r1.first() == rs[1]);
    assert(r2.first() == rs[2]);
    assert(r3.first() == rs[3]);
    assert(r4.first() == rs[4]);
    assert(r5.first() == rs[5]);
    assert(r6.first() == rs[6]);
    assert(r7.first() == rs[7]);
    assert(r8.first() == rs[8]);
    assert(r9.first() == rs[9]);
    assert(r10.first() == rs[10]);
    assert(r11.first() == rs[11]);
    assert(r12.first() == rs[12]);
}

/// How the table resolves `POST /users`.
proof fn lemma_match_table_post_users()
    ensures
        match_routes(spec_routes(), Method::Post, seq!["users"@])
            == (RouteMatch::Hit { endpoint: Endpoint::CreateUser, param: None }),
{
    let segs = seq!["users"@];
    let rs = spec_routes();
    assert(shape_matches(rs[4].pattern, segs)) by {
        assert(rs[4].pattern[0] == PatV::Lit("users"@));
    };
    assert(crate::router::params_ok(rs[4].pattern, segs)) by {
        assert(rs[4].pattern[0] == PatV::Lit("users"@));
    };
    assert(first_param(rs[4].pattern, segs) is None) by {
        assert(rs[4].pattern.drop_last() =~= Seq::<PatV>::empty());
        assert(segs.drop_last() =~= Seq::<Seq<char>>::empty());
        assert(first_param(Seq::<PatV>::empty(), Seq::<Seq<char>>::empty()) is None);
        assert(rs[4].pattern.last() == PatV::Lit("users"@));
    };
    reveal_with_fuel(match_routes, 6);
    assert(rs.drop_first().first() == rs[1]);
    assert(rs.drop_first().drop_first().first() == rs[2]);
    assert(rs.drop_first().drop_first().drop_first().first() == rs[3]);
    assert(rs.drop_first().drop_first().drop_first().drop_first().first() == rs[4]);
}

/// For every integer id, `GET /users/{id}` answers 200 with the sample
/// user under that id, whatever the request body.
pub proof fn lemma_get_user_for_all_ids(n: i32, body: Seq<char>)
    ensures
        spec_handle("GET"@, "/users/"@ + dec_int(n as int), body) == resp_json(
            user_json(n as int, "Sample User"@, "user@example.com"@),
        ),
{
    assert(spec_method("GET"@) == Some(Method::Get));
    lemma_users_id_segs(n as int);
    lemma_match_table_users_id(n as int);
}

/// For every integer id, `GET /posts/{id}` answers 200 with the sample
/// post under that id, whatever the request body.
pub proof fn lemma_get_post_for_all_ids(n: i32, body: Seq<char>)
    ensures
        spec_handle("GET"@, "/posts/"@ + dec_int(n as int), body) == resp_json(
            post_json(n as int, 1, "Sample Post"@, "Post body"@),
        ),
{
    assert(spec_method("GET"@) == Some(Method::Get));
    lemma_posts_id_segs(n as int);
    lemma_match_table_posts_id(n as int);
}

/// `POST /users` with any well-formed user body answers 200 and echoes the
/// submitted name and email with the id forced to 1, whatever id was
/// submitted.
pub proof fn lemma_create_user_echoes(body: Seq<char>, u: UserV)
    requires
        sp_json(body) matches Some(j) && user_of_jv(j) == Some(u),
    ensures
        spec_handle("POST"@, "/users"@, body) == resp_json(user_json(1, u.name, u.email)),
{
    reveal_strlit("GET");
    reveal_strlit("POST");
    reveal_strlit("/users");
    reveal_strlit("users");
    assert(spec_method("POST"@) == Some(Method::Post)) by {
        assert("GET"@.len() == 3 && "POST"@.len() == 4);
    };
    let path = "/users"@;
    assert(path[0] == '/');
    assert(path.skip(1) =~= "users"@);
    assert(no_slash("users"@));
    lemma_split_no_slash("users"@);
    lemma_match_table_post_users();
}

/// `PUT /users/{id}` with any well-formed user body answers 200 and echoes
/// the submitted name and email with the id from the path.
#[verifier::rlimit(100)]
pub proof fn lemma_update_user_echoes(n: i32, body: Seq<char>, u: UserV)
    requires
        sp_json(body) matches Some(j) && user_of_jv(j) == Some(u),
    ensures
        spec_handle("PUT"@, "/users/"@ + dec_int(n as int), body) == resp_json(
            user_json(n as int, u.name, u.email),
        ),
{
    reveal_strlit("GET");
    reveal_strlit("PUT");
    reveal_strlit("POST");
    assert(spec_method("PUT"@) == Some(Method::Put)) by {
        assert("GET"@[0] != "PUT"@[0]);
        assert("POST"@.len() == 4 && "PUT"@.len() == 3);
    };
    lemma_users_id_segs(n as int);
    lemma_match_table_users_id(n as int);
}

/// `DELETE /users/{id}` succeeds with 204 for every integer id: the user
/// routes have no existence threshold.
pub proof fn lemma_delete_user_unconditional(n: i32, body: Seq<char>)
    ensures
        spec_handle("DELETE"@, "/users/"@ + dec_int(n as int), body) == resp_status(204),
{
    reveal_strlit("GET");
    reveal_strlit("POST");
    reveal_strlit("PUT");
    reveal_strlit("DELETE");
    assert(spec_method("DELETE"@) == Some(Method::Delete)) by {
        assert("GET"@.len() == 3 && "POST"@.len() == 4 && "PUT"@.len() == 3 && "DELETE"@.len()
            == 6);
    };
    lemma_users_id_segs(n as int);
    lemma_match_table_users_id(n as int);
}

/// `PUT /users/{id}` succeeds for every integer id when the body is a
/// well-formed user: no threshold on the user routes.
pub proof fn lemma_update_user_unconditional(n: i32, body: Seq<char>, u: UserV)
    requires
        sp_json(body) matches Some(j) && user_of_jv(j) == Some(u),
    ensures
        spec_handle("PUT"@, "/users/"@ + dec_int(n as int), body).status == 200,
{
    lemma_update_user_echoes(n, body, u);
}

/// `PUT /posts/{id}` selects the post update endpoint.
proof fn lemma_put_posts_resolves(n: i32, body: Seq<char>)
    ensures
        spec_handle("PUT"@, "/posts/"@ + dec_int(n as int), body) == crate::router::spec_dispatch(
            Endpoint::UpdatePost,
            n as int,
            body,
        ),
{
    reveal_strlit("GET");
    reveal_strlit("POST");
    reveal_strlit("PUT");
    assert(spec_method("PUT"@) == Some(Method::Put)) by {
        assert("GET"@[0] != "PUT"@[0]);
        assert("POST"@.len() == 4 && "PUT"@.len() == 3);
    };
    lemma_posts_id_segs(n as int);
    lemma_match_table_posts_id(n as int);
}

/// `PUT /posts/{id}` with a well-formed post body succeeds up to the
/// threshold and answers 404 above it.
pub proof fn lemma_update_post_threshold(n: i32, body: Seq<char>, q: PostV)
    requires
        sp_json(body) matches Some(j) && post_of_jv(j) == Some(q),
    ensures
        n > MAX_POST_ID ==> spec_handle("PUT"@, "/posts/"@ + dec_int(n as int), body)
            == resp_status(404),
        n <= MAX_POST_ID ==> spec_handle("PUT"@, "/posts/"@ + dec_int(n as int), body)
            == resp_json(post_json(n as int, q.user_id, q.title, q.body)),
{
    lemma_put_posts_resolves(n, body);
}

/// `DELETE /posts/{id}` succeeds with 204 up to the threshold and answers
/// 404 above it.
pub proof fn lemma_delete_post_threshold(n: i32, body: Seq<char>)
    ensures
        n > MAX_POST_ID ==> spec_handle("DELETE"@, "/posts/"@ + dec_int(n as int), body)
            == resp_status(404),
        n <= MAX_POST_ID ==> spec_handle("DELETE"@, "/posts/"@ + dec_int(n as int), body)
            == resp_status(204),
{
    reveal_strlit("GET");
    reveal_strlit("POST");
    reveal_strlit("PUT");
    reveal_strlit("DELETE");
    assert(spec_method("DELETE"@) == Some(Method::Delete)) by {
        assert("GET"@.len() == 3 && "POST"@.len() == 4 && "PUT"@.len() == 3 && "DELETE"@.len()
            == 6);
    };
    lemma_posts_id_segs(n as int);
    lemma_match_table_posts_id(n as int);
}

/// Repeating any request gives the same status and body: the service is
/// stateless, so the response is a function of the request alone.
pub proof fn lemma_requests_idempotent(
    m1: Seq<char>,
    p1: Seq<char>,
    b1: Seq<char>,
    m2: Seq<char>,
    p2: Seq<char>,
    b2: Seq<char>,
)
    requires
        m1 == m2,
        p1 == p2,
        b1 == b2,
    ensures
        spec_handle(m1, p1, b1) == spec_handle(m2, p2, b2),
{
}

} // verus!
