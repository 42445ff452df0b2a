//! The endpoint handlers: pure functions from decoded inputs to the records
//! the routes answer with.
//!
//! The service is stateless by design: every handler is a function of its
//! arguments alone, and the mutating routes only echo their input back with
//! the id the route dictates.

use vstd::prelude::*;

use crate::model::{HealthStatus, HealthV, Post, PostV, User, UserV};

verus! {

/// Largest post id the mutating post routes treat as existing.
pub const MAX_POST_ID: i32 = 100;

/// `GET /health`.
pub fn health() -> (h: HealthStatus)
    ensures
        h@ == (HealthV { status: "ok"@, version: "0.1.0"@ }),
{
    HealthStatus { status: "ok".to_owned(), version: "0.1.0".to_owned() }
}

/// `GET /health/ready`.
pub fn ready() -> (h: HealthStatus)
    ensures
        h@ == (HealthV { status: "ready"@, version: "0.1.0"@ }),
{
    HealthStatus { status: "ready".to_owned(), version: "0.1.0".to_owned() }
}

/// `GET /users`: the two fixed sample users.
pub fn list_users() -> (us: Vec<User>)
    ensures
        us@.len() == 2,
        us@[0]@ == (UserV { id: 1, name: "Alice"@, email: "alice@example.com"@ }),
        us@[1]@ == (UserV { id: 2, name: "Bob"@, email: "bob@example.com"@ }),
{
    let mut us: Vec<User> = Vec::new();
    us.push(User { id: 1, name: "Alice".to_owned(), email: "alice@example.com".to_owned() });
    us.push(User { id: 2, name: "Bob".to_owned(), email: "bob@example.com".to_owned() });
    us
}

/// `GET /users/{id}`: the sample user under the given id.
pub fn get_user(id: i32) -> (u: User)
    ensures
        u@ == (UserV { id: id as int, name: "Sample User"@, email: "user@example.com"@ }),
{
    User { id: id, name: "Sample User".to_owned(), email: "user@example.com".to_owned() }
}

/// `POST /users`: echoes the submitted user with the id forced to 1.
pub fn create_user(user: User) -> (u: User)
    ensures
        u@ == (UserV { id: 1, name: user.name@, email: user.email@ }),
{
    let mut new_user = user;
    new_user.id = 1;
    new_user
}

/// `PUT /users/{id}`: echoes the submitted user with the id from the path.
pub fn update_user(id: i32, user: User) -> (u: User)
    ensures
        u@ == (UserV { id: id as int, name: user.name@, email: user.email@ }),
{
    let mut updated = user;
    updated.id = id;
    updated
}

/// `DELETE /users/{id}`: always succeeds with no content.
pub fn delete_user(id: i32) -> (status: u16)
    ensures
        status == 204,
{
    let _unused = id;
    204
}

/// `GET /users/{user_id}/posts`: one fixed post owned by the given user.
pub fn get_user_posts(user_id: i32) -> (ps: Vec<Post>)
    ensures
        ps@.len() == 1,
        ps@[0]@ == (PostV {
            id: 1,
            user_id: user_id as int,
            title: "User Post"@,
            body: "Content"@,
        }),
{
    let mut ps: Vec<Post> = Vec::new();
    ps.push(
        Post { id: 1, user_id: user_id, title: "User Post".to_owned(), body: "Content".to_owned() },
    );
    ps
}

/// `GET /posts`: the two fixed sample posts.
pub fn list_posts() -> (ps: Vec<Post>)
    ensures
        ps@.len() == 2,
        ps@[0]@ == (PostV { id: 1, user_id: 1, title: "First Post"@, body: "Hello world"@ }),
        ps@[1]@ == (PostV { id: 2, user_id: 1, title: "Second Post"@, body: "Another post"@ }),
{
    let mut ps: Vec<Post> = Vec::new();
    ps.push(
        Post { id: 1, user_id: 1, title: "First Post".to_owned(), body: "Hello world".to_owned() },
    );
    ps.push(
        Post {
            id: 2,
            user_id: 1,
            title: "Second Post".to_owned(),
            body: "Another post".to_owned(),
        },
    );
    ps
}

/// `GET /posts/{id}`: the sample post under the given id.
pub fn get_post(id: i32) -> (p: Post)
    ensures
        p@ == (PostV { id: id as int, user_id: 1, title: "Sample Post"@, body: "Post body"@ }),
{
    Post { id: id, user_id: 1, title: "Sample Post".to_owned(), body: "Post body".to_owned() }
}

/// `POST /posts`: echoes the submitted post with the id forced to 1.
pub fn create_post(post: Post) -> (p: Post)
    ensures
        p@ == (PostV {
            id: 1,
            user_id: post.user_id as int,
            title: post.title@,
            body: post.body@,
        }),
{
    let mut new_post = post;
    new_post.id = 1;
    new_post
}

/// `PUT /posts/{id}`: echoes the submitted post with the id from the path,
/// or reports the post absent when the id is above [`MAX_POST_ID`].
pub fn update_post(id: i32, post: Post) -> (r: Option<Post>)
    ensures
        id > MAX_POST_ID as int ==> r is None,
        id <= MAX_POST_ID as int ==> (r matches Some(p) && p@ == (PostV {
            id: id as int,
            user_id: post.user_id as int,
            title: post.title@,
            body: post.body@,
        })),
{
    if id > MAX_POST_ID {
        return None;
    }
    let mut updated = post;
    updated.id = id;
    Some(updated)
}

/// `DELETE /posts/{id}`: no content up to [`MAX_POST_ID`], not found above.
pub fn delete_post(id: i32) -> (status: u16)
    ensures
        id <= MAX_POST_ID as int ==> status == 204,
        id > MAX_POST_ID as int ==> status == 404,
{
    if id > MAX_POST_ID {
        404
    } else {
        204
    }
}

} // verus!
