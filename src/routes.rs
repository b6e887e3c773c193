//! The route table, and the replies whose body is known before they are sent.

use vstd::prelude::*;

use crate::config::{config_path, large_path, small_path, upload_path};
use crate::entropy::{fill_random, EntropyError};

verus! {

/// The handler a request goes to.
#[derive(Clone, Copy, Debug, PartialEq, Eq, Structural)]
pub enum Route {
    Config,
    Small,
    Large,
    Upload,
    NotFound,
}

/// The route table: exact matches on method and path, everything else not
/// found.
pub open spec fn route_of(method: Seq<char>, path: Seq<char>) -> Route {
    if method == "GET"@ && path == config_path() {
        Route::Config
    } else if method == "GET"@ && path == small_path() {
        Route::Small
    } else if method == "GET"@ && path == large_path() {
        Route::Large
    } else if method == "POST"@ && path == upload_path() {
        Route::Upload
    } else {
        Route::NotFound
    }
}

/// Whether two strings hold the same characters. The lengths are compared
/// first, so a long string is walked once.
fn same_text(a: &str, b: &str) -> (r: bool)
    ensures
        r == (a@ == b@),
{
    let n = a.unicode_len();
    if n != b.unicode_len() {
        return false;
    }
    let mut i: usize = 0;
    while i < n
        invariant
            n == a@.len(),
            n == b@.len(),
            i <= n,
            forall|k: int| 0 <= k < i ==> a@[k] == b@[k],
        decreases n - i,
    {
        if a.get_char(i) != b.get_char(i) {
            return false;
        }
        i = i + 1;
    }
    assert(a@ =~= b@);
    true
}

/// Picks the handler for a request by its method and path.
pub fn route(method: &str, path: &str) -> (r: Route)
    ensures
        r == route_of(method@, path@),
{
    let get = same_text(method, "GET");
    if get && same_text(path, "/api/v1/config") {
        Route::Config
    } else if get && same_text(path, "/api/v1/small") {
        Route::Small
    } else if get && same_text(path, "/api/v1/large") {
        Route::Large
    } else if same_text(method, "POST") && same_text(path, "/api/v1/upload") {
        Route::Upload
    } else {
        Route::NotFound
    }
}

/// The status every response on a route carries: 404 where nothing matched,
/// 200 on the others.
pub open spec fn status_of(route: Route) -> u16 {
    match route {
        Route::NotFound => 404,
        _ => 200,
    }
}

/// The status every response on `route` carries.
pub fn status(route: Route) -> (r: u16)
    ensures
        r == status_of(route),
{
    match route {
        Route::NotFound => 404,
        _ => 200,
    }
}

/// A response whose body is complete before it is sent.
pub struct Reply {
    pub status: u16,
    pub body: Vec<u8>,
}

/// `Not Found` in ASCII.
pub open spec fn not_found_text() -> Seq<u8> {
    seq![78u8, 111u8, 116u8, 32u8, 70u8, 111u8, 117u8, 110u8, 100u8]
}

/// The reply to a request that no route matches: 404, `Not Found`.
pub fn not_found() -> (r: Reply)
    ensures
        r.status == 404,
        r.body@ == not_found_text(),
{
    let body: Vec<u8> = vec![78u8, 111u8, 116u8, 32u8, 70u8, 111u8, 117u8, 110u8, 100u8];
    Reply { status: 404, body }
}

/// The reply to an upload, sent once its body has been read to the end:
/// 200, empty.
pub fn upload_reply() -> (r: Reply)
    ensures
        r.status == status_of(Route::Upload),
        r.body@.len() == 0,
{
    Reply { status: 200, body: Vec::new() }
}

/// The reply to the small download, carrying the one byte `b`.
pub fn small_reply(b: u8) -> (r: Reply)
    ensures
        r.status == status_of(Route::Small),
        r.body@ == seq![b],
{
    let mut body: Vec<u8> = Vec::new();
    body.push(b);
    Reply { status: 200, body }
}

/// The reply to the small download: 200 and one random byte.
pub fn small() -> (r: Result<Reply, EntropyError>)
    ensures
        r matches Ok(reply) ==> reply.status == 200 && reply.body@.len() == 1,
{
    let mut rng = rand::rngs::OsRng::default();
    let mut buf: Vec<u8> = vec![0u8; 1];
    match fill_random(&mut rng, &mut buf) {
        Ok(()) => Ok(small_reply(buf[0])),
        Err(e) => Err(e),
    }
}

/// A request outside the route table, a known path with another method
/// included, goes to the not-found handler and gets status 404.
pub proof fn lemma_unmapped_not_found(method: Seq<char>, path: Seq<char>)
    requires
        !(method == "GET"@ && path == config_path()),
        !(method == "GET"@ && path == small_path()),
        !(method == "GET"@ && path == large_path()),
        !(method == "POST"@ && path == upload_path()),
    ensures
        route_of(method, path) == Route::NotFound,
        status_of(route_of(method, path)) == 404,
{
}

/// The table maps each of its four pairs to its own handler, and the same
/// paths under the other method to the not-found handler.
pub proof fn lemma_route_table()
    ensures
        route_of("GET"@, config_path()) == Route::Config,
        route_of("GET"@, small_path()) == Route::Small,
        route_of("GET"@, large_path()) == Route::Large,
        route_of("POST"@, upload_path()) == Route::Upload,
        route_of("POST"@, config_path()) == Route::NotFound,
        route_of("POST"@, small_path()) == Route::NotFound,
        route_of("POST"@, large_path()) == Route::NotFound,
        route_of("GET"@, upload_path()) == Route::NotFound,
{
    reveal_strlit("GET");
    reveal_strlit("POST");
    reveal_strlit("/api/v1/config");
    reveal_strlit("/api/v1/small");
    reveal_strlit("/api/v1/large");
    reveal_strlit("/api/v1/upload");
    assert("GET"@.len() != "POST"@.len());
    assert("/api/v1/config"@.len() != "/api/v1/small"@.len());
    assert("/api/v1/config"@.len() != "/api/v1/large"@.len());
    assert("/api/v1/upload"@.len() != "/api/v1/small"@.len());
    assert("/api/v1/upload"@.len() != "/api/v1/large"@.len());
    assert("/api/v1/small"@[8] != "/api/v1/large"@[8]);
    assert("/api/v1/config"@[8] != "/api/v1/upload"@[8]);
}

} // verus!
