//! A route table: for each pair of a method and a path, the handler that serves it.

use vstd::prelude::*;
use vstd::hash_map::StringHashMap;
use vstd::string::*;
use crate::text::{
    append_decimal, decimal, lemma_decimal_holds_no_colon, lemma_decimal_reads_back,
};

verus! {

/// A route table as a value: for each method and path that has a route, its handler.
pub type Routes<H> = Map<(Seq<char>, Seq<char>), H>;

/// The handler that `routes` holds for `method` and `path`, if any. Both must
/// match exactly, letter case included.
pub open spec fn lookup<H>(routes: Routes<H>, method: Seq<char>, path: Seq<char>) -> Option<H> {
    if routes.contains_key((method, path)) {
        Some(routes[(method, path)])
    } else {
        None
    }
}

/// The key under which the route for `method` and `path` is filed: the length
/// of the method as a numeral, a colon, the method, the path.
pub open spec fn route_key(method: Seq<char>, path: Seq<char>) -> Seq<char> {
    decimal(method.len()) + seq![':'] + method + path
}

/// No two routes share a key: a key tells its method and its path.
pub proof fn lemma_route_key_is_injective(
    method: Seq<char>,
    path: Seq<char>,
    other_method: Seq<char>,
    other_path: Seq<char>,
)
    requires
        route_key(method, path) == route_key(other_method, other_path),
    ensures
        method == other_method,
        path == other_path,
{
    let key = route_key(method, path);
    let other_key = route_key(other_method, other_path);
    let length = decimal(method.len());
    let other_length = decimal(other_method.len());
    lemma_decimal_holds_no_colon(method.len());
    lemma_decimal_holds_no_colon(other_method.len());
    // The first colon of a key ends the numeral, so the two numerals end together.
    if length.len() < other_length.len() {
        assert(key[length.len() as int] == ':');
        assert(other_key[length.len() as int] == other_length[length.len() as int]);
    }
    if other_length.len() < length.len() {
        assert(other_key[other_length.len() as int] == ':');
        assert(key[other_length.len() as int] == length[other_length.len() as int]);
    }
    assert(length =~= other_length) by {
        assert forall|i: int| 0 <= i < length.len() implies length[i] == other_length[i] by {
            assert(key[i] == length[i]);
            assert(other_key[i] == other_length[i]);
        }
    }
    lemma_decimal_reads_back(method.len());
    lemma_decimal_reads_back(other_method.len());
    let start = length.len() + 1;
    assert(method =~= other_method) by {
        assert forall|i: int| 0 <= i < method.len() implies method[i] == other_method[i] by {
            assert(key[start + i] == method[i]);
            assert(other_key[start + i] == other_method[i]);
        }
    }
    assert(path =~= other_path) by {
        assert(key.len() == start + method.len() + path.len());
        assert(other_key.len() == start + other_method.len() + other_path.len());
        assert forall|i: int| 0 <= i < path.len() implies path[i] == other_path[i] by {
            assert(key[start + method.len() + i] == path[i]);
            assert(other_key[start + method.len() + i] == other_path[i]);
        }
    }
}

/// Routes requests to handlers by method and path.
///
/// A route is identified by its method and its path together: adding a route
/// for a pair that has one replaces it, and leaves the routes of all other pairs
/// as they are. A handler is whatever the owner of the table wants to get back
/// from a lookup; the table never calls it.
#[verifier::reject_recursive_types(H)]
pub struct Router<H> {
    routes: StringHashMap<H>,
}

impl<H> View for Router<H> {
    type V = Routes<H>;

    closed spec fn view(&self) -> Routes<H> {
        Map::new(
            |pair: (Seq<char>, Seq<char>)| self.routes@.contains_key(route_key(pair.0, pair.1)),
            |pair: (Seq<char>, Seq<char>)| self.routes@[route_key(pair.0, pair.1)],
        )
    }
}

/// Makes the key under which the route for `method` and `path` is filed.
fn make_key(method: &str, path: &str) -> (key: String)
    ensures
        key@ == route_key(method@, path@),
{
    proof {
        reveal_strlit(":");
    }
    let mut key = String::new();
    let length: usize = method.unicode_len();
    append_decimal(&mut key, length as u64);
    key.append(":");
    key.append(method);
    key.append(path);
    assert(key@ =~= route_key(method@, path@));
    key
}

impl<H> Router<H> {
    /// A table without routes.
    pub fn new() -> (router: Router<H>)
        ensures
            router@ == Routes::<H>::empty(),
    {
        let router = Router { routes: StringHashMap::new() };
        assert(router@ =~= Routes::<H>::empty());
        router
    }

    /// Adds the route from `method` and `path` to `handler`. It replaces the
    /// route that this method and path had before, if any, and no other.
    pub fn add_route(&mut self, method: &str, path: &str, handler: H)
        ensures
            final(self)@ == old(self)@.insert((method@, path@), handler),
    {
        self.routes.insert(make_key(method, path), handler);
        proof {
            let added = old(self)@.insert((method@, path@), handler);
            assert forall|pair: (Seq<char>, Seq<char>)|
                pair != (method@, path@) implies route_key(pair.0, pair.1) != route_key(
                method@,
                path@,
            ) by {
                if route_key(pair.0, pair.1) == route_key(method@, path@) {
                    lemma_route_key_is_injective(pair.0, pair.1, method@, path@);
                }
            }
            assert(self@ =~= added);
        }
    }

    /// The handler of the route for `method` and `path`, if there is one.
    pub fn get_route(&self, method: &str, path: &str) -> (handler: Option<&H>)
        ensures
            match handler {
                Some(found) => lookup(self@, method@, path@) == Some(*found),
                None => lookup(self@, method@, path@) is None,
            },
    {
        let key = make_key(method, path);
        self.routes.get(key.as_str())
    }
}

} // verus!
