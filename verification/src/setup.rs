//! What the settings of the server come to.

use crate::text::{begins_with, contains, occurs, pieces, replace, replaced, split, stands_at, texts};
use crate::utils::config::config_string;
use vstd::prelude::*;

verus! {

/// Those of `names` that are not empty, in their order.
pub open spec fn non_empty(names: Seq<Seq<char>>) -> Seq<Seq<char>>
    decreases names.len(),
{
    if names.len() == 0 {
        Seq::empty()
    } else {
        let before = non_empty(names.drop_last());
        if names.last().len() > 0 {
            before.push(names.last())
        } else {
            before
        }
    }
}

/// The games that are allowed, where `read` names them with commas between them.
pub fn allowed_games_types(read: Option<String>) -> (r: Vec<String>)
    ensures
        texts(r@) == match read {
            Some(text) => non_empty(pieces(text@, ',')),
            None => Seq::empty(),
        },
{
    let text = match read {
        Some(text) => text,
        None => {
            let r: Vec<String> = Vec::new();
            assert(texts(r@) =~= Seq::empty());
            return r;
        },
    };
    let names = split(text.as_str(), ',');
    let ghost all = texts(names@);
    let mut r: Vec<String> = Vec::new();
    let mut i: usize = 0;
    proof {
        assert(all.take(0) =~= Seq::empty());
        assert(texts(r@) =~= non_empty(all.take(0)));
    }
    while i < names.len()
        invariant
            i <= names.len(),
            all == texts(names@),
            texts(r@) == non_empty(all.take(i as int)),
        decreases names.len() - i,
    {
        let ghost before = texts(r@);
        assert(all.take(i + 1).drop_last() =~= all.take(i as int));
        if names[i].unicode_len() > 0 {
            r.push(names[i].clone());
            assert(texts(r@) =~= before.push(all[i as int]));
        }
        i = i + 1;
    }
    assert(all.take(i as int) =~= all);
    r
}

/// `address` with a scheme: one that has none is an HTTP address.
pub open spec fn with_scheme(address: Seq<char>) -> Seq<char> {
    if !stands_at(address, "http"@, 0) && !occurs(address, "://"@) {
        "http://"@ + address
    } else {
        address
    }
}

/// The address at which the HTTP server can be reached: the one that was read or, failing that,
/// the one that it listens at.
pub fn http_public_address(read: Option<String>, bind_address: &str) -> (r: String)
    ensures
        r@ == with_scheme(
            match read {
                Some(address) => address@,
                None => bind_address@,
            },
        ),
{
    let address = config_string(read, bind_address);
    if !begins_with(address.as_str(), "http") && !contains(address.as_str(), "://") {
        let mut r = "http://".to_owned();
        r.append(address.as_str());
        r
    } else {
        address
    }
}

/// The address at which WebSocket connections are taken: the one that was read or, failing that,
/// the HTTP address with the other scheme.
pub fn ws_public_address(read: Option<String>, http_address: &str) -> (r: String)
    ensures
        r@ == match read {
            Some(address) => address@,
            None => replaced(http_address@, "http"@, "ws"@),
        },
{
    proof {
        reveal_strlit("http");
    }
    let default = replace(http_address, "http", "ws");
    config_string(read, default.as_str())
}

/// Every address that clients are given has a scheme, or at least begins like one.
pub proof fn public_address_has_scheme(address: Seq<char>)
    ensures
        stands_at(with_scheme(address), "http"@, 0) || occurs(with_scheme(address), "://"@),
{
    if !stands_at(address, "http"@, 0) && !occurs(address, "://"@) {
        reveal_strlit("http");
        reveal_strlit("http://");
        let full = "http://"@ + address;
        assert(full.subrange(0, 4) =~= "http"@);
        assert(stands_at(full, "http"@, 0));
    }
}

} // verus!
