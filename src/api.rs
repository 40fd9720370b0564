//! The requests of the catalog API, built from plain values.
use vstd::prelude::*;
use crate::catalog::{names, PageRequest};

verus! {

/// Root of every catalog request.
pub const BASE_URL: &'static str = "https://api.twitch.tv/helix";

/// The texts of `parts` with `sep` between each two.
pub open spec fn joined(parts: Seq<Seq<char>>, sep: Seq<char>) -> Seq<char>
    decreases parts.len(),
{
    if parts.len() == 0 {
        Seq::empty()
    } else if parts.len() == 1 {
        parts[0]
    } else {
        joined(parts.drop_last(), sep) + sep + parts.last()
    }
}

/// The address of the live stream listing.
pub fn streams_url() -> (r: String)
    ensures
        r@ == BASE_URL@ + "/streams"@,
{
    let mut url = String::from_str(BASE_URL);
    url.append("/streams");
    url
}

/// The value of the `Authorization` header for an access token.
pub fn authorization_value(access_token: &str) -> (r: String)
    ensures
        r@ == "Bearer "@ + access_token@,
{
    let mut value = String::from_str("Bearer ");
    value.append(access_token);
    value
}

/// The address of a category search for `keyword`.
pub fn categories_url(keyword: &str) -> (r: String)
    ensures
        r@ == BASE_URL@ + "/search/categories?query="@ + keyword@,
{
    let mut url = String::from_str(BASE_URL);
    url.append("/search/categories?query=");
    url.append(keyword);
    url
}

/// The address of a user lookup of every name of `logins` at once.
pub fn users_url(logins: &Vec<String>) -> (r: String)
    ensures
        r@ == BASE_URL@ + "/users?login="@ + joined(names(logins@), "&login="@),
{
    let mut list = String::new();
    let mut i: usize = 0;
    while i < logins.len()
        invariant
            i <= logins@.len(),
            list@ == joined(names(logins@).take(i as int), "&login="@),
        decreases logins@.len() - i,
    {
        let ghost before = list@;
        if i > 0 {
            list.append("&login=");
        }
        list.append(logins[i].as_str());
        proof {
            let t = names(logins@).take(i + 1);
            assert(t.drop_last() =~= names(logins@).take(i as int));
            assert(t.last() == logins@[i as int]@);
            if i == 0 {
                assert(before =~= Seq::<char>::empty());
                assert(list@ =~= t[0]);
            }
        }
        i = i + 1;
    }
    assert(names(logins@).take(i as int) =~= names(logins@));
    let mut url = String::from_str(BASE_URL);
    url.append("/users?login=");
    url.append(list.as_str());
    url
}

/// The query of one page of the live streams of a category: live streams
/// only, a hundred a page, of `category_id`, after the cursor when there is
/// one.
pub fn streams_query(category_id: &str, request: &PageRequest) -> (r: Vec<(String, String)>)
    ensures
        r@.len() == if request is After { 4int } else { 3int },
        r@[0].0@ == "type"@ && r@[0].1@ == "live"@,
        r@[1].0@ == "first"@ && r@[1].1@ == "100"@,
        r@[2].0@ == "game_id"@ && r@[2].1@ == category_id@,
        request matches PageRequest::After(c) ==> r@[3].0@ == "after"@ && r@[3].1@ == c@,
{
    let mut r: Vec<(String, String)> = Vec::new();
    r.push((String::from_str("type"), String::from_str("live")));
    r.push((String::from_str("first"), String::from_str("100")));
    r.push((String::from_str("game_id"), String::from_str(category_id)));
    match request {
        PageRequest::After(c) => {
            r.push((String::from_str("after"), c.clone()));
        },
        PageRequest::First => {},
    }
    r
}

} // verus!
