//! Resolving what to watch: a category name to its id, the live channels of
//! a category page by page, and an explicit list of channel names to those
//! that exist.
use vstd::prelude::*;

verus! {

/// One candidate of a category search.
pub struct Category {
    pub id: String,
    pub name: String,
}

/// One account that a user lookup found.
pub struct User {
    pub login: String,
}

/// One live broadcast of a category.
pub struct Stream {
    pub user_login: String,
}

/// Client identifier and access token of the catalog API.
pub struct Credentials {
    pub client_id: String,
    pub access_token: String,
}

/// Why a resolution failed. Every one of these ends the run.
#[derive(Clone, Copy, Debug, PartialEq, Eq, Structural)]
pub enum ResolutionError {
    Unauthorized,
    BadRequest,
    NotFound,
    Unexpected,
}

/// The outcome of a catalog response with the given HTTP status code.
pub open spec fn status_outcome_spec(status: u16) -> Result<(), ResolutionError> {
    if 200 <= status <= 299 {
        Ok(())
    } else if status == 400 {
        Err(ResolutionError::BadRequest)
    } else if status == 401 {
        Err(ResolutionError::Unauthorized)
    } else {
        Err(ResolutionError::Unexpected)
    }
}

/// Classifies the status code of a catalog response: success for 2xx,
/// `BadRequest` for 400, `Unauthorized` for 401, `Unexpected` otherwise.
pub fn status_outcome(status: u16) -> (r: Result<(), ResolutionError>)
    ensures
        r == status_outcome_spec(status),
{
    if 200 <= status && status <= 299 {
        Ok(())
    } else if status == 400 {
        Err(ResolutionError::BadRequest)
    } else if status == 401 {
        Err(ResolutionError::Unauthorized)
    } else {
        Err(ResolutionError::Unexpected)
    }
}

/// A character with ASCII upper case letters moved to lower case, as a code.
pub open spec fn ascii_folded(c: char) -> u32 {
    if 'A' <= c && c <= 'Z' {
        (c as u32 + 32) as u32
    } else {
        c as u32
    }
}

/// Two texts are equal once ASCII letters are put in one case.
pub open spec fn same_ignoring_ascii_case(a: Seq<char>, b: Seq<char>) -> bool {
    &&& a.len() == b.len()
    &&& forall|i: int| 0 <= i < a.len() ==> ascii_folded(#[trigger] a[i]) == ascii_folded(b[i])
}

/// Relies on `str::eq_ignore_ascii_case`, documented as
/// `to_ascii_lowercase(a) == to_ascii_lowercase(b)`.
pub assume_specification[ str::eq_ignore_ascii_case ](s: &str, other: &str) -> (r: bool)
    ensures
        r == same_ignoring_ascii_case(s@, other@),
;

/// Index of the first category whose name equals `keyword` up to ASCII case,
/// searching from `from`; `None` if there is none.
pub open spec fn first_match_from(cats: Seq<Category>, keyword: Seq<char>, from: int) -> Option<int>
    decreases cats.len() - from,
{
    if from < 0 || from >= cats.len() {
        None
    } else if same_ignoring_ascii_case(cats[from].name@, keyword) {
        Some(from)
    } else {
        first_match_from(cats, keyword, from + 1)
    }
}

/// The id that a category search resolves to: that of the first candidate,
/// in search order, whose name is `keyword` up to ASCII case.
pub open spec fn category_choice(cats: Seq<Category>, keyword: Seq<char>) -> Option<Seq<char>> {
    match first_match_from(cats, keyword, 0) {
        Some(i) => Some(cats[i].id@),
        None => None,
    }
}

/// Picks, among the results of a category search, the id of the first one
/// whose name equals `keyword` ignoring ASCII case. `None` when no name does:
/// a category that does not exist is no error.
pub fn resolve_category_id(categories: &Vec<Category>, keyword: &str) -> (r: Option<String>)
    ensures
        r.is_none() <==> category_choice(categories@, keyword@).is_none(),
        r matches Some(id) ==> category_choice(categories@, keyword@) == Some(id@),
{
    let mut i: usize = 0;
    while i < categories.len()
        invariant
            i <= categories@.len(),
            first_match_from(categories@, keyword@, 0) == first_match_from(
                categories@,
                keyword@,
                i as int,
            ),
        decreases categories@.len() - i,
    {
        if categories[i].name.as_str().eq_ignore_ascii_case(keyword) {
            return Some(categories[i].id.clone());
        }
        i = i + 1;
    }
    None
}

/// The lookup ignores ASCII case in the keyword: two keywords that differ only
/// in the case of their letters resolve to the same category.
pub proof fn lemma_category_lookup_ignores_case(
    cats: Seq<Category>,
    k1: Seq<char>,
    k2: Seq<char>,
)
    requires
        same_ignoring_ascii_case(k1, k2),
    ensures
        category_choice(cats, k1) == category_choice(cats, k2),
{
    lemma_first_match_ignores_case(cats, k1, k2, 0);
}

proof fn lemma_first_match_ignores_case(cats: Seq<Category>, k1: Seq<char>, k2: Seq<char>, from: int)
    requires
        same_ignoring_ascii_case(k1, k2),
    ensures
        first_match_from(cats, k1, from) == first_match_from(cats, k2, from),
    decreases cats.len() - from,
{
    if 0 <= from < cats.len() {
        let name = cats[from].name@;
        assert(same_ignoring_ascii_case(name, k1) == same_ignoring_ascii_case(name, k2)) by {
            if same_ignoring_ascii_case(name, k1) {
                assert forall|i: int| 0 <= i < name.len() implies ascii_folded(#[trigger] name[i])
                    == ascii_folded(k2[i]) by {
                    assert(ascii_folded(k1[i]) == ascii_folded(k2[i]));
                }
            }
            if same_ignoring_ascii_case(name, k2) {
                assert forall|i: int| 0 <= i < name.len() implies ascii_folded(#[trigger] name[i])
                    == ascii_folded(k1[i]) by {
                    assert(ascii_folded(k1[i]) == ascii_folded(k2[i]));
                }
            }
        }
        lemma_first_match_ignores_case(cats, k1, k2, from + 1);
    }
}

/// The texts of a list of strings.
pub open spec fn names(v: Seq<String>) -> Seq<Seq<char>> {
    v.map_values(|s: String| s@)
}

/// What `str::to_lowercase` gives for a text.
pub uninterp spec fn lower_of(s: Seq<char>) -> Seq<char>;

/// Every text of a list put in lower case.
pub open spec fn lowered(v: Seq<Seq<char>>) -> Seq<Seq<char>> {
    v.map_values(|s: Seq<char>| lower_of(s))
}

/// Relies on `str::to_lowercase`: the Unicode lower case of `s`, which
/// depends on the characters of `s` alone.
#[verifier::external_body]
fn to_lower(s: &str) -> (r: String)
    ensures
        r@ == lower_of(s@),
{
    s.to_lowercase()
}

/// Puts every channel name in lower case, keeping the order.
pub fn normalize_channels(channels: &Vec<String>) -> (r: Vec<String>)
    ensures
        names(r@) == lowered(names(channels@)),
{
    let mut r: Vec<String> = Vec::new();
    let mut i: usize = 0;
    while i < channels.len()
        invariant
            i <= channels@.len(),
            r@.len() == i,
            names(r@) == lowered(names(channels@)).take(i as int),
        decreases channels@.len() - i,
    {
        let lower = to_lower(channels[i].as_str());
        let ghost before = r@;
        r.push(lower);
        proof {
            assert(r@ == before.push(lower));
            assert(names(r@)[i as int] == lower@);
            assert(names(channels@)[i as int] == channels@[i as int]@);
            assert(lowered(names(channels@))[i as int] == lower_of(channels@[i as int]@));
            assert forall|j: int| 0 <= j < i implies names(r@)[j] == names(before)[j] by {
                assert(r@[j] == before[j]);
            }
            assert(names(r@) =~= lowered(names(channels@)).take(i + 1));
        }
        i = i + 1;
    }
    assert(lowered(names(channels@)).take(i as int) =~= lowered(names(channels@)));
    r
}

/// The requested names that `existing` holds, each once, in the order of
/// their first request.
pub open spec fn found_of(requested: Seq<Seq<char>>, existing: Seq<Seq<char>>) -> Seq<Seq<char>>
    decreases requested.len(),
{
    if requested.len() == 0 {
        Seq::empty()
    } else {
        let before = found_of(requested.drop_last(), existing);
        let x = requested.last();
        if existing.contains(x) && !requested.drop_last().contains(x) {
            before.push(x)
        } else {
            before
        }
    }
}

/// The requested names that `existing` lacks, each once, in the order of
/// their first request.
pub open spec fn missing_of(requested: Seq<Seq<char>>, existing: Seq<Seq<char>>) -> Seq<Seq<char>>
    decreases requested.len(),
{
    if requested.len() == 0 {
        Seq::empty()
    } else {
        let before = missing_of(requested.drop_last(), existing);
        let x = requested.last();
        if !existing.contains(x) && !requested.drop_last().contains(x) {
            before.push(x)
        } else {
            before
        }
    }
}

proof fn lemma_split_contents(requested: Seq<Seq<char>>, existing: Seq<Seq<char>>)
    ensures
        forall|x: Seq<char>|
            #[trigger] found_of(requested, existing).contains(x) <==> (requested.contains(x)
                && existing.contains(x)),
        forall|x: Seq<char>|
            #[trigger] missing_of(requested, existing).contains(x) <==> (requested.contains(x)
                && !existing.contains(x)),
    decreases requested.len(),
{
    if requested.len() > 0 {
        let rest = requested.drop_last();
        let last = requested.last();
        lemma_split_contents(rest, existing);
        assert(requested =~= rest.push(last));
        assert forall|x: Seq<char>| #[trigger] requested.contains(x) <==> (rest.contains(x) || x
            == last) by {
            if requested.contains(x) {
                let j = choose|j: int| 0 <= j < requested.len() && requested[j] == x;
                if j < rest.len() {
                    assert(rest[j] == x);
                }
            }
            if rest.contains(x) {
                let j = choose|j: int| 0 <= j < rest.len() && rest[j] == x;
                assert(requested[j] == x);
            }
            if x == last {
                assert(requested[requested.len() - 1] == x);
            }
        }
        let f = found_of(rest, existing);
        let m = missing_of(rest, existing);
        assert forall|x: Seq<char>| #[trigger] f.push(last).contains(x) <==> (f.contains(x) || x
            == last) by {
            if f.push(last).contains(x) {
                let j = choose|j: int| 0 <= j < f.push(last).len() && f.push(last)[j] == x;
                if j < f.len() {
                    assert(f[j] == x);
                }
            }
            if f.contains(x) {
                let j = choose|j: int| 0 <= j < f.len() && f[j] == x;
                assert(f.push(last)[j] == x);
            }
            if x == last {
                assert(f.push(last)[f.len() as int] == x);
            }
        }
        assert forall|x: Seq<char>| #[trigger] m.push(last).contains(x) <==> (m.contains(x) || x
            == last) by {
            if m.push(last).contains(x) {
                let j = choose|j: int| 0 <= j < m.push(last).len() && m.push(last)[j] == x;
                if j < m.len() {
                    assert(m[j] == x);
                }
            }
            if m.contains(x) {
                let j = choose|j: int| 0 <= j < m.len() && m[j] == x;
                assert(m.push(last)[j] == x);
            }
            if x == last {
                assert(m.push(last)[m.len() as int] == x);
            }
        }
    }
}

/// An explicit lookup splits the requested names in two: every requested name
/// lands in exactly one of `found` and `not_found`, nothing else does, `found`
/// holds only names that exist and `not_found` only names that do not.
pub proof fn lemma_split_partitions(requested: Seq<Seq<char>>, existing: Seq<Seq<char>>)
    ensures
        found_of(requested, existing).to_set() + missing_of(requested, existing).to_set()
            == requested.to_set(),
        found_of(requested, existing).to_set() * missing_of(requested, existing).to_set()
            == Set::<Seq<char>>::empty(),
        found_of(requested, existing).to_set() <= existing.to_set(),
        missing_of(requested, existing).to_set() * existing.to_set() == Set::<Seq<char>>::empty(),
{
    lemma_split_contents(requested, existing);
    let f = found_of(requested, existing);
    let m = missing_of(requested, existing);
    assert(f.to_set() + m.to_set() =~= requested.to_set());
    assert(f.to_set() * m.to_set() =~= Set::<Seq<char>>::empty());
    assert(m.to_set() * existing.to_set() =~= Set::<Seq<char>>::empty());
}

/// Whether one of the first `end` names of `v` is `x`.
fn holds_name(v: &Vec<String>, end: usize, x: &String) -> (r: bool)
    requires
        end <= v@.len(),
    ensures
        r == names(v@).take(end as int).contains(x@),
{
    let mut i: usize = 0;
    while i < end
        invariant
            i <= end <= v@.len(),
            forall|j: int| 0 <= j < i ==> v@[j]@ != x@,
        decreases end - i,
    {
        if v[i] == *x {
            assert(names(v@).take(end as int)[i as int] == x@);
            return true;
        }
        i = i + 1;
    }
    proof {
        if names(v@).take(end as int).contains(x@) {
            let j = choose|j: int| 0 <= j < end && names(v@).take(end as int)[j] == x@;
            assert(v@[j]@ == x@);
        }
    }
    false
}

/// Splits already normalized channel names into those that `existing` holds
/// and those it lacks. Each name appears once, in the order of its first
/// request.
pub fn split_existing(requested: &Vec<String>, existing: &Vec<String>) -> (r: (
    Vec<String>,
    Vec<String>,
))
    ensures
        names(r.0@) == found_of(names(requested@), names(existing@)),
        names(r.1@) == missing_of(names(requested@), names(existing@)),
{
    let ghost req = names(requested@);
    let ghost ex = names(existing@);
    let mut found: Vec<String> = Vec::new();
    let mut missing: Vec<String> = Vec::new();
    let mut i: usize = 0;
    while i < requested.len()
        invariant
            i <= requested@.len(),
            req == names(requested@),
            ex == names(existing@),
            names(found@) == found_of(req.take(i as int), ex),
            names(missing@) == missing_of(req.take(i as int), ex),
        decreases requested@.len() - i,
    {
        let x = &requested[i];
        let seen = holds_name(requested, i, x);
        let present = holds_name(existing, existing.len(), x);
        proof {
            assert(req.take(i + 1).drop_last() =~= req.take(i as int));
            assert(req.take(i + 1).last() == x@);
            assert(names(existing@).take(existing@.len() as int) =~= ex);
        }
        if !seen {
            if present {
                found.push(x.clone());
                assert(names(found@) =~= found_of(req.take(i + 1), ex));
            } else {
                missing.push(x.clone());
                assert(names(missing@) =~= missing_of(req.take(i + 1), ex));
            }
        }
        i = i + 1;
    }
    assert(req.take(i as int) =~= req);
    (found, missing)
}

/// The names of `s`, each once, in the order of its first occurrence.
pub open spec fn unique_of(s: Seq<Seq<char>>) -> Seq<Seq<char>>
    decreases s.len(),
{
    if s.len() == 0 {
        Seq::empty()
    } else {
        let before = unique_of(s.drop_last());
        if s.drop_last().contains(s.last()) {
            before
        } else {
            before.push(s.last())
        }
    }
}

/// Dropping repeats keeps every name and nothing else, and leaves no name
/// twice.
pub proof fn lemma_unique_of(s: Seq<Seq<char>>)
    ensures
        unique_of(s).no_duplicates(),
        unique_of(s).to_set() == s.to_set(),
        unique_of(s).len() <= s.len(),
        s.len() > 0 ==> unique_of(s).len() > 0,
    decreases s.len(),
{
    if s.len() > 0 {
        let rest = s.drop_last();
        let last = s.last();
        let u = unique_of(rest);
        lemma_unique_of(rest);
        assert(s =~= rest.push(last));
        assert forall|x: Seq<char>| #[trigger] s.contains(x) <==> (rest.contains(x) || x == last) by {
            if s.contains(x) {
                let j = choose|j: int| 0 <= j < s.len() && s[j] == x;
                if j < rest.len() {
                    assert(rest[j] == x);
                }
            }
            if rest.contains(x) {
                let j = choose|j: int| 0 <= j < rest.len() && rest[j] == x;
                assert(s[j] == x);
            }
            if x == last {
                assert(s[s.len() - 1] == x);
            }
        }
        assert forall|x: Seq<char>| #[trigger] u.push(last).contains(x) <==> (u.contains(x) || x
            == last) by {
            if u.push(last).contains(x) {
                let j = choose|j: int| 0 <= j < u.push(last).len() && u.push(last)[j] == x;
                if j < u.len() {
                    assert(u[j] == x);
                }
            }
            if u.contains(x) {
                let j = choose|j: int| 0 <= j < u.len() && u[j] == x;
                assert(u.push(last)[j] == x);
            }
            if x == last {
                assert(u.push(last)[u.len() as int] == x);
            }
        }
        assert forall|x: Seq<char>| #[trigger] u.to_set().contains(x) <==> rest.to_set().contains(x) by {
            assert(u.to_set().contains(x) == u.contains(x));
            assert(rest.to_set().contains(x) == rest.contains(x));
        }
        if rest.contains(last) {
            assert(unique_of(s) == u);
            assert(unique_of(s).to_set() =~= s.to_set());
        } else {
            assert(unique_of(s) == u.push(last));
            assert(!u.contains(last)) by {
                assert(u.to_set().contains(last) == u.contains(last));
                assert(rest.to_set().contains(last) == rest.contains(last));
            }
            assert forall|i: int, j: int|
                0 <= i < u.push(last).len() && 0 <= j < u.push(last).len() && i != j implies
                #[trigger] u.push(last)[i] != #[trigger] u.push(last)[j] by {
                if i < u.len() && j < u.len() {
                    assert(u[i] != u[j]);
                } else if i < u.len() {
                    assert(u.contains(u[i]));
                } else if j < u.len() {
                    assert(u.contains(u[j]));
                }
            }
            assert forall|x: Seq<char>| #[trigger] unique_of(s).to_set().contains(x)
                <==> s.to_set().contains(x) by {
                assert(u.push(last).to_set().contains(x) == u.push(last).contains(x));
                assert(s.to_set().contains(x) == s.contains(x));
                assert(u.to_set().contains(x) == u.contains(x));
                assert(rest.to_set().contains(x) == rest.contains(x));
            }
            assert(unique_of(s).to_set() =~= s.to_set());
        }
    }
}

/// Normalizes channel names and drops repeats: the result holds each
/// lower-cased name once, in the order of its first occurrence.
pub fn unique_channels(channels: &Vec<String>) -> (r: Vec<String>)
    ensures
        names(r@) == unique_of(lowered(names(channels@))),
        names(r@).no_duplicates(),
        names(r@).to_set() == lowered(names(channels@)).to_set(),
        r@.len() == 0 <==> channels@.len() == 0,
{
    let lower = normalize_channels(channels);
    let ghost all = names(lower@);
    let mut r: Vec<String> = Vec::new();
    let mut i: usize = 0;
    while i < lower.len()
        invariant
            i <= lower@.len(),
            all == names(lower@),
            names(r@) == unique_of(all.take(i as int)),
        decreases lower@.len() - i,
    {
        let x = &lower[i];
        let seen = holds_name(&lower, i, x);
        proof {
            assert(all.take(i + 1).drop_last() =~= all.take(i as int));
            assert(all.take(i + 1).last() == x@);
        }
        if !seen {
            r.push(x.clone());
            assert(names(r@) =~= unique_of(all.take(i + 1)));
        }
        i = i + 1;
    }
    assert(all.take(i as int) =~= all);
    proof {
        lemma_unique_of(all);
    }
    r
}

/// Resolves an explicit list of channel names against the logins that a user
/// lookup returned. Both sides are put in lower case first, so the match
/// ignores case; the result is `(found, not_found)`.
pub fn resolve_explicit_channels(channels: &Vec<String>, existing: &Vec<String>) -> (r: (
    Vec<String>,
    Vec<String>,
))
    ensures
        names(r.0@) == found_of(lowered(names(channels@)), lowered(names(existing@))),
        names(r.1@) == missing_of(lowered(names(channels@)), lowered(names(existing@))),
{
    let requested = normalize_channels(channels);
    let known = normalize_channels(existing);
    split_existing(&requested, &known)
}

/// One page of a live stream listing: its entries, and the cursor of the
/// next page, absent on the last one.
pub struct StreamPage {
    pub streams: Vec<Stream>,
    pub cursor: Option<String>,
}

/// The channel names of a list of streams, in order.
pub open spec fn stream_logins(streams: Seq<Stream>) -> Seq<Seq<char>> {
    streams.map_values(|s: Stream| s.user_login@)
}

/// The text of an optional string.
pub open spec fn opt_view(s: Option<String>) -> Option<Seq<char>> {
    match s {
        Some(t) => Some(t@),
        None => None,
    }
}

/// The next page to ask for.
pub enum PageRequest {
    /// The first page, asked for without a cursor.
    First,
    /// The page that follows the given cursor.
    After(String),
}

/// What a listing has gathered so far.
pub struct PagerView {
    pub logins: Seq<Seq<char>>,
    pub cursor: Option<Seq<char>>,
    pub started: bool,
    pub finished: bool,
}

/// Walks a cursor-paginated listing of live streams: asks for the first page
/// with no cursor, then for the page after each returned cursor, and stops at
/// the first page that returns none. The channel names of all pages are kept
/// in the order they came.
pub struct StreamPager {
    logins: Vec<String>,
    cursor: Option<String>,
    started: bool,
    finished: bool,
}

impl View for StreamPager {
    type V = PagerView;

    closed spec fn view(&self) -> PagerView {
        PagerView {
            logins: names(self.logins@),
            cursor: opt_view(self.cursor),
            started: self.started,
            finished: self.finished,
        }
    }
}

impl StreamPager {
    /// A listing that has started and not ended holds a cursor, and one that
    /// has not started has not ended.
    pub open spec fn wf(&self) -> bool {
        &&& (self@.started && !self@.finished) ==> self@.cursor.is_some()
        &&& !self@.started ==> !self@.finished
    }

    /// A listing that has asked for nothing yet.
    pub fn new() -> (r: StreamPager)
        ensures
            r.wf(),
            r@.logins == Seq::<Seq<char>>::empty(),
            r@.cursor.is_none(),
            !r@.started,
            !r@.finished,
    {
        StreamPager { logins: Vec::new(), cursor: None, started: false, finished: false }
    }

    /// The request to make next: the first page, the page after the last
    /// cursor, or `None` once a page came back without a cursor.
    pub fn next_request(&self) -> (r: Option<PageRequest>)
        requires
            self.wf(),
        ensures
            self@.finished <==> r.is_none(),
            r matches Some(PageRequest::First) ==> !self@.started,
            r matches Some(PageRequest::After(c)) ==> self@.started && self@.cursor == Some(c@),
            !self@.finished && !self@.started ==> r matches Some(PageRequest::First),
            !self@.finished && self@.started && self@.cursor.is_some() ==> r matches Some(
                PageRequest::After(_),
            ),
    {
        if self.finished {
            None
        } else if !self.started {
            Some(PageRequest::First)
        } else {
            match &self.cursor {
                Some(c) => Some(PageRequest::After(c.clone())),
                None => None,
            }
        }
    }

    /// Takes in the page that answered the last request: its channel names
    /// are appended, and the listing ends when it has no cursor.
    pub fn record_page(&mut self, page: StreamPage)
        requires
            old(self).wf(),
            !old(self)@.finished,
        ensures
            final(self).wf(),
            final(self)@.logins == old(self)@.logins + stream_logins(page.streams@),
            final(self)@.cursor == opt_view(page.cursor),
            final(self)@.started,
            final(self)@.finished <==> page.cursor.is_none(),
    {
        let ghost before = self.logins@;
        let mut i: usize = 0;
        while i < page.streams.len()
            invariant
                i <= page.streams@.len(),
                names(self.logins@) == names(before) + stream_logins(page.streams@).take(i as int),
            decreases page.streams@.len() - i,
        {
            let ghost prev = self.logins@;
            self.logins.push(page.streams[i].user_login.clone());
            proof {
                assert(names(self.logins@) =~= names(prev).push(page.streams@[i as int].user_login@));
                assert(stream_logins(page.streams@).take(i + 1) =~= stream_logins(page.streams@).take(i as int).push(page.streams@[i as int].user_login@));
                assert(names(self.logins@) =~= names(before) + stream_logins(page.streams@).take(i + 1));
            }
            i = i + 1;
        }
        assert(stream_logins(page.streams@).take(i as int) =~= stream_logins(page.streams@));
        self.finished = page.cursor.is_none();
        self.cursor = page.cursor;
        self.started = true;
    }

    /// Whether the last page has come.
    pub fn is_finished(&self) -> (r: bool)
        ensures
            r == self@.finished,
    {
        self.finished
    }

    /// The channel names gathered, in the order the pages gave them.
    pub fn into_logins(self) -> (r: Vec<String>)
        ensures
            names(r@) == self@.logins,
    {
        self.logins
    }
}

} // verus!
