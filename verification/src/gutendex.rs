//! Addresses of the Gutendex catalog: the base address of each catalog,
//! and the address of a search in it.
//!
//! Addresses are parsed and written by the `url` crate. Which query pairs
//! the address of a search holds, and in which order, is decided here.

use crate::text::{chars_of, string_of};
use crate::types::{begins_with, has_prefix, same_text};
use std::collections::HashMap;
use vstd::prelude::*;
use vstd::string::StringExecFns;
use vstd::utf8::encode_utf8;

verus! {

/// The error of `url::Url::parse`.
#[verifier::external_type_specification]
#[verifier::external_body]
pub struct ExParseError(url::ParseError);

/// Why no catalog address could be made.
#[derive(Debug)]
pub enum GutendexError {
    /// The base address does not parse.
    Url(url::ParseError),
    /// No catalog has this key.
    UnknownCatalog(String),
    /// The address is not one of the catalog, or cannot be written.
    InvalidUrl(String),
}

/// An author of a catalog entry.
#[derive(Debug, Clone)]
pub struct GutendexAuthor {
    pub name: String,
    pub birth_year: Option<i32>,
    pub death_year: Option<i32>,
}

/// A book of the catalog.
#[derive(Debug, Clone)]
pub struct GutendexBook {
    pub id: i64,
    pub title: String,
    pub authors: Vec<GutendexAuthor>,
    pub copyright: Option<bool>,
    pub formats: HashMap<String, String>,
    pub download_count: Option<i64>,
}

/// One page of catalog results.
#[derive(Debug, Clone)]
pub struct GutendexResponse {
    pub count: i64,
    pub next: Option<String>,
    pub previous: Option<String>,
    pub results: Vec<GutendexBook>,
}

/// The address under which every page of the catalog lies.
pub open spec fn catalog_root() -> Seq<char> {
    "https://gutendex.com/books/"@
}

/// The base address of a catalog, by its key.
pub open spec fn base_url_of(key: Seq<char>) -> Option<Seq<char>> {
    if key == "all"@ {
        Some("https://gutendex.com/books/"@)
    } else if key == "shakespeare"@ {
        Some("https://gutendex.com/books/?search=Shakespeare%2C%20William"@)
    } else if key == "greek-tragedy"@ {
        Some("https://gutendex.com/books/?search=aeschylus%20sophocles%20euripides%20tragedy"@)
    } else if key == "greek-epic"@ {
        Some("https://gutendex.com/books/?search=homer%20hesiod%20epic%20myth"@)
    } else if key == "roman-drama"@ {
        Some("https://gutendex.com/books/?search=roman%20drama"@)
    } else if key == "mythology"@ {
        Some("https://gutendex.com/books/?search=mythology"@)
    } else if key == "philosophy"@ {
        Some("https://gutendex.com/books/?search=philosophy"@)
    } else if key == "gothic"@ {
        Some("https://gutendex.com/books/?search=gothic"@)
    } else if key == "science-fiction"@ {
        Some("https://gutendex.com/books/?search=science%20fiction"@)
    } else if key == "poetry"@ {
        Some("https://gutendex.com/books/?search=poetry"@)
    } else {
        None
    }
}

/// Looks up the base address of a catalog.
pub fn catalog_base_url(catalog_key: &str) -> (r: Option<&'static str>)
    ensures
        match r {
            Some(url) => base_url_of(catalog_key@) == Some(url@),
            None => base_url_of(catalog_key@) is None,
        },
{
    if same_text(catalog_key, "all") {
        Some("https://gutendex.com/books/")
    } else if same_text(catalog_key, "shakespeare") {
        Some("https://gutendex.com/books/?search=Shakespeare%2C%20William")
    } else if same_text(catalog_key, "greek-tragedy") {
        Some("https://gutendex.com/books/?search=aeschylus%20sophocles%20euripides%20tragedy")
    } else if same_text(catalog_key, "greek-epic") {
        Some("https://gutendex.com/books/?search=homer%20hesiod%20epic%20myth")
    } else if same_text(catalog_key, "roman-drama") {
        Some("https://gutendex.com/books/?search=roman%20drama")
    } else if same_text(catalog_key, "mythology") {
        Some("https://gutendex.com/books/?search=mythology")
    } else if same_text(catalog_key, "philosophy") {
        Some("https://gutendex.com/books/?search=philosophy")
    } else if same_text(catalog_key, "gothic") {
        Some("https://gutendex.com/books/?search=gothic")
    } else if same_text(catalog_key, "science-fiction") {
        Some("https://gutendex.com/books/?search=science%20fiction")
    } else if same_text(catalog_key, "poetry") {
        Some("https://gutendex.com/books/?search=poetry")
    } else {
        None
    }
}

/// Accepts the address of a catalog page: one that begins with the
/// catalog's root. Any other address is refused as `InvalidUrl`.
pub fn sanitize_page_url(page_url: &str) -> (r: Result<&str, GutendexError>)
    ensures
        match r {
            Ok(url) => has_prefix(page_url@, catalog_root()) && url@ == page_url@,
            Err(GutendexError::InvalidUrl(why)) => !has_prefix(page_url@, catalog_root()) && why@
                == "Invalid catalog URL."@,
            Err(_) => false,
        },
{
    if begins_with(page_url, "https://gutendex.com/books/") {
        Ok(page_url)
    } else {
        Err(GutendexError::InvalidUrl(String::from_str("Invalid catalog URL.")))
    }
}

/// A white-space character.
pub open spec fn is_space(c: char) -> bool {
    let v = c as u32;
    (0x09 <= v && v <= 0x0d) || v == 0x20 || v == 0x85 || v == 0xa0 || v == 0x1680 || (0x2000 <= v
        && v <= 0x200a) || v == 0x2028 || v == 0x2029 || v == 0x202f || v == 0x205f || v == 0x3000
}

/// `s` without the white space it begins with.
pub open spec fn trim_start(s: Seq<char>) -> Seq<char>
    decreases s.len(),
{
    if s.len() > 0 && is_space(s[0]) {
        trim_start(s.drop_first())
    } else {
        s
    }
}

/// `s` without the white space it ends with.
pub open spec fn trim_end(s: Seq<char>) -> Seq<char>
    decreases s.len(),
{
    if s.len() > 0 && is_space(s.last()) {
        trim_end(s.drop_last())
    } else {
        s
    }
}

/// `s` without the white space at both of its ends.
pub open spec fn trimmed(s: Seq<char>) -> Seq<char> {
    trim_end(trim_start(s))
}

fn space(c: char) -> (r: bool)
    ensures
        r == is_space(c),
{
    let v: u32 = c as u32;
    (0x09 <= v && v <= 0x0d) || v == 0x20 || v == 0x85 || v == 0xa0 || v == 0x1680 || (0x2000 <= v
        && v <= 0x200a) || v == 0x2028 || v == 0x2029 || v == 0x202f || v == 0x205f || v == 0x3000
}

/// Removes the white space at both ends of a text.
pub fn trim_text(s: &str) -> (r: Vec<char>)
    ensures
        r@ == trimmed(s@),
{
    let v = chars_of(s);
    let n: usize = v.len();
    let mut i: usize = 0;
    assert(v@.subrange(0, n as int) =~= v@);
    while i < n && space(v[i])
        invariant
            n == v@.len(),
            i <= n,
            trim_start(v@.subrange(i as int, n as int)) == trim_start(v@),
        decreases n - i,
    {
        assert(v@.subrange(i as int, n as int).drop_first() =~= v@.subrange(i as int + 1, n as int));
        i += 1;
    }
    proof {
        let rest = v@.subrange(i as int, n as int);
        if rest.len() > 0 {
            assert(rest[0] == v@[i as int]);
        }
        assert(trim_start(rest) == rest);
    }
    let mut j: usize = n;
    while j > i && space(v[j - 1])
        invariant
            n == v@.len(),
            i <= j <= n,
            trim_start(v@) == v@.subrange(i as int, n as int),
            trim_end(v@.subrange(i as int, j as int)) == trimmed(v@),
        decreases j,
    {
        assert(v@.subrange(i as int, j as int).drop_last() =~= v@.subrange(i as int, j as int - 1));
        j -= 1;
    }
    let mut r: Vec<char> = Vec::new();
    let mut k: usize = i;
    while k < j
        invariant
            i <= k <= j <= n,
            n == v@.len(),
            r@ == v@.subrange(i as int, k as int),
        decreases j - k,
    {
        r.push(v[k]);
        assert(r@ =~= v@.subrange(i as int, k as int + 1));
        k += 1;
    }
    r
}

/// What a vector of query pairs holds.
pub open spec fn pairs_view(pairs: Seq<(String, String)>) -> Seq<(Seq<char>, Seq<char>)> {
    Seq::new(pairs.len(), |i: int| (pairs[i].0@, pairs[i].1@))
}

/// The query pairs of an address, as `url::Url::parse` and
/// `url::Url::query_pairs` give them, in order; `None` where the address
/// does not parse.
pub uninterp spec fn parsed_query(base: Seq<char>) -> Option<Seq<(Seq<char>, Seq<char>)>>;

/// The address `base` with its query replaced by the given pairs, as the
/// `url` crate writes it; `None` where `base` does not parse.
pub uninterp spec fn url_with_query(base: Seq<char>, pairs: Seq<(Seq<char>, Seq<char>)>) -> Option<
    Seq<char>,
>;

/// Longest address, and most query text, that is handed to the `url`
/// crate. It counts positions in 32 bits, and writing a query can take
/// three bytes for one.
pub const URL_BUDGET: usize = 0x0800_0000;

/// Number of bytes that the names and values of query pairs take.
pub open spec fn pair_bytes(pairs: Seq<(Seq<char>, Seq<char>)>) -> nat
    decreases pairs.len(),
{
    if pairs.len() == 0 {
        0
    } else {
        pair_bytes(pairs.drop_last()) + encode_utf8(pairs.last().0).len() + encode_utf8(
            pairs.last().1,
        ).len()
    }
}

/// Whether an address and the query to write into it are within the
/// budget.
pub open spec fn query_fits(base: Seq<char>, pairs: Seq<(Seq<char>, Seq<char>)>) -> bool {
    encode_utf8(base).len() <= 0x0800_0000 && pairs.len() <= 0x0800_0000 && pair_bytes(pairs)
        <= 0x0800_0000
}

/// Parses an address with `url::Url::parse` and hands out its query pairs
/// as `url::Url::query_pairs` yields them, each decoded name and value as
/// a string of its own.
#[verifier::external_body]
pub(crate) fn query_pairs_of(base_url: &str) -> (r: Result<Vec<(String, String)>, url::ParseError>)
    ensures
        match r {
            Ok(pairs) => parsed_query(base_url@) == Some(pairs_view(pairs@)),
            Err(_) => parsed_query(base_url@) is None,
        },
{
    let url = url::Url::parse(base_url)?;
    Ok(url.query_pairs().map(|(k, v)| (k.into_owned(), v.into_owned())).collect())
}

/// Parses an address with `url::Url::parse`, removes its query with
/// `set_query(None)`, appends the given pairs in order through
/// `query_pairs_mut().append_pair`, and writes the address out. It parses
/// exactly when `query_pairs_of` does. The budget keeps the address within
/// the 32-bit positions of the `url` crate, which panics beyond them.
#[verifier::external_body]
pub(crate) fn write_query(base_url: &str, pairs: &Vec<(String, String)>) -> (r: Option<String>)
    requires
        query_fits(base_url@, pairs_view(pairs@)),
    ensures
        match r {
            Some(url) => url_with_query(base_url@, pairs_view(pairs@)) == Some(url@),
            None => url_with_query(base_url@, pairs_view(pairs@)) is None,
        },
        r is Some <==> parsed_query(base_url@) is Some,
{
    let mut url = url::Url::parse(base_url).ok()?;
    url.set_query(None);
    {
        let mut query = url.query_pairs_mut();
        for (name, value) in pairs {
            query.append_pair(name, value);
        }
    }
    Some(url.to_string())
}

/// The value of the last pair named `search`.
pub open spec fn last_search(pairs: Seq<(Seq<char>, Seq<char>)>) -> Option<Seq<char>>
    decreases pairs.len(),
{
    if pairs.len() == 0 {
        None
    } else if pairs.last().0 == "search"@ {
        Some(pairs.last().1)
    } else {
        last_search(pairs.drop_last())
    }
}

/// The pairs that are named neither `search` nor `topic`, in order.
pub open spec fn other_pairs(pairs: Seq<(Seq<char>, Seq<char>)>) -> Seq<(Seq<char>, Seq<char>)>
    decreases pairs.len(),
{
    if pairs.len() == 0 {
        pairs
    } else if pairs.last().0 == "search"@ || pairs.last().0 == "topic"@ {
        other_pairs(pairs.drop_last())
    } else {
        other_pairs(pairs.drop_last()).push(pairs.last())
    }
}

/// The search of a request: the search that the base address holds, and
/// behind it, after one space, the trimmed query of the user, where that
/// is not empty.
pub open spec fn combined_search(existing: Option<Seq<char>>, query: Option<Seq<char>>) -> Seq<
    char,
> {
    let held = match existing {
        Some(text) => text,
        None => Seq::empty(),
    };
    match query {
        Some(q) => if trimmed(q).len() == 0 {
            held
        } else if held.len() == 0 {
            trimmed(q)
        } else {
            held.push(' ') + trimmed(q)
        },
        None => held,
    }
}

/// The topic of a request: the trimmed topic of the user, where that is
/// not empty.
pub open spec fn wanted_topic(topic: Option<Seq<char>>) -> Option<Seq<char>> {
    match topic {
        Some(t) => if trimmed(t).len() == 0 {
            None
        } else {
            Some(trimmed(t))
        },
        None => None,
    }
}

/// The query pairs of a request: the other pairs of the base address,
/// then the search where it is not empty, then the topic where there is
/// one.
pub open spec fn catalog_pairs(
    existing: Seq<(Seq<char>, Seq<char>)>,
    query: Option<Seq<char>>,
    topic: Option<Seq<char>>,
) -> Seq<(Seq<char>, Seq<char>)> {
    let search = combined_search(last_search(existing), query);
    let with_search = if search.len() == 0 {
        other_pairs(existing)
    } else {
        other_pairs(existing).push(("search"@, search))
    };
    match wanted_topic(topic) {
        Some(t) => with_search.push(("topic"@, t)),
        None => with_search,
    }
}

/// The view of an optional text.
pub open spec fn opt_view(s: Option<&str>) -> Option<Seq<char>> {
    match s {
        Some(text) => Some(text@),
        None => None,
    }
}

/// Sorts the query pairs of a base address into the search it holds and
/// its other pairs.
pub fn split_pairs(pairs: &Vec<(String, String)>) -> (r: (Option<String>, Vec<(String, String)>))
    ensures
        match r.0 {
            Some(text) => last_search(pairs_view(pairs@)) == Some(text@),
            None => last_search(pairs_view(pairs@)) is None,
        },
        pairs_view(r.1@) == other_pairs(pairs_view(pairs@)),
{
    let n: usize = pairs.len();
    let mut search: Option<String> = None;
    let mut others: Vec<(String, String)> = Vec::new();
    let mut i: usize = 0;
    assert(pairs_view(pairs@).subrange(0, 0) =~= Seq::empty());
    assert(pairs_view(others@) =~= Seq::empty());
    while i < n
        invariant
            n == pairs@.len(),
            i <= n,
            match search {
                Some(text) => last_search(pairs_view(pairs@).subrange(0, i as int)) == Some(text@),
                None => last_search(pairs_view(pairs@).subrange(0, i as int)) is None,
            },
            pairs_view(others@) == other_pairs(pairs_view(pairs@).subrange(0, i as int)),
        decreases n - i,
    {
        let ghost all = pairs_view(pairs@);
        assert(all.subrange(0, i as int + 1).drop_last() =~= all.subrange(0, i as int));
        assert(all.subrange(0, i as int + 1).last() == (pairs@[i as int].0@, pairs@[i as int].1@));
        let name: &str = pairs[i].0.as_str();
        if same_text(name, "search") {
            search = Some(pairs[i].1.clone());
        } else if !same_text(name, "topic") {
            let ghost before = pairs_view(others@);
            others.push((pairs[i].0.clone(), pairs[i].1.clone()));
            assert(pairs_view(others@) =~= before.push((pairs@[i as int].0@, pairs@[i as int].1@)));
        }
        i += 1;
    }
    assert(pairs_view(pairs@).subrange(0, n as int) =~= pairs_view(pairs@));
    (search, others)
}

/// Joins the search of the base address and the query of the user.
pub fn combine_search(existing: Option<String>, query: Option<&str>) -> (r: String)
    ensures
        r@ == combined_search(
            match existing {
                Some(text) => Some(text@),
                None => None,
            },
            opt_view(query),
        ),
{
    let held: String = match existing {
        Some(text) => text,
        None => String::new(),
    };
    match query {
        Some(q) => {
            let wanted = trim_text(q);
            if wanted.len() == 0 {
                held
            } else if held.as_str().is_empty() {
                string_of(wanted.as_slice())
            } else {
                let mut joined = held;
                joined.append(" ");
                proof {
                    reveal_strlit(" ");
                    assert(" "@ =~= seq![' ']);
                }
                let tail = string_of(wanted.as_slice());
                joined.append(tail.as_str());
                assert(joined@ =~= held@.push(' ') + trimmed(q@));
                joined
            }
        },
        None => held,
    }
}

proof fn lemma_pair_bytes_grow(pairs: Seq<(Seq<char>, Seq<char>)>, i: int)
    requires
        0 <= i <= pairs.len(),
    ensures
        pair_bytes(pairs.subrange(0, i)) <= pair_bytes(pairs),
    decreases pairs.len() - i,
{
    if i < pairs.len() {
        assert(pairs.subrange(0, i + 1).drop_last() =~= pairs.subrange(0, i));
        lemma_pair_bytes_grow(pairs, i + 1);
    } else {
        assert(pairs.subrange(0, i) =~= pairs);
    }
}

/// Tests whether an address and the query to write into it are within
/// the budget.
pub fn fits_budget(base_url: &str, pairs: &Vec<(String, String)>) -> (r: bool)
    ensures
        r == query_fits(base_url@, pairs_view(pairs@)),
{
    let n: usize = pairs.len();
    if base_url.as_bytes().len() > URL_BUDGET || n > URL_BUDGET {
        return false;
    }
    let ghost all = pairs_view(pairs@);
    let mut total: usize = 0;
    let mut i: usize = 0;
    while i < n
        invariant
            n == pairs@.len(),
            all == pairs_view(pairs@),
            i <= n,
            total <= 0x0800_0000,
            total == pair_bytes(all.subrange(0, i as int)),
        decreases n - i,
    {
        assert(all.subrange(0, i as int + 1).drop_last() =~= all.subrange(0, i as int));
        assert(all.subrange(0, i as int + 1).last() == (pairs@[i as int].0@, pairs@[i as int].1@));
        let name_len: usize = pairs[i].0.as_str().as_bytes().len();
        let value_len: usize = pairs[i].1.as_str().as_bytes().len();
        if name_len > URL_BUDGET - total || value_len > URL_BUDGET - total - name_len {
            proof {
                lemma_pair_bytes_grow(all, i as int + 1);
            }
            return false;
        }
        total = total + name_len + value_len;
        i += 1;
    }
    assert(all.subrange(0, n as int) =~= all);
    true
}

/// What `build_catalog_url` returns for the query pairs that the base
/// address holds: the address with the pairs of the request, or
/// `InvalidUrl` where these are beyond the budget.
pub open spec fn catalog_url(
    base: Seq<char>,
    existing: Seq<(Seq<char>, Seq<char>)>,
    query: Option<Seq<char>>,
    topic: Option<Seq<char>>,
) -> Option<Seq<char>> {
    if query_fits(base, catalog_pairs(existing, query, topic)) {
        url_with_query(base, catalog_pairs(existing, query, topic))
    } else {
        None
    }
}

/// Makes the query pairs of a request from those of the base address.
pub fn request_pairs(
    existing: &Vec<(String, String)>,
    search_query: Option<&str>,
    topic: Option<&str>,
) -> (r: Vec<(String, String)>)
    ensures
        pairs_view(r@) == catalog_pairs(
            pairs_view(existing@),
            opt_view(search_query),
            opt_view(topic),
        ),
{
    let (held, others) = split_pairs(existing);
    let search = combine_search(held, search_query);
    let mut pairs = others;
    if !search.as_str().is_empty() {
        let ghost before = pairs_view(pairs@);
        pairs.push((String::from_str("search"), search));
        assert(pairs_view(pairs@) =~= before.push(("search"@, search@)));
    }
    if let Some(t) = topic {
        let wanted = trim_text(t);
        if wanted.len() > 0 {
            let ghost before = pairs_view(pairs@);
            let text = string_of(wanted.as_slice());
            pairs.push((String::from_str("topic"), text));
            assert(pairs_view(pairs@) =~= before.push(("topic"@, text@)));
        }
    }
    pairs
}

/// Makes the address of a catalog search from the base address of the
/// catalog, the query of the user and a topic. The pairs of the base
/// address stay, but for `search` and `topic`: the search is joined with
/// the query, and the topic is replaced.
pub fn build_catalog_url(base_url: &str, search_query: Option<&str>, topic: Option<&str>) -> (r:
    Result<String, GutendexError>)
    ensures
        match r {
            Ok(url) => parsed_query(base_url@) is Some && catalog_url(
                base_url@,
                parsed_query(base_url@).unwrap(),
                opt_view(search_query),
                opt_view(topic),
            ) == Some(url@),
            Err(GutendexError::Url(_)) => parsed_query(base_url@) is None,
            Err(GutendexError::InvalidUrl(why)) => parsed_query(base_url@) is Some && !query_fits(
                base_url@,
                catalog_pairs(
                    parsed_query(base_url@).unwrap(),
                    opt_view(search_query),
                    opt_view(topic),
                ),
            ) && why@ == "Catalog URL too long."@,
            Err(_) => false,
        },
{
    let existing = match query_pairs_of(base_url) {
        Ok(pairs) => pairs,
        Err(e) => {
            return Err(GutendexError::Url(e));
        },
    };
    let pairs = request_pairs(&existing, search_query, topic);
    if !fits_budget(base_url, &pairs) {
        return Err(GutendexError::InvalidUrl(String::from_str("Catalog URL too long.")));
    }
    match write_query(base_url, &pairs) {
        Some(url) => Ok(url),
        None => Err(GutendexError::InvalidUrl(String::from_str("Catalog URL too long."))),
    }
}

/// The address to ask the catalog at: the address of a page where one is
/// given, which has to lie under the catalog's root; else the address of
/// a search in the catalog of the given key.
pub fn catalog_request_url(
    catalog_key: &str,
    page_url: Option<&str>,
    search_query: Option<&str>,
    topic: Option<&str>,
) -> (r: Result<String, GutendexError>)
    ensures
        page_url is Some ==> match r {
            Ok(url) => has_prefix(page_url.unwrap()@, catalog_root()) && url@ == page_url.unwrap()@,
            Err(GutendexError::InvalidUrl(_)) => !has_prefix(page_url.unwrap()@, catalog_root()),
            Err(_) => false,
        },
        page_url is None && base_url_of(catalog_key@) is None ==> match r {
            Err(GutendexError::UnknownCatalog(key)) => key@ == catalog_key@,
            _ => false,
        },
        page_url is None && base_url_of(catalog_key@) is Some ==> match r {
            Ok(url) => parsed_query(base_url_of(catalog_key@).unwrap()) is Some && catalog_url(
                base_url_of(catalog_key@).unwrap(),
                parsed_query(base_url_of(catalog_key@).unwrap()).unwrap(),
                opt_view(search_query),
                opt_view(topic),
            ) == Some(url@),
            Err(GutendexError::Url(_)) => parsed_query(base_url_of(catalog_key@).unwrap()) is None,
            Err(GutendexError::InvalidUrl(_)) => parsed_query(base_url_of(catalog_key@).unwrap())
                is Some,
            Err(_) => false,
        },
{
    if let Some(page) = page_url {
        return match sanitize_page_url(page) {
            Ok(url) => Ok(String::from_str(url)),
            Err(e) => Err(e),
        };
    }
    match catalog_base_url(catalog_key) {
        Some(base) => build_catalog_url(base, search_query, topic),
        None => Err(GutendexError::UnknownCatalog(String::from_str(catalog_key))),
    }
}

} // verus!
