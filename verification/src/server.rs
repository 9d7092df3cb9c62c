//! What the HTTP routes decide: the listing of peers, the header fix-up
//! for WebSocket upgrades, the logging level and the page shown after a
//! failure.

use vstd::prelude::*;
use crate::room::{string_views, Room, RoomManage};

verus! {

/// The lower-case form of a string, as Rust's `str::to_lowercase` gives it
/// (full Unicode case mapping).
pub uninterp spec fn lowercase(s: Seq<char>) -> Seq<char>;

/// `str::to_lowercase`: its result is named `lowercase` of the argument.
#[verifier::external_body]
fn to_lowercase(s: &str) -> (r: String)
    ensures
        r@ == lowercase(s@),
{
    s.to_lowercase()
}

/// Whether two strings are equal.
pub fn str_eq(a: &str, b: &str) -> (r: bool)
    ensures
        r == (a@ == b@),
{
    a.to_string() == b.to_string()
}

/// Whether `s` begins with `prefix`.
pub fn starts_with(s: &str, prefix: &str) -> (r: bool)
    ensures
        r == prefix@.is_prefix_of(s@),
{
    let n = s.unicode_len();
    let m = prefix.unicode_len();
    if m > n {
        return false;
    }
    let mut i: usize = 0;
    while i < m
        invariant
            n == s@.len(),
            m == prefix@.len(),
            m <= n,
            i <= m,
            forall|j: int| 0 <= j < i ==> s@[j] == prefix@[j],
        decreases m - i,
    {
        if s.get_char(i) != prefix.get_char(i) {
            return false;
        }
        i = i + 1;
    }
    true
}

/// The logging level named by a lower-case level name; unknown names give
/// `info`.
pub open spec fn filter_for(lowered: Seq<char>) -> Seq<char> {
    if lowered == "trace"@ {
        "trace"@
    } else if lowered == "debug"@ {
        "debug"@
    } else if lowered == "info"@ {
        "info"@
    } else if lowered == "warn"@ {
        "warn"@
    } else if lowered == "error"@ {
        "error"@
    } else {
        "info"@
    }
}

/// The logging level named by a lower-case level name; unknown names give
/// `info`.
pub fn filter_directive(lowered: &str) -> (r: &'static str)
    ensures
        r@ == filter_for(lowered@),
{
    if str_eq(lowered, "trace") {
        "trace"
    } else if str_eq(lowered, "debug") {
        "debug"
    } else if str_eq(lowered, "info") {
        "info"
    } else if str_eq(lowered, "warn") {
        "warn"
    } else if str_eq(lowered, "error") {
        "error"
    } else {
        "info"
    }
}

/// The logging level of the configured level name, read without regard to
/// case; unknown names give `info`.
pub fn log_filter(log_level: &str) -> (r: &'static str)
    ensures
        r@ == filter_for(lowercase(log_level@)),
{
    let lowered = to_lowercase(log_level);
    filter_directive(lowered.as_str())
}

/// The ids of all peers when discovery is allowed; the status 401
/// (unauthorized) otherwise.
pub fn get_peers(room: &Room, allow_discovery: bool) -> (r: Result<Vec<String>, u16>)
    ensures
        !allow_discovery ==> r == Err::<Vec<String>, u16>(401),
        allow_discovery ==> (r matches Ok(ids) && {
            &&& string_views(ids@).no_duplicates()
            &&& forall|k: Seq<char>| #[trigger]
                string_views(ids@).contains(k) <==> room.clients().contains_key(k)
        }),
{
    if allow_discovery {
        Ok(room.get_clients_ids())
    } else {
        Err(401)
    }
}

/// Whether a request needs its `Connection` header set to `upgrade`: its
/// path is under `/peerjs` and its `Upgrade` header reads `websocket`
/// without regard to case.
pub fn needs_connection_upgrade(path: &str, upgrade: Option<&str>) -> (b: bool)
    ensures
        b == ("/peerjs"@.is_prefix_of(path@) && upgrade is Some && lowercase(upgrade.unwrap()@)
            == "websocket"@),
{
    if !starts_with(path, "/peerjs") {
        return false;
    }
    match upgrade {
        Some(u) => {
            let lowered = to_lowercase(u);
            str_eq(lowered.as_str(), "websocket")
        },
        None => false,
    }
}

/// The start of the page shown when a request fails.
pub open spec fn failure_page_head() -> Seq<char> {
    "<h1>500 - Internal Server Error</h1><p>Something went wrong!</p><p>Panic message: "@
}

/// The page shown when a request fails, with the failure's message, or
/// `Unknown panic occurred` when it has none.
pub fn failure_page(message: Option<String>) -> (page: String)
    ensures
        page@ == failure_page_head() + match message {
            Some(m) => m@,
            None => "Unknown panic occurred"@,
        } + "</p>"@,
{
    let mut page = String::new();
    page.append("<h1>500 - Internal Server Error</h1><p>Something went wrong!</p><p>Panic message: ");
    match &message {
        Some(m) => page.append(m.as_str()),
        None => page.append("Unknown panic occurred"),
    }
    page.append("</p>");
    page
}

} // verus!
