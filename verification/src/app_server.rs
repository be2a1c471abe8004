//! What is said to the app-server: its requests as documents, and the listing of threads page by
//! page.

use vstd::prelude::*;

use crate::codex::{next_page_size, page_size, thread_session, RawThread};
use crate::domain::{session_views, Session};
use crate::json::{json_quoted, quoted};
use crate::text::{decimal, decimal_of};

verus! {

// ---- requests ----

/// The document of a request.
pub open spec fn request_text(id: u64, method: Seq<char>, params: Seq<char>) -> Seq<char> {
    "{\"id\":"@ + decimal(id as nat) + ",\"jsonrpc\":\"2.0\",\"method\":\""@ + method
        + "\",\"params\":"@ + params + "}"@
}

fn request(id: u64, method: &str, params: &str) -> (r: String)
    ensures
        r@ == request_text(id, method@, params@),
{
    let mut r: String = "{\"id\":".to_owned();
    r.append(decimal_of(id).as_str());
    r.append(",\"jsonrpc\":\"2.0\",\"method\":\"");
    r.append(method);
    r.append("\",\"params\":");
    r.append(params);
    r.append("}");
    r
}

/// What the client says of itself.
pub open spec fn client_text(version: Seq<char>) -> Seq<char> {
    "{\"capabilities\":{\"experimentalApi\":true},\"clientInfo\":{\"name\":\"rollcall\",\"version\":"@
        + json_quoted(version) + "}}"@
}

/// The request that opens a connection.
pub fn initialize_request(id: u64, version: &str) -> (r: String)
    ensures
        r@ == request_text(id, "initialize"@, client_text(version@)),
{
    let mut params: String =
        "{\"capabilities\":{\"experimentalApi\":true},\"clientInfo\":{\"name\":\"rollcall\",\"version\":".to_owned();
    params.append(quoted(version).as_str());
    params.append("}}");
    request(id, "initialize", params.as_str())
}

/// What is said once the connection is open. It is not answered.
pub fn initialized_notice() -> (r: &'static str)
    ensures
        r@ == "{\"jsonrpc\":\"2.0\",\"method\":\"initialized\",\"params\":{}}"@,
{
    "{\"jsonrpc\":\"2.0\",\"method\":\"initialized\",\"params\":{}}"
}

/// Which threads a page asks for: those that are not archived, the latest first.
pub open spec fn page_text(cursor: Option<Seq<char>>, page_size: usize) -> Seq<char> {
    "{\"archived\":false,\"cursor\":"@ + (match cursor {
        Some(cursor) => json_quoted(cursor),
        None => "null"@,
    }) + ",\"limit\":"@ + decimal(page_size as nat)
        + ",\"sortDirection\":\"desc\",\"sortKey\":\"recency_at\",\"sourceKinds\":[\"cli\",\"vscode\",\"exec\",\"appServer\",\"unknown\"],\"useStateDbOnly\":true}"@
}

/// The request for a page of threads.
pub fn list_request(id: u64, page: &PageRequest) -> (r: String)
    ensures
        r@ == request_text(id, "thread/list"@, page_text(page.cursor_text(), page.size)),
{
    let mut params: String = "{\"archived\":false,\"cursor\":".to_owned();
    match &page.cursor {
        Some(cursor) => {
            params.append(quoted(cursor.as_str()).as_str());
        },
        None => {
            params.append("null");
        },
    }
    params.append(",\"limit\":");
    params.append(decimal_of(page.size as u64).as_str());
    params.append(
        ",\"sortDirection\":\"desc\",\"sortKey\":\"recency_at\",\"sourceKinds\":[\"cli\",\"vscode\",\"exec\",\"appServer\",\"unknown\"],\"useStateDbOnly\":true}",
    );
    request(id, "thread/list", params.as_str())
}

/// The request for the turns of a thread.
pub fn read_request(id: u64, thread_id: &str) -> (r: String)
    ensures
        r@ == request_text(
            id,
            "thread/read"@,
            "{\"includeTurns\":true,\"threadId\":"@ + json_quoted(thread_id@) + "}"@,
        ),
{
    let mut params: String = "{\"includeTurns\":true,\"threadId\":".to_owned();
    params.append(quoted(thread_id).as_str());
    params.append("}");
    request(id, "thread/read", params.as_str())
}

// ---- listing ----

/// A page that is asked for.
#[derive(Debug, Eq, PartialEq)]
pub struct PageRequest {
    pub cursor: Option<String>,
    pub size: usize,
}

/// A cursor as text.
pub open spec fn cursor_of(cursor: Option<String>) -> Option<Seq<char>> {
    match cursor {
        Some(cursor) => Some(cursor@),
        None => None,
    }
}

impl PageRequest {
    /// Where the page starts.
    pub open spec fn cursor_text(self) -> Option<Seq<char>> {
        cursor_of(self.cursor)
    }
}

/// The listing of threads, page by page.
#[derive(Debug, Eq, PartialEq)]
pub struct ThreadListing {
    pub limit: Option<usize>,
    pub sessions: Vec<Session>,
    pub cursor: Option<String>,
    pub ended: bool,
}

impl ThreadListing {
    /// A listing that has not begun.
    pub fn new(limit: Option<usize>) -> (r: Self)
        ensures
            r.limit == limit,
            r.sessions@ == Seq::<Session>::empty(),
            r.cursor is None,
            !r.ended,
    {
        ThreadListing { limit, sessions: Vec::new(), cursor: None, ended: false }
    }

    /// The page to ask for. There is none once the limit is reached or the last page came.
    pub fn next(&self) -> (r: Option<PageRequest>)
        ensures
            r is Some <==> !self.ended && page_size(self.limit, self.sessions@.len()) is Some,
            r matches Some(page) ==> page_size(self.limit, self.sessions@.len()) == Some(page.size)
                && page.cursor_text() == cursor_of(self.cursor),
    {
        if self.ended {
            return None;
        }
        match next_page_size(self.limit, self.sessions.len()) {
            None => None,
            Some(size) => {
                let cursor: Option<String> = match &self.cursor {
                    Some(cursor) => Some(cursor.clone()),
                    None => None,
                };
                Some(PageRequest { cursor, size })
            },
        }
    }

    /// Takes in a page: its threads come behind those before it, and it is the last one where
    /// it names no place to go on from.
    pub fn answered(&mut self, threads: Vec<RawThread>, next_cursor: Option<String>)
        ensures
            session_views(final(self).sessions@) == session_views(old(self).sessions@)
                + threads@.map_values(|thread: RawThread| thread_session(thread)),
            final(self).cursor == next_cursor,
            final(self).ended == (next_cursor is None),
            final(self).limit == old(self).limit,
    {
        let ghost before = session_views(self.sessions@);
        let ghost limit = self.limit;
        let ghost all = threads@;
        let ghost mut taken: int = 0;
        let mut rest: Vec<RawThread> = threads;
        let mut found: Vec<Session> = Vec::new();
        while rest.len() > 0
            invariant
                0 <= taken <= all.len(),
                rest@ == all.take(all.len() - taken),
                found@.len() == taken,
                forall|i: int|
                    0 <= i < taken ==> (#[trigger] found@[i]).view() == thread_session(
                        all[all.len() - 1 - i],
                    ),
            decreases rest@.len(),
        {
            match rest.pop() {
                Some(thread) => {
                    found.push(Session::from(thread));
                    proof {
                        taken = taken + 1;
                    }
                },
                None => {},
            }
            assert(rest@ =~= all.take(all.len() - taken));
        }
        let ghost mut moved: int = 0;
        let ghost own = self.sessions@;
        while found.len() > 0
            invariant
                taken == all.len(),
                0 <= moved <= taken,
                found@.len() == taken - moved,
                self.sessions@.len() == own.len() + moved,
                self.limit == limit,
                forall|i: int| 0 <= i < own.len() ==> self.sessions@[i] == own[i],
                forall|i: int|
                    0 <= i < found@.len() ==> (#[trigger] found@[i]).view() == thread_session(
                        all[all.len() - 1 - i],
                    ),
                forall|i: int|
                    own.len() <= i < own.len() + moved ==> (#[trigger] self.sessions@[i]).view()
                        == thread_session(all[i - own.len()]),
            decreases found@.len(),
        {
            match found.pop() {
                Some(session) => {
                    self.sessions.push(session);
                    proof {
                        moved = moved + 1;
                    }
                },
                None => {},
            }
        }
        assert(session_views(self.sessions@) =~= before + all.map_values(
            |thread: RawThread| thread_session(thread),
        ));
        self.ended = next_cursor.is_none();
        self.cursor = next_cursor;
    }
}

/// A page never asks for more than the limit leaves, and never for more than a hundred.
pub proof fn pages_stay_within_the_limit(limit: Option<usize>, listed: nat)
    ensures
        page_size(limit, listed) matches Some(size) ==> 1 <= size <= 100 && (limit matches Some(
            limit,
        ) ==> listed + size <= limit),
        limit is None ==> page_size(limit, listed) is Some,
{
}

} // verus!
