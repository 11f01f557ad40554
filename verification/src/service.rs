//! Executing requests against the store, one at a time.

use crate::request::{Request, RequestModel};
use crate::store::{Store, TextStore};
use vstd::prelude::*;
use vstd::string::StringExecFns;

verus! {

/// The answer to one request: the text that goes back to the client as it is.
#[derive(Debug, PartialEq)]
pub struct Response {
    pub body: String,
}

/// A value as it is shown to the client: between double quotes.
pub open spec fn quoted(val: Seq<char>) -> Seq<char> {
    seq!['"'] + val + seq!['"']
}

/// The text that answers `req` when the store holds `entries`.
pub open spec fn reply_body(req: RequestModel, entries: Map<Seq<char>, Seq<char>>) -> Seq<char> {
    match req {
        RequestModel::Ping => "PONG"@,
        RequestModel::Get { key } => if entries.contains_key(key) {
            quoted(entries[key])
        } else {
            "(nil)"@
        },
        RequestModel::Put { key, val } => "OK"@,
        RequestModel::NoOp => seq!['\0'],
        RequestModel::Invalid { error } => "ERROR: "@ + error,
    }
}

/// What the store holds once `req` has been executed on `entries`: only a
/// `Put` changes anything.
pub open spec fn entries_after(req: RequestModel, entries: Map<Seq<char>, Seq<char>>) -> Map<
    Seq<char>,
    Seq<char>,
> {
    match req {
        RequestModel::Put { key, val } => entries.insert(key, val),
        _ => entries,
    }
}

/// What the store holds once every request of `reqs` has been executed on
/// `entries`, first to last.
pub open spec fn entries_after_all(
    reqs: Seq<RequestModel>,
    entries: Map<Seq<char>, Seq<char>>,
) -> Map<Seq<char>, Seq<char>>
    decreases reqs.len(),
{
    if reqs.len() == 0 {
        entries
    } else {
        entries_after(reqs.last(), entries_after_all(reqs.drop_last(), entries))
    }
}

/// The value of the last `Put` on `key` among `reqs`, if there is one.
pub open spec fn last_put(reqs: Seq<RequestModel>, key: Seq<char>) -> Option<Seq<char>>
    decreases reqs.len(),
{
    if reqs.len() == 0 {
        None
    } else {
        match reqs.last() {
            RequestModel::Put { key: k, val } if k == key => Some(val),
            _ => last_put(reqs.drop_last(), key),
        }
    }
}

/// Executes one request on the store and builds the answer.
pub fn exec_request(req: Request, store: &mut TextStore) -> (resp: Response)
    ensures
        resp.body@ == reply_body(req@, old(store)@),
        final(store)@ == entries_after(req@, old(store)@),
{
    match req {
        Request::Ping => Response { body: String::from_str("PONG") },
        Request::Get { key } => {
            match store.get(&key).unwrap() {
                Some(val) => {
                    proof {
                        reveal_strlit("\"");
                    }
                    assert("\""@ =~= seq!['"']);
                    let body = String::from_str("\"").concat(val.as_str()).concat("\"");
                    assert(body@ =~= quoted(val@));
                    Response { body }
                },
                None => Response { body: String::from_str("(nil)") },
            }
        },
        Request::Put { key, val } => {
            let _ = store.set(key, val);
            Response { body: String::from_str("OK") }
        },
        Request::NoOp => {
            proof {
                reveal_strlit("\0");
            }
            assert("\0"@ =~= seq!['\0']);
            Response { body: String::from_str("\0") }
        },
        Request::Invalid { error } => {
            Response { body: String::from_str("ERROR: ").concat(error.as_str()) }
        },
    }
}

/// Writing twice to a key keeps the second value: the second write finds the
/// first value in place, and a read that follows is answered with the second.
pub proof fn lemma_overwrite(
    entries: Map<Seq<char>, Seq<char>>,
    key: Seq<char>,
    first: Seq<char>,
    second: Seq<char>,
)
    ensures
        ({
            let once = entries_after(RequestModel::Put { key, val: first }, entries);
            let twice = entries_after(RequestModel::Put { key, val: second }, once);
            &&& once.get(key) == Some(first)
            &&& twice.get(key) == Some(second)
            &&& reply_body(RequestModel::Get { key }, twice) == quoted(second)
        }),
{
}

/// A write shows in a read of the same key, and leaves every other key as it
/// was.
pub proof fn lemma_write_then_read(
    entries: Map<Seq<char>, Seq<char>>,
    key: Seq<char>,
    val: Seq<char>,
    other: Seq<char>,
)
    requires
        other != key,
    ensures
        ({
            let after = entries_after(RequestModel::Put { key, val }, entries);
            &&& reply_body(RequestModel::Get { key }, after) == quoted(val)
            &&& after.get(other) == entries.get(other)
            &&& reply_body(RequestModel::Get { key: other }, after) == reply_body(
                RequestModel::Get { key: other },
                entries,
            )
        }),
{
}

/// A read of a key that nothing was written to is answered with `(nil)`; so is
/// every read on an empty store.
pub proof fn lemma_missing_key(entries: Map<Seq<char>, Seq<char>>, key: Seq<char>)
    ensures
        !entries.contains_key(key) ==> reply_body(RequestModel::Get { key }, entries) == "(nil)"@,
        reply_body(RequestModel::Get { key }, Map::<Seq<char>, Seq<char>>::empty()) == "(nil)"@,
{
}

/// However the requests of many clients are interleaved, a key holds what the
/// last `Put` on that key gave it, and what it held at first where there was
/// none: requests on other keys do not show.
pub proof fn lemma_last_write_wins(
    reqs: Seq<RequestModel>,
    entries: Map<Seq<char>, Seq<char>>,
    key: Seq<char>,
)
    ensures
        entries_after_all(reqs, entries).get(key) == match last_put(reqs, key) {
            Some(val) => Some(val),
            None => entries.get(key),
        },
    decreases reqs.len(),
{
    if reqs.len() > 0 {
        lemma_last_write_wins(reqs.drop_last(), entries, key);
    }
}

/// After any interleaving in which `key` was written, a read of `key` is
/// answered with the value written last, in quotes.
pub proof fn lemma_read_own_write(
    reqs: Seq<RequestModel>,
    entries: Map<Seq<char>, Seq<char>>,
    key: Seq<char>,
    val: Seq<char>,
)
    requires
        last_put(reqs, key) == Some(val),
    ensures
        reply_body(RequestModel::Get { key }, entries_after_all(reqs, entries)) == quoted(val),
{
    lemma_last_write_wins(reqs, entries, key);
}

} // verus!
