//! From a request to the change that it asks for.
//!
//! A caller names a key in the path of a request. The store keeps it under
//! the caller's own prefix, so that callers do not see each other's keys.

use crate::auth::{scoped, scoped_key};
use crate::entry::{LogEntry, Mutation};
use crate::outcome::Failure;
use crate::text::{find, find_byte, lemma_find_byte, lemma_split_at_ascii, text_of};
use vstd::prelude::*;
use vstd::string::*;
use vstd::utf8::*;

verus! {

/// The byte that separates the segments of a path.
pub const SLASH: u8 = 0x2F;

/// A change as a request may ask for it: the change itself where it is
/// writable, and a refusal where it is not.
pub open spec fn checked(change: Mutation) -> Result<Mutation, Failure> {
    if change.writable() {
        Ok(change)
    } else {
        Err(Failure::Unloggable)
    }
}

/// The change that a request to set a key asks for.
///
/// `tail` is what the path holds after the verb. Its first segment is the
/// key. Where a second segment follows, that is the value, and what comes
/// after it is not looked at. Where there is only one segment, the value is
/// the body of the request, which then has to be well-formed UTF-8. A key
/// with a space or a newline in it and a value with a newline in it are
/// refused. Whatever is let through, the log gives back as it was written.
pub open spec fn set_request(user_id: Seq<char>, tail: Seq<char>, body: Seq<u8>) -> Result<
    Mutation,
    Failure,
> {
    let path = encode_utf8(tail);
    let first = find_byte(path, SLASH);
    let rest = path.skip(first + 1);
    let key = scoped(user_id, decode_utf8(path.take(first)));
    if first < path.len() {
        checked(Mutation::Put { key, value: decode_utf8(rest.take(find_byte(rest, SLASH))) })
    } else if valid_utf8(body) {
        checked(Mutation::Put { key, value: decode_utf8(body) })
    } else {
        Err(Failure::Encoding)
    }
}

/// The change that a request to delete `key` asks for. A key with a
/// newline in it is refused. A key with a space in it is let through: no
/// set can have stored it, and a replay passes the line over.
pub open spec fn delete_request(user_id: Seq<char>, key: Seq<char>) -> Result<Mutation, Failure> {
    checked(Mutation::Delete { key: scoped(user_id, key) })
}

/// Lets through an entry that is writable.
fn check(entry: LogEntry) -> (r: Result<LogEntry, Failure>)
    ensures
        match r {
            Ok(checked_entry) => checked(entry@) == Ok::<Mutation, Failure>(checked_entry@),
            Err(failure) => checked(entry@) == Err::<Mutation, Failure>(failure),
        },
        r matches Ok(checked_entry) ==> checked_entry@.writable(),
{
    if entry.writable() {
        Ok(entry)
    } else {
        Err(Failure::Unloggable)
    }
}

/// Reads a request to set a key.
pub fn set_entry(user_id: &str, tail: &str, body: &[u8]) -> (r: Result<LogEntry, Failure>)
    ensures
        match r {
            Ok(entry) => set_request(user_id@, tail@, body@) == Ok::<Mutation, Failure>(entry@),
            Err(failure) => set_request(user_id@, tail@, body@) == Err::<Mutation, Failure>(
                failure,
            ),
        },
        r matches Ok(entry) ==> entry@.loggable(),
{
    let path = tail.as_bytes();
    let n = path.len();
    let first = find(path, 0, SLASH);
    proof {
        encode_utf8_valid_utf8(tail@);
        assert(path@.skip(0) =~= path@);
        assert(path@.subrange(0, first as int) =~= path@.take(first as int));
        if first < n {
            lemma_find_byte(path@, SLASH);
            lemma_split_at_ascii(path@, first as int);
        } else {
            assert(path@.take(first as int) =~= path@);
        }
    }
    let key = match text_of(path, 0, first) {
        Some(name) => scoped_key(user_id, name.as_str()),
        None => {
            return Err(Failure::Encoding);
        },
    };
    let value = if first < n {
        let second = find(path, first + 1, SLASH);
        proof {
            let rest = path@.skip(first + 1);
            assert(path@.subrange(first + 1, second as int) =~= rest.take(second - first - 1));
            if second < n {
                lemma_find_byte(rest, SLASH);
                lemma_split_at_ascii(rest, second - first - 1);
            } else {
                assert(rest.take(second - first - 1) =~= rest);
            }
        }
        text_of(path, first + 1, second)
    } else {
        assert(body@.subrange(0, body@.len() as int) =~= body@);
        text_of(body, 0, body.len())
    };
    match value {
        Some(value) => check(LogEntry::Put { key, value }),
        None => Err(Failure::Encoding),
    }
}

/// Reads a request to delete a key.
pub fn delete_entry(user_id: &str, key: &str) -> (r: Result<LogEntry, Failure>)
    ensures
        match r {
            Ok(entry) => delete_request(user_id@, key@) == Ok::<Mutation, Failure>(entry@),
            Err(failure) => delete_request(user_id@, key@) == Err::<Mutation, Failure>(failure),
        },
        r matches Ok(entry) ==> entry@.writable(),
{
    check(LogEntry::Delete { key: scoped_key(user_id, key) })
}

} // verus!
