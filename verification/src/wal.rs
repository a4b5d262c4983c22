//! The write-ahead log: one line per change, appended and never rewritten,
//! and replayed in full to rebuild the store.

use crate::entry::{
    lemma_command_one_line, lemma_parse_command, lemma_parse_passed_over,
    lemma_parsed_key_holds_no_space, parse, parse_line, Contents, LogEntry, Mutation,
};
use crate::outcome::{Failure, Outcome};
use crate::store::Store;
use crate::text::{
    find, find_byte, is_one_line, lemma_encoding_free_of, lemma_find_byte, lemma_find_byte_at,
    one_line, NEWLINE,
};
use vstd::prelude::*;
use vstd::slice::*;
use vstd::string::*;
use vstd::utf8::*;

verus! {

/// The store after one line: changed where the line is an entry, and as it
/// was where the line is anything else.
pub open spec fn apply_line(state: Contents, line: Seq<u8>) -> Contents {
    match parse(line) {
        Some(change) => change.apply(state),
        None => state,
    }
}

/// The store that `state` turns into when the lines of `log` are applied to
/// it in order. A line ends in a newline, and in nothing else: what follows
/// the last newline was cut short before it was whole, and is dropped.
pub open spec fn replay_onto(state: Contents, log: Seq<u8>) -> Contents
    decreases log.len(),
{
    let end = find_byte(log, NEWLINE);
    if 0 <= end < log.len() {
        replay_onto(apply_line(state, log.take(end)), log.skip(end + 1))
    } else {
        state
    }
}

/// The store that a log stands for: its lines applied in order to a store
/// that holds nothing.
pub open spec fn replay(log: Seq<u8>) -> Contents {
    replay_onto(Map::empty(), log)
}

/// Applies the bytes of `log` from `from` up to `to`, read as one line.
fn apply_bytes(store: &mut Store, log: &[u8], from: usize, to: usize)
    requires
        from <= to <= log@.len(),
    ensures
        final(store)@ == apply_line(old(store)@, log@.subrange(from as int, to as int)),
{
    match parse_line(slice_subrange(log, from, to)) {
        Some(entry) => store.apply(&entry),
        None => {},
    }
}

/// Rebuilds the store from the bytes of a log.
fn replay_log(log: &[u8]) -> (store: Store)
    ensures
        store@ == replay(log@),
{
    let n = log.len();
    let mut store = Store::new();
    let mut at: usize = 0;
    assert(log@.skip(0) =~= log@);
    while at < n
        invariant
            n == log@.len(),
            at <= n,
            replay(log@) == replay_onto(store@, log@.skip(at as int)),
        decreases n - at,
    {
        let ghost tail = log@.skip(at as int);
        let end = find(log, at, NEWLINE);
        proof {
            lemma_find_byte(tail, NEWLINE);
        }
        if end < n {
            proof {
                assert(tail.take(end - at) =~= log@.subrange(at as int, end as int));
                assert(tail.skip(end - at + 1) =~= log@.skip(end + 1));
            }
            apply_bytes(&mut store, log, at, end);
            at = end + 1;
        } else {
            at = n;
        }
    }
    store
}

/// Rebuilds the store at startup from what the log file holds, or from
/// nothing where there is no log file yet.
///
/// Lines are applied in the order of the file. A line that is no entry is
/// passed over, and what follows the last newline is dropped, so that a log
/// whose last line was cut short by a crash loads as it does without that
/// line.
pub fn load_wal(log: Option<&[u8]>) -> (store: Store)
    ensures
        store@ == (match log {
            Some(bytes) => replay(bytes@),
            None => Map::<Seq<char>, Seq<char>>::empty(),
        }),
{
    match log {
        Some(bytes) => replay_log(bytes),
        None => Store::new(),
    }
}

/// Appends `command` to the log `wal` as one line: its bytes and a newline.
///
/// A command that holds a newline would not be one line of the log. It is
/// refused, and the log is as it was. Every other command is appended.
pub fn append_wal(wal: &mut Vec<u8>, command: &str) -> (r: Result<(), Failure>)
    ensures
        one_line(command@) ==> r is Ok,
        r is Ok ==> final(wal)@ == old(wal)@ + encode_utf8(command@) + seq![NEWLINE],
        !one_line(command@) ==> r == Err::<(), Failure>(Failure::Unloggable),
        r is Err ==> final(wal)@ == old(wal)@,
{
    if !is_one_line(command) {
        return Err(Failure::Unloggable);
    }
    let mut line = command.as_bytes_vec();
    wal.append(&mut line);
    wal.push(NEWLINE);
    Ok(())
}

/// The bytes that `entry` adds to the log: its line and a newline. An
/// entry that is not writable is refused.
pub fn line_for(entry: &LogEntry) -> (r: Result<Vec<u8>, Failure>)
    ensures
        entry@.writable() ==> r is Ok && r->Ok_0@ == line_of(entry@),
        !entry@.writable() ==> r == Err::<Vec<u8>, Failure>(Failure::Unloggable),
{
    if !entry.writable() {
        return Err(Failure::Unloggable);
    }
    proof {
        lemma_command_one_line(entry@);
    }
    let mut line: Vec<u8> = Vec::new();
    let command = entry.command();
    match append_wal(&mut line, command.as_str()) {
        Ok(()) => {
            assert(line@ =~= line_of(entry@));
            Ok(line)
        },
        Err(failure) => Err(failure),
    }
}

/// Whether a log consists of whole lines: it is empty or ends in a newline.
pub open spec fn whole_lines(log: Seq<u8>) -> bool {
    log.len() == 0 || log.last() == NEWLINE
}

/// The bytes that a change adds to the log: its line and a newline.
pub open spec fn line_of(change: Mutation) -> Seq<u8> {
    encode_utf8(change.command()) + seq![NEWLINE]
}

/// The log that results when `changes` are appended, in order, to an empty log.
pub open spec fn log_of(changes: Seq<Mutation>) -> Seq<u8>
    decreases changes.len(),
{
    if changes.len() == 0 {
        Seq::empty()
    } else {
        log_of(changes.drop_last()) + line_of(changes.last())
    }
}

/// The store that results when `changes` are made, in order, to `state`.
pub open spec fn apply_all(state: Contents, changes: Seq<Mutation>) -> Contents
    decreases changes.len(),
{
    if changes.len() == 0 {
        state
    } else {
        changes.last().apply(apply_all(state, changes.drop_last()))
    }
}

/// Replaying a log of whole lines followed by more bytes is replaying the
/// whole lines first and the further bytes onto the result.
pub proof fn lemma_replay_concat(state: Contents, front: Seq<u8>, back: Seq<u8>)
    requires
        whole_lines(front),
    ensures
        replay_onto(state, front + back) == replay_onto(replay_onto(state, front), back),
    decreases front.len(),
{
    if front.len() == 0 {
        assert(front + back =~= back);
    } else {
        let end = find_byte(front, NEWLINE);
        lemma_find_byte(front, NEWLINE);
        assert(end < front.len()) by {
            if end == front.len() {
                assert(front[front.len() - 1] != NEWLINE);
            }
        }
        assert forall|i: int| 0 <= i < end implies (front + back)[i] != NEWLINE by {
            assert((front + back)[i] == front[i]);
        }
        lemma_find_byte_at(front + back, NEWLINE, end);
        let rest = front.skip(end + 1);
        assert((front + back).take(end) =~= front.take(end));
        assert((front + back).skip(end + 1) =~= rest + back);
        assert(whole_lines(rest)) by {
            if rest.len() > 0 {
                assert(rest.last() == front.last());
            }
        }
        lemma_replay_concat(apply_line(state, front.take(end)), rest, back);
    }
}

/// Replaying bytes that hold no newline changes nothing.
pub proof fn lemma_replay_unfinished_line(state: Contents, tail: Seq<u8>)
    requires
        !tail.contains(NEWLINE),
    ensures
        replay_onto(state, tail) == state,
{
    assert forall|i: int| 0 <= i < tail.len() implies tail[i] != NEWLINE by {
        assert(tail.contains(tail[i]));
    }
    lemma_find_byte_at(tail, NEWLINE, tail.len() as int);
}

/// The line of a writable change holds no newline but the one at its end.
proof fn lemma_line_bytes(change: Mutation)
    requires
        change.writable(),
    ensures
        !encode_utf8(change.command()).contains(NEWLINE),
        find_byte(line_of(change), NEWLINE) == encode_utf8(change.command()).len(),
        line_of(change).take(encode_utf8(change.command()).len() as int) == encode_utf8(
            change.command(),
        ),
        line_of(change).skip(encode_utf8(change.command()).len() as int + 1) == Seq::<u8>::empty(),
{
    let text = change.command();
    lemma_command_one_line(change);
    assert(!text.contains('\n'));
    lemma_encoding_free_of(text, '\n');
    let body = encode_utf8(text);
    let line = line_of(change);
    assert forall|i: int| 0 <= i < body.len() implies line[i] != NEWLINE by {
        assert(body.contains(body[i]));
    }
    lemma_find_byte_at(line, NEWLINE, body.len() as int);
    assert(line.take(body.len() as int) =~= body);
    assert(line.skip(body.len() as int + 1) =~= Seq::<u8>::empty());
}

/// Replaying the line that a loggable change adds to the log makes that change.
pub proof fn lemma_replay_line(state: Contents, change: Mutation)
    requires
        change.loggable(),
    ensures
        replay_onto(state, line_of(change)) == change.apply(state),
{
    lemma_line_bytes(change);
    lemma_parse_command(change);
    assert(replay_onto(change.apply(state), Seq::<u8>::empty()) == change.apply(state));
}

/// Replaying the line of a change that is passed over changes nothing.
pub proof fn lemma_replay_passed_over(state: Contents, change: Mutation)
    requires
        change.passed_over(),
    ensures
        replay_onto(state, line_of(change)) == state,
{
    lemma_line_bytes(change);
    lemma_parse_passed_over(change);
    assert(replay_onto(state, Seq::<u8>::empty()) == state);
}

/// The log that appends leave consists of whole lines.
pub proof fn lemma_log_of_whole_lines(changes: Seq<Mutation>)
    ensures
        whole_lines(log_of(changes)),
{
    if changes.len() > 0 {
        assert(log_of(changes).last() == line_of(changes.last()).last());
    }
}

/// Whether no key of `state` holds a space.
pub open spec fn spaceless(state: Contents) -> bool {
    forall|key: Seq<char>| #[trigger] state.contains_key(key) ==> !key.contains(' ')
}

/// A replay sets no key that holds a space.
pub proof fn lemma_replay_keys_hold_no_space(state: Contents, log: Seq<u8>)
    requires
        spaceless(state),
    ensures
        spaceless(replay_onto(state, log)),
    decreases log.len(),
{
    let end = find_byte(log, NEWLINE);
    if 0 <= end < log.len() {
        lemma_parsed_key_holds_no_space(log.take(end));
        lemma_replay_keys_hold_no_space(apply_line(state, log.take(end)), log.skip(end + 1));
    }
}

/// Replay and direct application agree: replaying from an empty store the
/// log that a sequence of writable changes leaves gives the store that the
/// same changes give when they are made, in the same order, to a store that
/// holds nothing. No key of that store holds a space.
pub proof fn lemma_replay_matches_apply(changes: Seq<Mutation>)
    requires
        forall|i: int| 0 <= i < changes.len() ==> (#[trigger] changes[i]).writable(),
    ensures
        replay(log_of(changes)) == apply_all(Map::empty(), changes),
        spaceless(apply_all(Map::empty(), changes)),
    decreases changes.len(),
{
    if changes.len() > 0 {
        let before = changes.drop_last();
        let last = changes.last();
        let state = apply_all(Map::empty(), before);
        assert forall|i: int| 0 <= i < before.len() implies (#[trigger] before[i]).writable() by {
            assert(before[i] == changes[i]);
        }
        lemma_replay_matches_apply(before);
        lemma_log_of_whole_lines(before);
        lemma_replay_concat(Map::empty(), log_of(before), line_of(last));
        if last.loggable() {
            lemma_replay_line(state, last);
        } else {
            lemma_replay_passed_over(state, last);
            assert(last.apply(state) =~= state);
        }
    }
}

/// Whether `changes` are puts on keys that all differ from each other.
pub open spec fn puts_on_distinct_keys(changes: Seq<Mutation>) -> bool {
    &&& forall|i: int| 0 <= i < changes.len() ==> (#[trigger] changes[i]) is Put
    &&& forall|i: int, j: int|
        0 <= i < j < changes.len() ==> (#[trigger] changes[i]).key() != (
        #[trigger] changes[j]).key()
}

/// Puts on keys that all differ from each other all persist, in whatever
/// order they are made: each key has its value afterwards, and every other
/// key is as it was.
pub proof fn lemma_puts_on_distinct_keys_all_persist(state: Contents, changes: Seq<Mutation>)
    requires
        puts_on_distinct_keys(changes),
    ensures
        forall|i: int|
            0 <= i < changes.len() ==> apply_all(state, changes).contains_key(
                (#[trigger] changes[i]).key(),
            ) && apply_all(state, changes)[changes[i].key()] == changes[i]->value,
        forall|key: Seq<char>|
            (forall|i: int| 0 <= i < changes.len() ==> (#[trigger] changes[i]).key() != key) ==> (
            #[trigger] apply_all(state, changes).contains_key(key)) == state.contains_key(key)
                && apply_all(state, changes)[key] == state[key],
    decreases changes.len(),
{
    if changes.len() > 0 {
        let before = changes.drop_last();
        let last = changes.last();
        assert forall|i: int| 0 <= i < before.len() implies (#[trigger] before[i]) is Put by {
            assert(before[i] == changes[i]);
        }
        assert forall|i: int, j: int| 0 <= i < j < before.len() implies (#[trigger] before[i]).key()
            != (#[trigger] before[j]).key() by {
            assert(before[i] == changes[i] && before[j] == changes[j]);
        }
        lemma_puts_on_distinct_keys_all_persist(state, before);
        let earlier = apply_all(state, before);
        let after = apply_all(state, changes);
        assert(last is Put);
        assert(after == earlier.insert(last.key(), last->value));
        assert forall|i: int| 0 <= i < changes.len() implies after.contains_key(
            (#[trigger] changes[i]).key(),
        ) && after[changes[i].key()] == changes[i]->value by {
            if i < before.len() {
                assert(before[i] == changes[i]);
                assert(changes[i].key() != changes[changes.len() - 1].key());
            }
        }
        assert forall|key: Seq<char>|
            (forall|i: int| 0 <= i < changes.len() ==> (#[trigger] changes[i]).key() != key)
            implies (#[trigger] after.contains_key(key)) == state.contains_key(key) && after[key]
            == state[key] by {
            assert(changes[changes.len() - 1].key() != key);
            assert forall|i: int| 0 <= i < before.len() implies (#[trigger] before[i]).key()
                != key by {
                assert(before[i] == changes[i]);
            }
        }
    }
}

/// Puts on keys that all differ from each other give one store, whatever
/// the order: two sequences that hold the same puts leave the same store.
pub proof fn lemma_order_of_puts_does_not_matter(
    state: Contents,
    one: Seq<Mutation>,
    other: Seq<Mutation>,
)
    requires
        puts_on_distinct_keys(one),
        puts_on_distinct_keys(other),
        one.to_multiset() == other.to_multiset(),
    ensures
        apply_all(state, one) == apply_all(state, other),
{
    one.to_multiset_ensures();
    other.to_multiset_ensures();
    lemma_puts_on_distinct_keys_all_persist(state, one);
    lemma_puts_on_distinct_keys_all_persist(state, other);
    let left = apply_all(state, one);
    let right = apply_all(state, other);
    assert forall|key: Seq<char>| #[trigger]
        left.contains_key(key) == right.contains_key(key) && (left.contains_key(key) ==> left[key]
            == right[key]) by {
        if exists|i: int| 0 <= i < one.len() && (#[trigger] one[i]).key() == key {
            let i = choose|i: int| 0 <= i < one.len() && (#[trigger] one[i]).key() == key;
            assert(one.contains(one[i]));
            assert(one.to_multiset().count(one[i]) > 0);
            assert(other.to_multiset().count(one[i]) > 0);
            assert(other.contains(one[i]));
            let j = choose|j: int| 0 <= j < other.len() && other[j] == one[i];
            assert(other[j].key() == key);
        } else {
            assert forall|j: int| 0 <= j < other.len() implies (#[trigger] other[j]).key()
                != key by {
                assert(other.contains(other[j]));
                assert(other.to_multiset().count(other[j]) > 0);
                assert(one.to_multiset().count(other[j]) > 0);
                assert(one.contains(other[j]));
                let i = choose|i: int| 0 <= i < one.len() && one[i] == other[j];
                assert(one[i].key() == other[j].key());
            }
        }
    }
    assert(left =~= right);
}

/// Logs `entry` in `wal` and then makes its change to `store`. An entry
/// that is not writable is refused, and log and store are as they were.
///
/// Either way log and store stay in step: where the store was what the log
/// replays to, it is so again.
pub fn record(store: &mut Store, wal: &mut Vec<u8>, entry: &LogEntry) -> (r: Result<(), Failure>)
    ensures
        entry@.writable() ==> r is Ok,
        r is Ok ==> final(wal)@ == old(wal)@ + line_of(entry@),
        r is Ok ==> final(store)@ == entry@.apply(old(store)@),
        !entry@.writable() ==> r == Err::<(), Failure>(Failure::Unloggable),
        r is Err ==> final(wal)@ == old(wal)@,
        r is Err ==> final(store)@ == old(store)@,
        whole_lines(old(wal)@) && replay(old(wal)@) == old(store)@ ==> whole_lines(final(wal)@)
            && replay(final(wal)@) == final(store)@,
{
    match line_for(entry) {
        Ok(mut line) => {
            wal.append(&mut line);
            store.apply(entry);
            proof {
                if whole_lines(old(wal)@) && replay(old(wal)@) == old(store)@ {
                    lemma_replay_concat(Map::empty(), old(wal)@, line_of(entry@));
                    if entry@.loggable() {
                        lemma_replay_line(replay(old(wal)@), entry@);
                    } else {
                        lemma_replay_passed_over(replay(old(wal)@), entry@);
                        lemma_replay_keys_hold_no_space(Map::empty(), old(wal)@);
                        assert(entry@.apply(old(store)@) =~= old(store)@);
                    }
                }
            }
            Ok(())
        },
        Err(failure) => Err(failure),
    }
}

/// The changes that `entries` stand for, in their order.
pub open spec fn changes_of(entries: Seq<LogEntry>) -> Seq<Mutation> {
    Seq::new(entries.len(), |i: int| entries[i]@)
}

/// Whether every one of `entries` is writable.
fn all_writable(entries: &Vec<LogEntry>) -> (r: bool)
    ensures
        r == forall|i: int|
            0 <= i < entries@.len() ==> (#[trigger] changes_of(entries@)[i]).writable(),
{
    let n = entries.len();
    let mut at: usize = 0;
    while at < n
        invariant
            n == entries@.len(),
            at <= n,
            forall|i: int| 0 <= i < at ==> (#[trigger] changes_of(entries@)[i]).writable(),
        decreases n - at,
    {
        if !entries[at].writable() {
            assert(!changes_of(entries@)[at as int].writable());
            return false;
        }
        at += 1;
    }
    true
}

/// Logs `entries` in `wal`, one whole line each and in their order, and
/// makes their changes to `store` in the same order. Where one of them is
/// not writable, all are refused, and log and store are as they were.
///
/// Either way log and store stay in step: where the store was what the log
/// replays to, it is so again.
pub fn record_all(store: &mut Store, wal: &mut Vec<u8>, entries: &Vec<LogEntry>) -> (r: Result<
    (),
    Failure,
>)
    ensures
        (forall|i: int|
            0 <= i < entries@.len() ==> (#[trigger] changes_of(entries@)[i]).writable())
            ==> r is Ok,
        r is Ok ==> final(wal)@ == old(wal)@ + log_of(changes_of(entries@)),
        r is Ok ==> final(store)@ == apply_all(old(store)@, changes_of(entries@)),
        !(forall|i: int|
            0 <= i < entries@.len() ==> (#[trigger] changes_of(entries@)[i]).writable())
            ==> r == Err::<(), Failure>(Failure::Unloggable),
        r is Err ==> final(wal)@ == old(wal)@,
        r is Err ==> final(store)@ == old(store)@,
        whole_lines(old(wal)@) && replay(old(wal)@) == old(store)@ ==> whole_lines(final(wal)@)
            && replay(final(wal)@) == final(store)@,
{
    if !all_writable(entries) {
        return Err(Failure::Unloggable);
    }
    let ghost changes = changes_of(entries@);
    let ghost wal_before = wal@;
    let ghost store_before = store@;
    let n = entries.len();
    let mut at: usize = 0;
    assert(changes.take(0) =~= Seq::<Mutation>::empty());
    assert(wal@ =~= wal_before + log_of(changes.take(0)));
    while at < n
        invariant
            n == entries@.len(),
            at <= n,
            changes == changes_of(entries@),
            forall|i: int| 0 <= i < n ==> (#[trigger] changes[i]).writable(),
            wal@ == wal_before + log_of(changes.take(at as int)),
            store@ == apply_all(store_before, changes.take(at as int)),
            whole_lines(wal_before) && replay(wal_before) == store_before ==> whole_lines(wal@)
                && replay(wal@) == store@,
        decreases n - at,
    {
        assert(changes[at as int] == entries@[at as int]@);
        let recorded = record(store, wal, &entries[at]);
        assert(recorded is Ok);
        proof {
            let now = changes.take(at + 1);
            assert(now.drop_last() =~= changes.take(at as int));
            assert(now.last() == changes[at as int]);
            assert(wal@ =~= wal_before + log_of(now));
        }
        at += 1;
    }
    assert(changes.take(n as int) =~= changes);
    Ok(())
}

/// A last line that a crash cut short does no harm: a log whose last line
/// lacks its newline replays as it does without that line, whatever the
/// line holds.
pub proof fn lemma_truncated_line_is_dropped(front: Seq<u8>, tail: Seq<u8>)
    requires
        whole_lines(front),
        !tail.contains(NEWLINE),
    ensures
        replay(front + tail) == replay(front),
{
    lemma_replay_concat(Map::empty(), front, tail);
    lemma_replay_unfinished_line(replay(front), tail);
}

/// Writing one line to the log file.
///
/// A log file that is there is opened for appending. Where there is none,
/// its directory is created first and then the file; a directory that
/// cannot be created, because it is already there or for any other reason,
/// ends the append.
#[derive(Clone, Copy, Debug, PartialEq, Eq)]
pub enum Append {
    /// Next step: create the log's directory.
    CreateDir,
    /// Next step: create the log file, empty.
    CreateLog,
    /// Next step: open the log file for appending.
    OpenLog,
    /// Next step: write the line and its newline.
    WriteLine,
    /// No step is left.
    Finished(Result<(), Failure>),
}

impl Append {
    /// The state in which an append starts, given whether the log file exists.
    pub open spec fn start(log_exists: bool) -> Append {
        if log_exists {
            Append::OpenLog
        } else {
            Append::CreateDir
        }
    }

    /// The state that follows `self` once the pending step has ended in `outcome`.
    ///
    /// Every step has to succeed: any other outcome ends the append with a
    /// local I/O failure.
    pub open spec fn next(self, outcome: Outcome) -> Append {
        match self {
            Append::Finished(_) => self,
            _ => if outcome is Done {
                match self {
                    Append::CreateDir => Append::CreateLog,
                    Append::CreateLog => Append::WriteLine,
                    Append::OpenLog => Append::WriteLine,
                    _ => Append::Finished(Ok(())),
                }
            } else {
                Append::Finished(Err(Failure::LocalIo))
            },
        }
    }

    /// Takes in the outcome of the pending step.
    pub fn advance(self, outcome: Outcome) -> (a: Append)
        ensures
            a == self.next(outcome),
    {
        match self {
            Append::Finished(result) => Append::Finished(result),
            _ => match outcome {
                Outcome::Done => match self {
                    Append::CreateDir => Append::CreateLog,
                    Append::CreateLog => Append::WriteLine,
                    Append::OpenLog => Append::WriteLine,
                    _ => Append::Finished(Ok(())),
                },
                _ => Append::Finished(Err(Failure::LocalIo)),
            },
        }
    }

    /// The append's result, once it has one.
    pub fn result(&self) -> (r: Option<Result<(), Failure>>)
        ensures
            r == (match *self {
                Append::Finished(result) => Some(result),
                _ => None::<Result<(), Failure>>,
            }),
    {
        match self {
            Append::Finished(result) => Some(*result),
            _ => None,
        }
    }
}

/// Begins the way to a log file that a line can be appended to: the first
/// step of an append, given whether the log file exists.
pub fn get_wal_file(log_exists: bool) -> (append: Append)
    ensures
        append == Append::start(log_exists),
{
    if log_exists {
        Append::OpenLog
    } else {
        Append::CreateDir
    }
}

} // verus!
