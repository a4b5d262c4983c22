use qudis::entry::{parse_line, LogEntry};
use qudis::outcome::{Failure, Outcome};
use qudis::store::Store;
use qudis::wal::{append_wal, get_wal_file, line_for, load_wal, record, record_all, Append};

fn put(key: &str, value: &str) -> LogEntry {
    LogEntry::Put { key: key.to_string(), value: value.to_string() }
}

fn delete(key: &str) -> LogEntry {
    LogEntry::Delete { key: key.to_string() }
}

fn log(store: &mut Store, wal: &mut Vec<u8>, entry: &LogEntry) {
    assert_eq!(record(store, wal, entry), Ok(()));
}

fn same_on(left: &Store, right: &Store, keys: &[&str]) {
    for key in keys {
        assert_eq!(left.get(key), right.get(key), "key {}", key);
    }
}

#[test]
fn a_committed_entry_is_in_the_log_first() {
    let mut store = Store::new();
    let mut wal: Vec<u8> = Vec::new();
    let entry = put("a", "1");
    assert_eq!(append_wal(&mut wal, &entry.command()), Ok(()));
    assert_eq!(store.get("a"), None);
    assert_eq!(store.commit(&entry, Ok(())), Ok(()));
    assert_eq!(store.get("a"), Some("1".to_string()));
    assert_eq!(wal, b"SET a 1\n".to_vec());
}

#[test]
fn set_then_get_returns_the_value_and_logs_one_line() {
    let mut store = Store::new();
    let mut wal: Vec<u8> = Vec::new();
    log(&mut store, &mut wal, &put("a", "1"));
    assert_eq!(store.get("a"), Some("1".to_string()));
    assert_eq!(wal, b"SET a 1\n".to_vec());
}

#[test]
fn set_then_delete_leaves_nothing_and_logs_two_lines() {
    let mut store = Store::new();
    let mut wal: Vec<u8> = Vec::new();
    log(&mut store, &mut wal, &put("a", "1"));
    log(&mut store, &mut wal, &delete("a"));
    assert_eq!(store.get("a"), None);
    assert_eq!(wal, b"SET a 1\nDELETE a\n".to_vec());
}

#[test]
fn load_replays_lines_in_order() {
    let store = load_wal(Some(b"SET a 1\nSET a 2\nDELETE b\n"));
    assert_eq!(store.get("a"), Some("2".to_string()));
    assert_eq!(store.get("b"), None);
}

#[test]
fn load_without_a_log_file_gives_an_empty_store() {
    let store = load_wal(None);
    assert_eq!(store.get("a"), None);
    let store = load_wal(Some(b""));
    assert_eq!(store.get("a"), None);
}

#[test]
fn last_write_wins() {
    let mut store = Store::new();
    store.set("k", "old");
    store.set("k", "new");
    assert_eq!(store.get("k"), Some("new".to_string()));
}

#[test]
fn deleting_an_absent_key_changes_nothing() {
    let mut store = Store::new();
    store.set("k", "v");
    store.delete("other");
    assert_eq!(store.get("k"), Some("v".to_string()));
    assert_eq!(store.get("other"), None);
}

#[test]
fn a_failed_append_leaves_the_store_as_it_was() {
    let mut store = Store::new();
    store.set("a", "1");
    assert_eq!(store.commit(&put("a", "2"), Err(Failure::LocalIo)), Err(Failure::LocalIo));
    assert_eq!(store.get("a"), Some("1".to_string()));
    assert_eq!(store.commit(&delete("a"), Err(Failure::LocalIo)), Err(Failure::LocalIo));
    assert_eq!(store.get("a"), Some("1".to_string()));
    assert_eq!(store.commit(&put("a", "2"), Ok(())), Ok(()));
    assert_eq!(store.get("a"), Some("2".to_string()));
}

#[test]
fn commands_read_as_the_grammar_says() {
    assert_eq!(put("a", "1").command(), "SET a 1");
    assert_eq!(put("key", "a value with  spaces").command(), "SET key a value with  spaces");
    assert_eq!(put("k", "").command(), "SET k ");
    assert_eq!(delete("a").command(), "DELETE a");
}

#[test]
fn append_adds_the_bytes_and_a_newline() {
    let mut wal = b"SET a 1\n".to_vec();
    assert_eq!(append_wal(&mut wal, "DELETE a"), Ok(()));
    assert_eq!(wal, b"SET a 1\nDELETE a\n".to_vec());
    assert_eq!(append_wal(&mut wal, "SET k h\u{e9}llo"), Ok(()));
    assert_eq!(wal, b"SET a 1\nDELETE a\nSET k h\xc3\xa9llo\n".to_vec());
    assert_eq!(append_wal(&mut wal, ""), Ok(()));
    assert_eq!(wal, b"SET a 1\nDELETE a\nSET k h\xc3\xa9llo\n\n".to_vec());
}

#[test]
fn append_refuses_what_holds_a_newline() {
    let mut wal = b"SET a 1\n".to_vec();
    assert_eq!(append_wal(&mut wal, "SET a x\nDELETE other"), Err(Failure::Unloggable));
    assert_eq!(append_wal(&mut wal, "SET a x\n"), Err(Failure::Unloggable));
    assert_eq!(append_wal(&mut wal, "\n"), Err(Failure::Unloggable));
    assert_eq!(wal, b"SET a 1\n".to_vec());
}

#[test]
fn append_takes_every_command_without_a_newline() {
    let mut wal = b"SET a 1\n".to_vec();
    assert_eq!(append_wal(&mut wal, "SET a x\r"), Ok(()));
    assert_eq!(wal, b"SET a 1\nSET a x\r\n".to_vec());
    assert_eq!(append_wal(&mut wal, "SET a x\ry\t z "), Ok(()));
    assert_eq!(wal, b"SET a 1\nSET a x\r\nSET a x\ry\t z \n".to_vec());
    assert_eq!(append_wal(&mut wal, "\r"), Ok(()));
    assert_eq!(wal, b"SET a 1\nSET a x\r\nSET a x\ry\t z \n\r\n".to_vec());
}

#[test]
fn the_line_of_an_entry_is_its_command_and_a_newline() {
    assert_eq!(line_for(&put("a", "1 2")), Ok(b"SET a 1 2\n".to_vec()));
    assert_eq!(line_for(&put("", "")), Ok(b"SET  \n".to_vec()));
    assert_eq!(line_for(&delete("a")), Ok(b"DELETE a\n".to_vec()));
    assert_eq!(line_for(&put("k", "a\rb")), Ok(b"SET k a\rb\n".to_vec()));
    assert_eq!(line_for(&put("k", "x\r")), Ok(b"SET k x\r\n".to_vec()));
    assert_eq!(line_for(&delete("a b")), Ok(b"DELETE a b\n".to_vec()));
}

#[test]
fn an_entry_that_is_not_writable_has_no_line() {
    for entry in [
        put("a b", "1"),
        put("a\nb", "1"),
        put("a", "x\nDELETE other"),
        put("a", "x\n"),
        delete("a\nb"),
        delete("\n"),
    ] {
        assert!(!entry.writable(), "{:?}", entry);
        assert_eq!(line_for(&entry), Err(Failure::Unloggable), "{:?}", entry);
    }
    for entry in [
        put("a", "1"),
        put("a", "x y"),
        put("a", "x\r"),
        put("a\r", "x"),
        put("", ""),
        delete("a"),
        delete("a b"),
        delete("a\r"),
    ] {
        assert!(entry.writable(), "{:?}", entry);
    }
}

#[test]
fn lines_parse_into_entries() {
    assert_eq!(parse_line(b"SET a 1"), Some(put("a", "1")));
    assert_eq!(parse_line(b"SET a 1 2  3"), Some(put("a", "1 2  3")));
    assert_eq!(parse_line(b"SET a "), Some(put("a", "")));
    assert_eq!(parse_line(b"SET  v"), Some(put("", "v")));
    assert_eq!(parse_line(b"DELETE a"), Some(delete("a")));
    assert_eq!(parse_line(b"DELETE "), Some(delete("")));
    assert_eq!(parse_line("SET cl\u{e9} va\u{6c34}".as_bytes()), Some(put("cl\u{e9}", "va\u{6c34}")));
}

#[test]
fn other_lines_are_no_entries() {
    assert_eq!(parse_line(b""), None);
    assert_eq!(parse_line(b"SET"), None);
    assert_eq!(parse_line(b"SET a"), None);
    assert_eq!(parse_line(b"DELETE"), None);
    assert_eq!(parse_line(b"DELETE a b"), None);
    assert_eq!(parse_line(b"GET a"), None);
    assert_eq!(parse_line(b"set a 1"), None);
    assert_eq!(parse_line(b"SETT a 1"), None);
    assert_eq!(parse_line(b" SET a 1"), None);
    assert_eq!(parse_line(b"SET\ta 1"), None);
    assert_eq!(parse_line(b"SET a \xff"), None);
    assert_eq!(parse_line(b"SET \xc3 v"), None);
    assert_eq!(parse_line(b"DELETE \xff"), None);
}

#[test]
fn bad_lines_are_passed_over() {
    let store = load_wal(Some(b"SET a 1\nnonsense\n\nSET b \xff\nDELETE a b\nSET c 3\n"));
    assert_eq!(store.get("a"), Some("1".to_string()));
    assert_eq!(store.get("b"), None);
    assert_eq!(store.get("c"), Some("3".to_string()));
}

#[test]
fn a_carriage_return_is_part_of_the_value() {
    let store = load_wal(Some(b"SET a 1\r\nSET b 2\r\r\nSET c 3\r4\nDELETE d\r\n"));
    assert_eq!(store.get("a"), Some("1\r".to_string()));
    assert_eq!(store.get("b"), Some("2\r\r".to_string()));
    assert_eq!(store.get("c"), Some("3\r4".to_string()));
}

#[test]
fn a_value_that_ends_in_a_carriage_return_is_logged_and_comes_back() {
    let mut store = Store::new();
    let mut wal: Vec<u8> = Vec::new();
    log(&mut store, &mut wal, &put("k", "v\r"));
    log(&mut store, &mut wal, &put("k2\r", "\r"));
    assert_eq!(wal, b"SET k v\r\nSET k2\r \r\n".to_vec());
    assert_eq!(store.get("k"), Some("v\r".to_string()));
    assert_eq!(store.commit(&put("k3", "w\r"), Ok(())), Ok(()));
    assert_eq!(store.get("k3"), Some("w\r".to_string()));
    let replayed = load_wal(Some(&wal));
    assert_eq!(replayed.get("k"), Some("v\r".to_string()));
    assert_eq!(replayed.get("k2\r"), Some("\r".to_string()));
}

#[test]
fn a_last_line_without_its_newline_is_dropped() {
    let store = load_wal(Some(b"SET a 1\nSET a 12"));
    assert_eq!(store.get("a"), Some("1".to_string()));
    let store = load_wal(Some(b"SET a 1\nSET b 2"));
    assert_eq!(store.get("a"), Some("1".to_string()));
    assert_eq!(store.get("b"), None);
    let store = load_wal(Some(b"SET a 1\nDELETE a"));
    assert_eq!(store.get("a"), Some("1".to_string()));
    let store = load_wal(Some(b"SET a 1"));
    assert_eq!(store.get("a"), None);
    let store = load_wal(Some(b"SET a 1\nSET b 2\r"));
    assert_eq!(store.get("b"), None);
}

#[test]
fn a_truncated_last_line_replays_like_the_log_without_it() {
    let whole: &[u8] = b"SET a 1\nSET b 2\nDELETE a\n";
    for tail in [
        &b"S"[..],
        b"SE",
        b"SET",
        b"SET ",
        b"SET c",
        b"SET c 3",
        b"SET b 22",
        b"DEL",
        b"DELETE",
        b"DELETE b",
        b"DELETE a b",
    ] {
        let mut cut = whole.to_vec();
        cut.extend_from_slice(tail);
        let with_tail = load_wal(Some(&cut));
        let without = load_wal(Some(whole));
        same_on(&with_tail, &without, &["a", "b", "c", ""]);
        assert_eq!(with_tail.get("a"), None);
        assert_eq!(with_tail.get("b"), Some("2".to_string()));
    }
}

#[test]
fn replaying_the_log_gives_the_store_that_the_changes_gave() {
    let changes = vec![
        put("a", "1"),
        put("b", "two words"),
        delete("a"),
        put("a", "3"),
        put("c", ""),
        delete("missing"),
        put("b", "cr\rinside"),
        put("d", "cr at the end\r"),
        delete("never there"),
        put("u:\u{e9}", "\u{6c34} \u{1f600}"),
        delete("c"),
    ];
    let mut store = Store::new();
    let mut wal: Vec<u8> = Vec::new();
    for change in &changes {
        log(&mut store, &mut wal, change);
    }
    let replayed = load_wal(Some(&wal));
    same_on(&store, &replayed, &["a", "b", "c", "d", "missing", "never there", "u:\u{e9}"]);
    assert_eq!(replayed.get("d"), Some("cr at the end\r".to_string()));
    assert_eq!(replayed.get("a"), Some("3".to_string()));
    assert_eq!(replayed.get("b"), Some("cr\rinside".to_string()));
    assert_eq!(replayed.get("c"), None);
    assert_eq!(replayed.get("u:\u{e9}"), Some("\u{6c34} \u{1f600}".to_string()));
}

#[test]
fn an_entry_that_is_not_writable_is_refused_before_anything_is_logged() {
    let mut store = Store::new();
    let mut wal: Vec<u8> = Vec::new();
    log(&mut store, &mut wal, &put("a", "1"));
    log(&mut store, &mut wal, &put("other", "kept"));
    for entry in [
        put("a b", "1"),
        put("a", "x\nDELETE other"),
        put("a\n", "1"),
        delete("a\nother"),
    ] {
        assert_eq!(record(&mut store, &mut wal, &entry), Err(Failure::Unloggable), "{:?}", entry);
        assert_eq!(store.commit(&entry, Ok(())), Err(Failure::Unloggable), "{:?}", entry);
    }
    assert_eq!(wal, b"SET a 1\nSET other kept\n".to_vec());
    assert_eq!(store.get("a"), Some("1".to_string()));
    assert_eq!(store.get("other"), Some("kept".to_string()));
    assert_eq!(store.get("a b"), None);
    let replayed = load_wal(Some(&wal));
    same_on(&store, &replayed, &["a", "a b", "other", "a\n"]);
}

#[test]
fn a_delete_of_a_key_with_a_space_is_logged_and_passed_over() {
    let mut store = Store::new();
    let mut wal: Vec<u8> = Vec::new();
    log(&mut store, &mut wal, &put("a", "1"));
    log(&mut store, &mut wal, &delete("a b"));
    log(&mut store, &mut wal, &delete("a "));
    assert_eq!(wal, b"SET a 1\nDELETE a b\nDELETE a \n".to_vec());
    let replayed = load_wal(Some(&wal));
    same_on(&store, &replayed, &["a", "a b", "a ", "b"]);
    assert_eq!(replayed.get("a"), Some("1".to_string()));
}

#[test]
fn a_batch_adds_one_whole_line_for_each_entry_in_order() {
    let mut store = Store::new();
    store.set("old", "kept");
    let mut wal = b"SET old kept\n".to_vec();
    let batch = vec![put("k1", "v1"), put("k2", "v 2\r"), delete("k1"), put("k3", "")];
    assert_eq!(record_all(&mut store, &mut wal, &batch), Ok(()));
    assert_eq!(wal, b"SET old kept\nSET k1 v1\nSET k2 v 2\r\nDELETE k1\nSET k3 \n".to_vec());
    assert_eq!(store.get("k1"), None);
    assert_eq!(store.get("k2"), Some("v 2\r".to_string()));
    assert_eq!(store.get("k3"), Some("".to_string()));
    assert_eq!(store.get("old"), Some("kept".to_string()));
    same_on(&store, &load_wal(Some(&wal)), &["k1", "k2", "k3", "old"]);
    assert_eq!(record_all(&mut store, &mut wal, &Vec::new()), Ok(()));
    assert_eq!(wal.len(), 53);
}

#[test]
fn a_batch_with_an_entry_that_is_not_writable_changes_nothing() {
    let mut store = Store::new();
    let mut wal = b"SET old kept\n".to_vec();
    let batch = vec![put("k1", "v1"), put("k2", "x\ny"), put("k3", "v3")];
    assert_eq!(record_all(&mut store, &mut wal, &batch), Err(Failure::Unloggable));
    assert_eq!(wal, b"SET old kept\n".to_vec());
    assert_eq!(store.get("k1"), None);
    assert_eq!(store.get("k3"), None);
}

#[test]
fn many_sets_on_distinct_keys_all_persist_in_any_order() {
    let entries = vec![put("k1", "v1"), put("k2", "v2"), put("k3", "v3"), put("k4", "v4")];
    let orders = [[0, 1, 2, 3], [3, 2, 1, 0], [1, 3, 0, 2], [2, 0, 3, 1]];
    for order in orders {
        let mut store = Store::new();
        store.set("old", "kept");
        let mut wal = b"SET old kept\n".to_vec();
        for index in order {
            log(&mut store, &mut wal, &entries[index]);
        }
        for (key, value) in [("k1", "v1"), ("k2", "v2"), ("k3", "v3"), ("k4", "v4")] {
            assert_eq!(store.get(key), Some(value.to_string()));
        }
        assert_eq!(store.get("old"), Some("kept".to_string()));
        let mut lines: Vec<&[u8]> = wal.split(|byte| *byte == b'\n').collect();
        assert_eq!(lines.pop(), Some(&b""[..]));
        assert_eq!(lines.remove(0), b"SET old kept");
        lines.sort();
        assert_eq!(lines, vec![&b"SET k1 v1"[..], b"SET k2 v2", b"SET k3 v3", b"SET k4 v4"]);
        same_on(&store, &load_wal(Some(&wal)), &["k1", "k2", "k3", "k4", "old"]);
    }
}

#[test]
fn set_and_delete_on_one_key_agree_with_the_log_in_either_order() {
    let mut store = Store::new();
    let mut wal: Vec<u8> = Vec::new();
    log(&mut store, &mut wal, &put("k", "v"));
    log(&mut store, &mut wal, &delete("k"));
    assert_eq!(store.get("k"), None);
    assert_eq!(wal, b"SET k v\nDELETE k\n".to_vec());
    assert_eq!(load_wal(Some(&wal)).get("k"), None);

    let mut store = Store::new();
    let mut wal: Vec<u8> = Vec::new();
    log(&mut store, &mut wal, &delete("k"));
    log(&mut store, &mut wal, &put("k", "v"));
    assert_eq!(store.get("k"), Some("v".to_string()));
    assert_eq!(wal, b"DELETE k\nSET k v\n".to_vec());
    assert_eq!(load_wal(Some(&wal)).get("k"), Some("v".to_string()));
}

#[test]
fn sets_on_distinct_keys_all_persist_in_either_order() {
    let mut one = Store::new();
    one.set("x", "1");
    one.set("y", "2");
    let mut other = Store::new();
    other.set("y", "2");
    other.set("x", "1");
    same_on(&one, &other, &["x", "y"]);
    assert_eq!(one.get("x"), Some("1".to_string()));
    assert_eq!(one.get("y"), Some("2".to_string()));
}

#[test]
fn set_and_delete_on_one_key_leave_what_the_later_says() {
    let mut store = Store::new();
    store.set("k", "v");
    store.delete("k");
    assert_eq!(store.get("k"), None);
    store.delete("k");
    store.set("k", "v");
    assert_eq!(store.get("k"), Some("v".to_string()));
}

#[test]
fn the_first_append_creates_directory_and_file() {
    let mut append = get_wal_file(false);
    assert_eq!(append, Append::CreateDir);
    append = append.advance(Outcome::Done);
    assert_eq!(append, Append::CreateLog);
    append = append.advance(Outcome::Done);
    assert_eq!(append, Append::WriteLine);
    assert_eq!(append.result(), None);
    append = append.advance(Outcome::Done);
    assert_eq!(append.result(), Some(Ok(())));
    assert_eq!(append.advance(Outcome::Io), Append::Finished(Ok(())));
}

#[test]
fn a_later_append_opens_the_file() {
    let mut append = get_wal_file(true);
    assert_eq!(append, Append::OpenLog);
    append = append.advance(Outcome::Done);
    assert_eq!(append, Append::WriteLine);
    append = append.advance(Outcome::Done);
    assert_eq!(append, Append::Finished(Ok(())));
}

#[test]
fn an_append_fails_with_any_step() {
    let failed = Append::Finished(Err(Failure::LocalIo));
    assert_eq!(get_wal_file(false).advance(Outcome::Io), failed);
    assert_eq!(get_wal_file(false).advance(Outcome::AlreadyExists), failed);
    assert_eq!(Append::CreateLog.advance(Outcome::Io), failed);
    assert_eq!(get_wal_file(true).advance(Outcome::Io), failed);
    assert_eq!(Append::WriteLine.advance(Outcome::Io), failed);
    assert_eq!(failed.advance(Outcome::Done), failed);
}
