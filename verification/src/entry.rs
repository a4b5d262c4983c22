//! The entries of the log and their one-line encoding.
//!
//! A line reads `SET <key> <value>` or `DELETE <key>`. Its fields are
//! separated by single spaces; the value is the rest of the line and may
//! hold spaces itself. Anything else is no entry.

use crate::text::{
    find, find_byte, holds, lemma_encode_utf8_concat, lemma_encoding_free_of,
    lemma_encoding_holds, lemma_find_byte, lemma_find_byte_at, one_line, text_of, SPACE,
};
use vstd::prelude::*;
use vstd::string::*;
use vstd::utf8::*;

verus! {

/// What the store holds: a value under each key.
pub type Contents = Map<Seq<char>, Seq<char>>;

/// A change to the store, as a mathematical value.
pub enum Mutation {
    /// Put `value` under `key`, replacing what was there.
    Put { key: Seq<char>, value: Seq<char> },
    /// Take `key` out; nothing happens where it is absent.
    Delete { key: Seq<char> },
}

impl Mutation {
    /// The store after this change.
    pub open spec fn apply(self, state: Contents) -> Contents {
        match self {
            Mutation::Put { key, value } => state.insert(key, value),
            Mutation::Delete { key } => state.remove(key),
        }
    }

    /// The line that stands for this change in the log, without its newline.
    pub open spec fn command(self) -> Seq<char> {
        match self {
            Mutation::Put { key, value } => seq!['S', 'E', 'T', ' '] + key + seq![' '] + value,
            Mutation::Delete { key } => seq!['D', 'E', 'L', 'E', 'T', 'E', ' '] + key,
        }
    }

    /// The key that this change is about.
    pub open spec fn key(self) -> Seq<char> {
        match self {
            Mutation::Put { key, .. } => key,
            Mutation::Delete { key } => key,
        }
    }

    /// Whether the log gives this change back as it was written: the key
    /// holds neither a space nor a newline, and the value holds no newline.
    pub open spec fn loggable(self) -> bool {
        &&& !self.key().contains(' ')
        &&& !self.key().contains('\n')
        &&& (self matches Mutation::Put { value, .. } ==> !value.contains('\n'))
    }

    /// Whether the log passes this change over without harm: it is a delete
    /// of a key that holds a space, which no put in a log can have set, and
    /// its key holds no newline.
    pub open spec fn passed_over(self) -> bool {
        &&& self is Delete
        &&& self.key().contains(' ')
        &&& !self.key().contains('\n')
    }

    /// Whether this change can be written to the log so that a replay does
    /// what the change does: no newline is in it, and where it is a put, no
    /// space is in its key. It is then loggable, or a delete that is passed
    /// over.
    pub open spec fn writable(self) -> bool {
        &&& !self.key().contains('\n')
        &&& (self matches Mutation::Put { key, value } ==> !key.contains(' ') && !value.contains(
            '\n',
        ))
    }
}

/// The first field of a line that sets a key.
pub open spec fn set_word() -> Seq<u8> {
    seq![0x53u8, 0x45u8, 0x54u8]
}

/// The first field of a line that deletes a key.
pub open spec fn delete_word() -> Seq<u8> {
    seq![0x44u8, 0x45u8, 0x4Cu8, 0x45u8, 0x54u8, 0x45u8]
}

/// The entry that a line stands for, if it stands for one.
///
/// The line is cut at its first space, and what follows at the next one, so
/// that it has at most three fields. Three fields of which the first is
/// `SET` are a set; two fields of which the first is `DELETE` are a delete.
/// Key and value have to be well-formed UTF-8.
pub open spec fn parse(line: Seq<u8>) -> Option<Mutation> {
    let first = find_byte(line, SPACE);
    let rest = line.skip(first + 1);
    let second = find_byte(rest, SPACE);
    if first == line.len() {
        None
    } else if second == rest.len() {
        if line.take(first) == delete_word() && valid_utf8(rest) {
            Some(Mutation::Delete { key: decode_utf8(rest) })
        } else {
            None
        }
    } else {
        let key = rest.take(second);
        let value = rest.skip(second + 1);
        if line.take(first) == set_word() && valid_utf8(key) && valid_utf8(value) {
            Some(Mutation::Put { key: decode_utf8(key), value: decode_utf8(value) })
        } else {
            None
        }
    }
}

/// The bytes of a line that sets a key: the word, the key and the value,
/// with a space after the first two.
proof fn lemma_put_bytes(key: Seq<char>, value: Seq<char>)
    ensures
        encode_utf8((Mutation::Put { key, value }).command()) == set_word() + seq![SPACE]
            + encode_utf8(key) + seq![SPACE] + encode_utf8(value),
{
    let word = seq!['S', 'E', 'T', ' '];
    let gap = seq![' '];
    lemma_encode_utf8_concat(word + key + gap, value);
    lemma_encode_utf8_concat(word + key, gap);
    lemma_encode_utf8_concat(word, key);
    is_ascii_chars_encode_utf8(word);
    is_ascii_chars_encode_utf8(gap);
    assert(encode_utf8(word) =~= set_word() + seq![SPACE]);
    assert(encode_utf8(gap) =~= seq![SPACE]);
}

/// The bytes of a line that deletes a key: the word, a space and the key.
proof fn lemma_delete_bytes(key: Seq<char>)
    ensures
        encode_utf8((Mutation::Delete { key }).command()) == delete_word() + seq![SPACE]
            + encode_utf8(key),
{
    let word = seq!['D', 'E', 'L', 'E', 'T', 'E', ' '];
    lemma_encode_utf8_concat(word, key);
    is_ascii_chars_encode_utf8(word);
    assert(encode_utf8(word) =~= delete_word() + seq![SPACE]);
}

/// Writing and reading agree: the line of a loggable change is read back as
/// that change.
pub proof fn lemma_parse_command(change: Mutation)
    requires
        change.loggable(),
    ensures
        parse(encode_utf8(change.command())) == Some(change),
{
    let line = encode_utf8(change.command());
    let key = encode_utf8(change.key());
    lemma_encoding_free_of(change.key(), ' ');
    encode_utf8_valid_utf8(change.key());
    encode_utf8_decode_utf8(change.key());
    assert forall|i: int| 0 <= i < key.len() implies key[i] != SPACE by {
        assert(key.contains(key[i]));
    }
    match change {
        Mutation::Put { key: k, value: v } => {
            let value = encode_utf8(v);
            lemma_put_bytes(k, v);
            encode_utf8_valid_utf8(v);
            encode_utf8_decode_utf8(v);
            lemma_find_byte_at(line, SPACE, 3);
            let rest = line.skip(4);
            assert(rest =~= key + seq![SPACE] + value);
            lemma_find_byte_at(rest, SPACE, key.len() as int);
            assert(line.take(3) =~= set_word());
            assert(rest.take(key.len() as int) =~= key);
            assert(rest.skip(key.len() as int + 1) =~= value);
        },
        Mutation::Delete { key: k } => {
            lemma_delete_bytes(k);
            lemma_find_byte_at(line, SPACE, 6);
            let rest = line.skip(7);
            assert(rest =~= key);
            lemma_find_byte_at(rest, SPACE, key.len() as int);
            assert(line.take(6) =~= delete_word());
        },
    }
}

/// The line of a delete whose key holds a space is no entry: it has three
/// fields, and its first is not the word of a set.
pub proof fn lemma_parse_passed_over(change: Mutation)
    requires
        change.passed_over(),
    ensures
        parse(encode_utf8(change.command())) is None,
{
    let line = encode_utf8(change.command());
    let key = encode_utf8(change.key());
    lemma_delete_bytes(change.key());
    lemma_encoding_holds(change.key(), ' ');
    lemma_find_byte_at(line, SPACE, 6);
    let rest = line.skip(7);
    assert(rest =~= key);
    lemma_find_byte(rest, SPACE);
    assert(find_byte(rest, SPACE) < rest.len()) by {
        let i = choose|i: int| 0 <= i < key.len() && key[i] == SPACE;
        assert(rest[i] == SPACE);
    }
    assert(line.take(6).len() != set_word().len());
}

/// No line sets a key that holds a space: the key of a set ends at the
/// first space after the word.
pub proof fn lemma_parsed_key_holds_no_space(line: Seq<u8>)
    ensures
        parse(line) matches Some(Mutation::Put { key, .. }) ==> !key.contains(' '),
{
    if let Some(Mutation::Put { key, value }) = parse(line) {
        let first = find_byte(line, SPACE);
        let rest = line.skip(first + 1);
        let second = find_byte(rest, SPACE);
        let bytes = rest.take(second);
        lemma_find_byte(rest, SPACE);
        decode_utf8_encode_utf8(bytes);
        if key.contains(' ') {
            lemma_encoding_holds(key, ' ');
            let i = choose|i: int| 0 <= i < bytes.len() && bytes[i] == SPACE;
            assert(rest[i] == SPACE);
        }
    }
}

/// One entry of the log.
#[derive(Clone, Debug, PartialEq, Eq)]
pub enum LogEntry {
    /// Put `value` under `key`.
    Put { key: String, value: String },
    /// Take `key` out.
    Delete { key: String },
}

impl View for LogEntry {
    type V = Mutation;

    open spec fn view(&self) -> Mutation {
        match self {
            LogEntry::Put { key, value } => Mutation::Put { key: key@, value: value@ },
            LogEntry::Delete { key } => Mutation::Delete { key: key@ },
        }
    }
}

impl LogEntry {
    /// The line that stands for this entry in the log, without its newline.
    pub fn command(&self) -> (text: String)
        ensures
            text@ == self@.command(),
    {
        proof {
            reveal_strlit("SET ");
            reveal_strlit("DELETE ");
            reveal_strlit(" ");
        }
        match self {
            LogEntry::Put { key, value } => {
                let mut text = String::from_str("SET ");
                assert(text@ =~= seq!['S', 'E', 'T', ' ']);
                text.append(key.as_str());
                text.append(" ");
                assert(" "@ =~= seq![' ']);
                text.append(value.as_str());
                text
            },
            LogEntry::Delete { key } => {
                let mut text = String::from_str("DELETE ");
                assert(text@ =~= seq!['D', 'E', 'L', 'E', 'T', 'E', ' ']);
                text.append(key.as_str());
                text
            },
        }
    }

    /// Whether this entry can be written to the log so that a replay does
    /// what the entry does.
    pub fn writable(&self) -> (r: bool)
        ensures
            r == self@.writable(),
            r == (self@.loggable() || self@.passed_over()),
    {
        match self {
            LogEntry::Put { key, value } => !holds(key.as_str(), ' ') && !holds(key.as_str(), '\n')
                && !holds(value.as_str(), '\n'),
            LogEntry::Delete { key } => !holds(key.as_str(), '\n'),
        }
    }
}

/// The line of a writable change is one line.
pub proof fn lemma_command_one_line(change: Mutation)
    requires
        change.writable(),
    ensures
        one_line(change.command()),
{
    let text = change.command();
    assert forall|i: int| 0 <= i < text.len() implies text[i] != '\n' by {
        match change {
            Mutation::Put { key, value } => {
                if 4 <= i < 4 + key.len() {
                    assert(key.contains(key[i - 4]));
                } else if i > 4 + key.len() {
                    assert(value.contains(value[i - 5 - key.len()]));
                }
            },
            Mutation::Delete { key } => {
                if 7 <= i {
                    assert(key.contains(key[i - 7]));
                }
            },
        }
    }
}

/// Whether the bytes of `line` in front of `to` are the word `SET`.
fn is_set_word(line: &[u8], to: usize) -> (r: bool)
    requires
        to <= line@.len(),
    ensures
        r == (line@.take(to as int) == set_word()),
{
    let r = to == 3 && line[0] == 0x53 && line[1] == 0x45 && line[2] == 0x54;
    proof {
        let word = line@.take(to as int);
        if r {
            assert(word =~= set_word());
        } else if to == 3 {
            assert(word[0] == line@[0] && word[1] == line@[1] && word[2] == line@[2]);
        } else {
            assert(word.len() != set_word().len());
        }
    }
    r
}

/// Whether the bytes of `line` in front of `to` are the word `DELETE`.
fn is_delete_word(line: &[u8], to: usize) -> (r: bool)
    requires
        to <= line@.len(),
    ensures
        r == (line@.take(to as int) == delete_word()),
{
    let r = to == 6 && line[0] == 0x44 && line[1] == 0x45 && line[2] == 0x4C && line[3] == 0x45
        && line[4] == 0x54 && line[5] == 0x45;
    proof {
        let word = line@.take(to as int);
        if r {
            assert(word =~= delete_word());
        } else if to == 6 {
            assert(word[0] == line@[0] && word[1] == line@[1] && word[2] == line@[2]);
            assert(word[3] == line@[3] && word[4] == line@[4] && word[5] == line@[5]);
        } else {
            assert(word.len() != delete_word().len());
        }
    }
    r
}

/// Reads one line of the log, given without its newline.
pub fn parse_line(line: &[u8]) -> (entry: Option<LogEntry>)
    ensures
        match entry {
            Some(e) => parse(line@) == Some(e@),
            None => parse(line@) is None,
        },
{
    let n = line.len();
    let first = find(line, 0, SPACE);
    assert(line@.skip(0) =~= line@);
    if first == n {
        return None;
    }
    let second = find(line, first + 1, SPACE);
    let ghost rest = line@.skip(first + 1);
    if second == n {
        assert(line@.subrange(first + 1, n as int) =~= rest);
        if !is_delete_word(line, first) {
            return None;
        }
        match text_of(line, first + 1, n) {
            Some(key) => Some(LogEntry::Delete { key }),
            None => None,
        }
    } else {
        assert(line@.subrange(first + 1, second as int) =~= rest.take(second - first - 1));
        assert(line@.subrange(second + 1, n as int) =~= rest.skip(second - first));
        if !is_set_word(line, first) {
            return None;
        }
        match text_of(line, first + 1, second) {
            Some(key) => match text_of(line, second + 1, n) {
                Some(value) => Some(LogEntry::Put { key, value }),
                None => None,
            },
            None => None,
        }
    }
}

} // verus!
