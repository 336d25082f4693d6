//! A key-value storage kept in one text file: a version header line, then
//! the entries as one JSON object.
//!
//! The file system work (opening, writing, reading modification times) is
//! done by the caller, which hands this type what it read and the times it
//! observed; everything that decides what is stored, what is written and
//! how a file is read back is here.

use std::collections::BTreeMap;
use vstd::prelude::*;

use crate::entries::{empty_entries, insert_entry, remove_entry};
use crate::error::{ArklibError, ErrorModel};
use crate::json::{decode_entries, encode_entries, json_entries, json_text};
use crate::paths::{parent_dir, path_parent};
use crate::text::{
    chars_of, concat_lines, digit_char, digits_value, i32_to_decimal, int_decimal, join_lines_from,
    lemma_line_scan_no_newline, line_scan, decimal_reads_back, lemma_int_decimal_shape,
    lemma_line_scan_extends, lines_of, parse_i32, parse_i32_spec, split_lines,
    string_of, strip_cr, views_of,
};

verus! {

/// The storage format version this library reads and writes.
pub const STORAGE_VERSION: i32 = 2;

/// The text that starts the header line, before the version number.
pub const STORAGE_VERSION_PREFIX: &'static str = "version ";

/// A point in time: whole seconds and nanoseconds since the Unix epoch.
#[derive(Clone, Copy, Debug, PartialEq, Eq, Structural)]
pub struct Timestamp {
    pub secs: u64,
    pub nanos: u32,
}

/// What was read from a storage file: its text and its modification time.
pub struct FileSnapshot {
    pub contents: String,
    pub modified: Timestamp,
}

/// What to write for a storage: the directory that must exist, and the
/// file's full text.
pub struct WriteRequest {
    pub dir: String,
    pub contents: String,
}

/// A storage: a diagnostic label, the file's path, the time of the last
/// write or read that this storage knows of, and the entries.
pub struct FileStorage {
    label: String,
    path: String,
    timestamp: Timestamp,
    data: BTreeMap<String, String>,
}

/// The abstract state of a `FileStorage`.
pub struct StorageModel {
    pub label: Seq<char>,
    pub path: Seq<char>,
    pub timestamp: Timestamp,
    pub data: Map<Seq<char>, Seq<char>>,
}

impl View for FileStorage {
    type V = StorageModel;

    closed spec fn view(&self) -> StorageModel {
        StorageModel {
            label: self.label@,
            path: self.path@,
            timestamp: self.timestamp,
            data: self.data.deep_view(),
        }
    }
}

/// `"version "` as characters.
pub open spec fn version_prefix() -> Seq<char> {
    seq!['v', 'e', 'r', 's', 'i', 'o', 'n', ' ']
}

/// The header line written for the current format version.
pub open spec fn header_line() -> Seq<char> {
    version_prefix() + int_decimal(STORAGE_VERSION as int)
}

/// What is wrong with a header line, as the storage error's message; `None`
/// when the header names the current version.
pub open spec fn header_problem(header: Seq<char>) -> Option<Seq<char>> {
    if !(header.len() >= 8 && header.take(8) == version_prefix()) {
        Some("Unknown storage version prefix"@)
    } else {
        match parse_i32_spec(header.skip(8)) {
            None => Some("Failed to parse storage version"@),
            Some(v) => if v != STORAGE_VERSION {
                Some(
                    "Storage version mismatch: expected "@ + int_decimal(STORAGE_VERSION as int)
                        + ", found "@ + int_decimal(v as int),
                )
            } else {
                None
            },
        }
    }
}

/// The JSON part of a storage file: every line after the header, joined
/// without line breaks (empty lines contribute nothing).
pub open spec fn body_text(lines: Seq<Seq<char>>) -> Seq<char> {
    concat_lines(lines.skip(1))
}

/// What reading the storage file text `contents` gives, for a storage
/// labelled `label`.
pub open spec fn read_result(label: Seq<char>, contents: Seq<char>) -> Result<
    Map<Seq<char>, Seq<char>>,
    ErrorModel,
> {
    let lines = split_lines(contents);
    if lines.len() == 0 {
        Err(ErrorModel::Storage(label, "Storage file is missing header"@))
    } else {
        match header_problem(lines[0]) {
            Some(msg) => Err(ErrorModel::Storage(label, msg)),
            None => match json_entries(body_text(lines)) {
                Some(m) => Ok(m),
                None => Err(ErrorModel::Parse),
            },
        }
    }
}

/// The full text of a storage file holding `entries`.
pub open spec fn file_text(entries: Map<Seq<char>, Seq<char>>) -> Seq<char> {
    header_line() + seq!['\n'] + json_text(entries)
}

/// Whether a file modified at `file_time` was written after the time this
/// storage knows of, seconds compared.
pub open spec fn changed_since(s: StorageModel, file_time: Timestamp) -> bool {
    file_time.secs > s.timestamp.secs
}

impl FileStorage {
    /// Checks the header line of a storage file against the current version.
    pub fn verify_version(&self, header: &str) -> (res: Result<(), ArklibError>)
        ensures
            match header_problem(header@) {
                None => res is Ok,
                Some(msg) => res matches Err(e) && e@ == ErrorModel::Storage(self@.label, msg),
            },
            res is Ok <==> (header@.len() >= 8 && header@.take(8) == version_prefix()
                && parse_i32_spec(header@.skip(8)) == Some(STORAGE_VERSION)),
    {
        let h = chars_of(header);
        let prefix = chars_of(STORAGE_VERSION_PREFIX);
        proof {
            reveal_strlit("version ");
            assert(prefix@ =~= version_prefix());
        }
        let mut matches = h.len() >= 8;
        let mut i: usize = 0;
        while matches && i < 8
            invariant
                i <= 8,
                prefix@ == version_prefix(),
                matches ==> h@.len() >= 8,
                matches ==> forall|j: int| 0 <= j < i ==> h@[j] == version_prefix()[j],
                !matches ==> !(h@.len() >= 8 && h@.take(8) == version_prefix()),
            decreases 8 - i,
        {
            if h[i] != prefix[i] {
                matches = false;
                assert(h@.take(8)[i as int] != version_prefix()[i as int]);
            }
            i = i + 1;
        }
        if !matches {
            return Err(
                ArklibError::Storage(
                    self.label.clone(),
                    String::from_str("Unknown storage version prefix"),
                ),
            );
        }
        assert(h@.take(8) =~= version_prefix());
        match parse_i32(&h, 8) {
            None => Err(
                ArklibError::Storage(
                    self.label.clone(),
                    String::from_str("Failed to parse storage version"),
                ),
            ),
            Some(version) => {
                if version != STORAGE_VERSION {
                    let mut msg = String::from_str("Storage version mismatch: expected ");
                    let expected = i32_to_decimal(STORAGE_VERSION);
                    msg.append(expected.as_str());
                    msg.append(", found ");
                    let found = i32_to_decimal(version);
                    msg.append(found.as_str());
                    Err(ArklibError::Storage(self.label.clone(), msg))
                } else {
                    Ok(())
                }
            },
        }
    }
}


impl FileStorage {
    /// Creates a storage with a diagnostic label and a file path, holding
    /// what the storage file holds when `file` (what was read from it) reads
    /// back, and nothing otherwise. `now` is the current time.
    pub fn new(label: String, path: String, now: Timestamp, file: Option<FileSnapshot>) -> (s: Self)
        ensures
            s@.label == label@,
            s@.path == path@,
            match file {
                Some(f) => match read_result(label@, f.contents@) {
                    Ok(m) => s@.data == m && s@.timestamp == f.modified,
                    Err(_) => s@.data == Map::<Seq<char>, Seq<char>>::empty() && s@.timestamp == now,
                },
                None => s@.data == Map::<Seq<char>, Seq<char>>::empty() && s@.timestamp == now,
            },
    {
        let mut file_storage = FileStorage { label, path, timestamp: now, data: empty_entries() };
        match file {
            Some(f) => {
                file_storage.data = match file_storage.read_fs(&f) {
                    Ok(data) => data,
                    Err(_) => empty_entries(),
                };
            },
            None => {},
        }
        file_storage
    }

    /// Reads the entries from the storage file text that `file` holds; on
    /// success the storage's time becomes the file's modification time.
    /// The storage's entries are not changed.
    pub fn read_fs(&mut self, file: &FileSnapshot) -> (res: Result<BTreeMap<String, String>, ArklibError>)
        ensures
            final(self)@.label == old(self)@.label,
            final(self)@.path == old(self)@.path,
            final(self)@.data == old(self)@.data,
            match read_result(old(self)@.label, file.contents@) {
                Ok(m) => res matches Ok(d) && d.deep_view() == m
                    && final(self)@.timestamp == file.modified,
                Err(e) => res matches Err(x) && x@ == e
                    && final(self)@.timestamp == old(self)@.timestamp,
            },
    {
        let contents = chars_of(file.contents.as_str());
        let lines = lines_of(&contents);
        if lines.len() == 0 {
            return Err(
                ArklibError::Storage(
                    self.label.clone(),
                    String::from_str("Storage file is missing header"),
                ),
            );
        }
        assert(views_of(lines@)[0] == lines@[0]@);
        let header = string_of(&lines[0]);
        match self.verify_version(header.as_str()) {
            Ok(()) => {},
            Err(e) => return Err(e),
        }
        let body = join_lines_from(&lines, 1);
        let text = string_of(&body);
        match decode_entries(text.as_str()) {
            Ok(data) => {
                self.timestamp = file.modified;
                Ok(data)
            },
            Err(_) => Err(ArklibError::Parse),
        }
    }

    /// Binds `id` to `value`; `now` becomes the storage's time. The caller
    /// then writes the storage (see `write_request`).
    pub fn set(&mut self, id: String, value: String, now: Timestamp)
        ensures
            final(self)@.label == old(self)@.label,
            final(self)@.path == old(self)@.path,
            final(self)@.data == old(self)@.data.insert(id@, value@),
            final(self)@.timestamp == now,
    {
        insert_entry(&mut self.data, id, value);
        self.timestamp = now;
    }

    /// Removes `id`; `now` becomes the storage's time. Fails, changing
    /// nothing, when `id` is not stored. The caller then writes the storage.
    pub fn remove(&mut self, id: &str, now: Timestamp) -> (res: Result<(), ArklibError>)
        ensures
            final(self)@.label == old(self)@.label,
            final(self)@.path == old(self)@.path,
            old(self)@.data.contains_key(id@) ==> {
                &&& res is Ok
                &&& final(self)@.data == old(self)@.data.remove(id@)
                &&& final(self)@.timestamp == now
            },
            !old(self)@.data.contains_key(id@) ==> {
                &&& res matches Err(e) && e@ == ErrorModel::Storage(old(self)@.label, "Key not found"@)
                &&& final(self)@ == old(self)@
            },
    {
        match remove_entry(&mut self.data, id) {
            Some(_) => {
                self.timestamp = now;
                Ok(())
            },
            None => {
                proof {
                    assert(self.data.deep_view() =~= old(self).data.deep_view());
                }
                Err(ArklibError::Storage(self.label.clone(), String::from_str("Key not found")))
            },
        }
    }

    /// Whether the storage file, last modified at `file_modified`, was
    /// written after the time this storage knows of (whole seconds compared).
    pub fn is_storage_updated(&self, file_modified: Timestamp) -> (res: bool)
        ensures
            res == changed_since(self@, file_modified),
            res <==> file_modified.secs > self@.timestamp.secs,
    {
        file_modified.secs > self.timestamp.secs
    }

    /// What to write for this storage: its file's parent directory, and the
    /// header line followed by the entries as JSON. Fails when the path has
    /// no parent directory. The text written reads back as the entries.
    pub fn write_request(&self) -> (res: Result<WriteRequest, ArklibError>)
        ensures
            match path_parent(self@.path) {
                None => res matches Err(e) && e@ == ErrorModel::Storage(
                    self@.label,
                    "Failed to get parent directory"@,
                ),
                Some(dir) => res matches Ok(req) && req.dir@ == dir
                    && req.contents@ == file_text(self@.data)
                    && read_result(self@.label, req.contents@) == Ok::<
                    Map<Seq<char>, Seq<char>>,
                    ErrorModel,
                >(self@.data),
            },
    {
        let dir = match parent_dir(self.path.as_str()) {
            Some(d) => d,
            None => {
                return Err(
                    ArklibError::Storage(
                        self.label.clone(),
                        String::from_str("Failed to get parent directory"),
                    ),
                );
            },
        };
        let json = match encode_entries(&self.data) {
            Ok(j) => j,
            Err(_) => {
                return Err(ArklibError::Parse);
            },
        };
        let mut contents = String::from_str(STORAGE_VERSION_PREFIX);
        let version = i32_to_decimal(STORAGE_VERSION);
        contents.append(version.as_str());
        contents.append("\n");
        contents.append(json.as_str());
        proof {
            reveal_strlit("version ");
            reveal_strlit("\n");
            assert(contents@ =~= file_text(self@.data));
            written_text_reads_back(self@.label, self@.data, json@);
        }
        Ok(WriteRequest { dir, contents })
    }

    /// Completes a write: `written` is the modification time of the file just
    /// written, which becomes the storage's time. Fails, changing nothing,
    /// when that time equals the storage's time.
    pub fn finish_write(&mut self, written: Timestamp) -> (res: Result<(), ArklibError>)
        ensures
            final(self)@.label == old(self)@.label,
            final(self)@.path == old(self)@.path,
            final(self)@.data == old(self)@.data,
            written == old(self)@.timestamp ==> {
                &&& res matches Err(e) && e@ == ErrorModel::Other("Timestamp didn't update"@)
                &&& final(self)@.timestamp == old(self)@.timestamp
            },
            written != old(self)@.timestamp ==> res is Ok && final(self)@.timestamp == written,
    {
        if written == self.timestamp {
            return Err(ArklibError::Other(String::from_str("Timestamp didn't update")));
        }
        self.timestamp = written;
        Ok(())
    }

    /// The entries.
    pub fn as_ref(&self) -> (res: &BTreeMap<String, String>)
        ensures
            res.deep_view() == self@.data,
    {
        &self.data
    }

    /// The diagnostic label.
    pub fn label(&self) -> (res: &String)
        ensures
            res@ == self@.label,
    {
        &self.label
    }

    /// The storage file's path.
    pub fn path(&self) -> (res: &String)
        ensures
            res@ == self@.path,
    {
        &self.path
    }

    /// The time of the last write or read that this storage knows of.
    pub fn timestamp(&self) -> (res: Timestamp)
        ensures
            res == self@.timestamp,
    {
        self.timestamp
    }
}

/// What a storage writes reads back as what it held: for any JSON text of
/// the entries that holds no line break and that decodes to the entries,
/// the header line, a line break and that text read back as the entries.
pub proof fn written_text_reads_back(
    label: Seq<char>,
    entries: Map<Seq<char>, Seq<char>>,
    json: Seq<char>,
)
    requires
        !json.contains('\n'),
        json_entries(json) == Some(entries),
    ensures
        read_result(label, header_line() + seq!['\n'] + json) == Ok::<
            Map<Seq<char>, Seq<char>>,
            ErrorModel,
        >(entries),
{
    let hl = header_line();
    assert(int_decimal(STORAGE_VERSION as int) == seq!['2']) by {
        assert(digit_char(2) == '2');
    }
    assert(hl =~= seq!['v', 'e', 'r', 's', 'i', 'o', 'n', ' ', '2']);
    assert(!hl.contains('\n'));
    let empty = Seq::<char>::empty();
    lemma_line_scan_no_newline(empty, hl);
    assert(empty + hl =~= hl);
    assert(line_scan(empty) == (Seq::<Seq<char>>::empty(), empty));
    let with_nl = hl + seq!['\n'];
    assert(with_nl.drop_last() =~= hl);
    assert(strip_cr(hl) == hl);
    assert(line_scan(with_nl) == (seq![hl], empty));
    lemma_line_scan_no_newline(with_nl, json);
    assert(with_nl + json =~= hl + seq!['\n'] + json);
    assert(empty + json =~= json);
    let lines = split_lines(hl + seq!['\n'] + json);
    assert(lines[0] == hl);
    assert(hl.take(8) =~= version_prefix());
    assert(hl.skip(8) =~= seq!['2']);
    assert(seq!['2'].drop_last() =~= Seq::<char>::empty());
    assert(digits_value(seq!['2']) == 2) by {
        reveal_with_fuel(digits_value, 2);
        assert(seq!['2'].last() == '2');
    }
    assert(parse_i32_spec(seq!['2']) == Some(2i32));
    assert(header_problem(hl) is None);
    if json.len() == 0 {
        assert(lines.skip(1) =~= Seq::<Seq<char>>::empty());
        assert(json =~= empty);
    } else {
        assert(lines.skip(1) =~= seq![json]);
        assert(seq![json].drop_last() =~= Seq::<Seq<char>>::empty());
        assert(empty + json =~= json);
        assert(concat_lines(seq![json]) == json) by {
            reveal_with_fuel(concat_lines, 2);
        }
    }
    assert(body_text(lines) == json);
}

/// Right after a storage's own write, whose file time became the storage's
/// time, the file does not count as updated by someone else.
pub proof fn own_write_is_no_update(s: StorageModel, written: Timestamp)
    requires
        s.timestamp == written,
    ensures
        !changed_since(s, written),
{
}

/// A file written in a later second than the storage's time counts as
/// updated.
pub proof fn later_write_is_an_update(s: StorageModel, written: Timestamp)
    requires
        written.secs > s.timestamp.secs,
    ensures
        changed_since(s, written),
{
}

/// Setting an entry and then removing its key: the removal finds the key,
/// and the entries end as if the key had only been removed.
pub proof fn remove_undoes_set(
    entries: Map<Seq<char>, Seq<char>>,
    key: Seq<char>,
    value: Seq<char>,
)
    ensures
        entries.insert(key, value).contains_key(key),
        entries.insert(key, value).remove(key) == entries.remove(key),
{
    assert(entries.insert(key, value).remove(key) =~= entries.remove(key));
}

/// Setting an entry and then reading its key gives the value set.
pub proof fn get_after_set(entries: Map<Seq<char>, Seq<char>>, key: Seq<char>, value: Seq<char>)
    ensures
        entries.insert(key, value)[key] == value,
{
}

/// The header line written is accepted by the version check.
pub proof fn written_header_is_accepted()
    ensures
        header_problem(header_line()) is None,
{
    decimal_reads_back(STORAGE_VERSION);
    assert(header_line().take(8) =~= version_prefix());
    assert(header_line().skip(8) =~= int_decimal(STORAGE_VERSION as int));
}

/// A file time in the same second as the storage's time, or earlier, never
/// counts as an update; only a later second does.
pub proof fn update_needs_a_later_second(s: StorageModel, file_time: Timestamp)
    ensures
        file_time.secs <= s.timestamp.secs ==> !changed_since(s, file_time),
        file_time.secs > s.timestamp.secs ==> changed_since(s, file_time),
{
}

/// The message of a version mismatch naming version `v`.
pub open spec fn mismatch_message(v: i32) -> Seq<char> {
    "Storage version mismatch: expected "@ + int_decimal(STORAGE_VERSION as int) + ", found "@
        + int_decimal(v as int)
}

/// Every version other than the current one is rejected: the header line
/// `version <v>` is refused with a version mismatch naming `v`, and reading
/// any file that starts with that line fails with that error.
pub proof fn other_versions_are_rejected(label: Seq<char>, v: i32, rest: Seq<char>)
    requires
        v != STORAGE_VERSION,
    ensures
        header_problem(version_prefix() + int_decimal(v as int)) == Some(mismatch_message(v)),
        read_result(label, version_prefix() + int_decimal(v as int) + seq!['\n'] + rest) == Err::<
            Map<Seq<char>, Seq<char>>,
            ErrorModel,
        >(ErrorModel::Storage(label, mismatch_message(v))),
{
    let h = version_prefix() + int_decimal(v as int);
    lemma_int_decimal_shape(v as int);
    decimal_reads_back(v);
    assert(h.take(8) =~= version_prefix());
    assert(h.skip(8) =~= int_decimal(v as int));
    assert(header_problem(h) == Some(mismatch_message(v)));
    assert(!h.contains('\n')) by {
        if h.contains('\n') {
            let i = choose|i: int| 0 <= i < h.len() && h[i] == '\n';
            if i >= 8 {
                assert(int_decimal(v as int)[i - 8] == '\n');
            }
        }
    }
    assert(h.last() != '\r') by {
        assert(h.last() == int_decimal(v as int).last());
    }
    let empty = Seq::<char>::empty();
    lemma_line_scan_no_newline(empty, h);
    assert(empty + h =~= h);
    assert(line_scan(empty) == (Seq::<Seq<char>>::empty(), empty));
    let with_nl = h + seq!['\n'];
    assert(with_nl.drop_last() =~= h);
    assert(strip_cr(h) == h);
    assert(line_scan(with_nl) == (seq![h], empty));
    lemma_line_scan_extends(with_nl, rest);
    let whole = h + seq!['\n'] + rest;
    assert(with_nl + rest =~= whole);
    let lines = split_lines(whole);
    assert(line_scan(whole).0[0] == h);
    assert(lines.len() > 0 && lines[0] == h);
}

} // verus!
