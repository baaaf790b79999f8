//! Palm OS "Tasks" records and their `todo.txt` rendering.
//!
//! A task record's data is a packed due date (2 bytes), a priority byte
//! whose top bit marks completion, a null-terminated task text and an
//! optional null-terminated note. This module parses task records out of
//! a decoded category-bearing database and renders tasks as `todo.txt`
//! lines; reading and writing the actual files is the caller's business.

use vstd::prelude::*;

use crate::DatabaseError;
use crate::bytes::{be_u16, read_be_u16, spec_trim_len, try_str_from_bytes};
use crate::format::{PalmDatabase, PdbWithCategoriesDatabase, spec_len_or_zero};
use crate::info::category::AppInfoCategories;
use crate::record::pdb_record::PdbRecordHeader;
use crate::text::{join_lines, push_chars_of, spec_join, spec_string_views, string_from_chars};

verus! {

/// A single to-do task.
#[derive(Debug, Clone, PartialEq)]
pub struct ToDoTask {
    /// Task body.
    pub task_text: String,
    /// Extended task note text.
    pub note_text: Option<String>,
    /// Category name; the "Unfiled" category when `None`.
    pub category: Option<String>,
    /// Task priority, between 1 and 5.
    pub priority: u8,
    /// Has the task been completed?
    pub completed: bool,
    /// Task due date, if defined, as a `(year, month, day)` tuple.
    pub due_date: Option<(u16, u8, u8)>,
}

/// The decimal digit character for a value below ten.
pub open spec fn spec_digit(d: int) -> char {
    ((48 + d) as u8) as char
}

/// A two-digit zero-padded decimal rendering.
pub open spec fn spec_dec2(x: int) -> Seq<char> {
    seq![spec_digit(x / 10 % 10), spec_digit(x % 10)]
}

/// A four-digit zero-padded decimal rendering.
pub open spec fn spec_dec4(x: int) -> Seq<char> {
    seq![
        spec_digit(x / 1000 % 10),
        spec_digit(x / 100 % 10),
        spec_digit(x / 10 % 10),
        spec_digit(x % 10),
    ]
}

/// `s` with every occurrence of one character replaced by another.
pub open spec fn spec_map_char(s: Seq<char>, from: char, to: char) -> Seq<char> {
    s.map_values(
        |c: char|
            if c == from {
                to
            } else {
                c
            },
    )
}

/// One character of a note rendered inside quotes: quotes, backslashes
/// and the common control characters are escaped, everything else is
/// kept.
pub open spec fn spec_escaped_char(c: char) -> Seq<char> {
    if c == '"' {
        seq!['\\', '"']
    } else if c == '\\' {
        seq!['\\', '\\']
    } else if c == '\n' {
        seq!['\\', 'n']
    } else if c == '\r' {
        seq!['\\', 'r']
    } else if c == '\t' {
        seq!['\\', 't']
    } else {
        seq![c]
    }
}

/// A note's text with its characters escaped for quoting.
pub open spec fn spec_escaped(s: Seq<char>) -> Seq<char>
    decreases s.len(),
{
    if s.len() == 0 {
        Seq::empty()
    } else {
        spec_escaped_char(s[0]) + spec_escaped(s.drop_first())
    }
}

/// Escaping one more character appends its escape.
pub proof fn lemma_escaped_push(s: Seq<char>, c: char)
    ensures
        spec_escaped(s.push(c)) =~= spec_escaped(s) + spec_escaped_char(c),
    decreases s.len(),
{
    if s.len() == 0 {
        assert(s.push(c).drop_first() =~= s);
    } else {
        assert(s.push(c).drop_first() =~= s.drop_first().push(c));
        lemma_escaped_push(s.drop_first(), c);
    }
}

impl ToDoTask {
    /// The rendering limits of the fixed-width `todo.txt` fields: the
    /// priority letter stays a byte, and a due date fits its zero-padded
    /// digits.
    pub open spec fn spec_renderable(self) -> bool {
        &&& self.priority + 64 < 256
        &&& match self.due_date {
            Some((y, m, d)) => y <= 9999,
            None => true,
        }
    }

    /// The task's `todo.txt` line: a completion mark, the priority as a
    /// letter, the due date, the task text with newlines flattened, the
    /// category as a tag with spaces underscored, and the note quoted
    /// with escapes.
    pub open spec fn spec_entry(self) -> Seq<char> {
        (if self.completed {
            "x "@
        } else {
            Seq::empty()
        }) + seq!['(', ((self.priority + 64) as u8) as char, ')', ' '] + (match self.due_date {
            Some((y, m, d)) => spec_dec4(y as int) + seq!['-'] + spec_dec2(m as int) + seq!['-']
                + spec_dec2(d as int) + seq![' '],
            None => Seq::empty(),
        }) + spec_map_char(self.task_text@, '\n', ' ') + (match self.category {
            Some(c) => " @"@ + spec_map_char(c@, ' ', '_'),
            None => Seq::empty(),
        }) + (match self.note_text {
            Some(t) => " note=\""@ + spec_escaped(t@) + seq!['"'],
            None => Seq::empty(),
        })
    }

    /// Produce the `todo.txt` line for the task.
    #[verifier::rlimit(100)]
    #[verifier::spinoff_prover]
    pub fn as_todotxt_entry(&self) -> (r: String)
        requires
            self.spec_renderable(),
        ensures
            r@ == self.spec_entry(),
    {
        let mut s: Vec<char> = Vec::new();
        if self.completed {
            push_chars_of(&mut s, "x ");
        }
        proof {
            assert(s@ =~= if self.completed {
                "x "@
            } else {
                Seq::<char>::empty()
            });
        }
        let ghost part1 = s@;
        s.push('(');
        s.push(((self.priority + 64) as u8) as char);
        s.push(')');
        s.push(' ');
        proof {
            assert(s@ =~= part1 + seq![
                '(',
                ((self.priority + 64) as u8) as char,
                ')',
                ' ',
            ]);
        }
        let ghost part2 = s@;
        match self.due_date {
            Some(date) => {
                let (year, month, day) = date;
                push_due_date(&mut s, year, month, day);
            },
            None => (),
        }
        let ghost part3 = s@;
        push_mapped_chars(&mut s, self.task_text.as_str(), '\n', ' ');
        let ghost part4 = s@;
        match &self.category {
            Some(category) => {
                push_chars_of(&mut s, " @");
                push_mapped_chars(&mut s, category.as_str(), ' ', '_');
                proof {
                    assert(s@ =~= part4 + (" @"@ + spec_map_char(
                        self.category.unwrap()@,
                        ' ',
                        '_',
                    )));
                }
            },
            None => (),
        }
        let ghost part5 = s@;
        match &self.note_text {
            Some(note_text) => {
                push_chars_of(&mut s, " note=\"");
                push_escaped_chars(&mut s, note_text.as_str());
                s.push('"');
                proof {
                    assert(s@ =~= part5 + (" note=\""@ + spec_escaped(self.note_text.unwrap()@)
                        + seq!['"']));
                }
            },
            None => (),
        }
        proof {
            assert(s@ =~= self.spec_entry());
        }
        string_from_chars(&s)
    }
}

/// Append a zero-padded `YYYY-MM-DD ` date rendering.
fn push_due_date(out: &mut Vec<char>, year: u16, month: u8, day: u8)
    requires
        year <= 9999,
    ensures
        final(out)@ =~= old(out)@ + spec_dec4(year as int) + seq!['-'] + spec_dec2(month as int)
            + seq!['-'] + spec_dec2(day as int) + seq![' '],
{
    push_digit(out, (year / 1000 % 10) as u8);
    push_digit(out, (year / 100 % 10) as u8);
    push_digit(out, (year / 10 % 10) as u8);
    push_digit(out, (year % 10) as u8);
    out.push('-');
    push_digit(out, (month / 10 % 10) as u8);
    push_digit(out, (month % 10) as u8);
    out.push('-');
    push_digit(out, (day / 10 % 10) as u8);
    push_digit(out, (day % 10) as u8);
    out.push(' ');
}

/// Append a string's characters with one character substituted
/// throughout.
fn push_mapped_chars(out: &mut Vec<char>, s: &str, from: char, to: char)
    ensures
        final(out)@ =~= old(out)@ + spec_map_char(s@, from, to),
{
    let chars = crate::text::str_chars(s);
    let n = chars.len();
    let mut i: usize = 0;
    while i < n
        invariant
            i <= n,
            n == chars@.len(),
            chars@ == s@,
            out@ =~= old(out)@ + spec_map_char(s@, from, to).subrange(0, i as int),
        decreases n - i,
    {
        let c = chars[i];
        if c == from {
            out.push(to);
        } else {
            out.push(c);
        }
        i = i + 1;
        proof {
            let m = spec_map_char(s@, from, to);
            assert(m.subrange(0, i as int) =~= m.subrange(0, i - 1).push(m[i - 1]));
        }
    }
    proof {
        let m = spec_map_char(s@, from, to);
        assert(m.subrange(0, m.len() as int) =~= m);
    }
}

/// Append a string's characters with quoting escapes applied.
fn push_escaped_chars(out: &mut Vec<char>, s: &str)
    ensures
        final(out)@ =~= old(out)@ + spec_escaped(s@),
{
    let chars = crate::text::str_chars(s);
    let n = chars.len();
    let mut i: usize = 0;
    proof {
        assert(spec_escaped(s@.subrange(0, 0)) =~= Seq::<char>::empty());
    }
    while i < n
        invariant
            i <= n,
            n == chars@.len(),
            chars@ == s@,
            out@ =~= old(out)@ + spec_escaped(s@.subrange(0, i as int)),
        decreases n - i,
    {
        let c = chars[i];
        if c == '"' {
            out.push('\\');
            out.push('"');
        } else if c == '\\' {
            out.push('\\');
            out.push('\\');
        } else if c == '\n' {
            out.push('\\');
            out.push('n');
        } else if c == '\r' {
            out.push('\\');
            out.push('r');
        } else if c == '\t' {
            out.push('\\');
            out.push('t');
        } else {
            out.push(c);
        }
        i = i + 1;
        proof {
            assert(s@.subrange(0, i as int) =~= s@.subrange(0, i - 1).push(s@[i - 1]));
            lemma_escaped_push(s@.subrange(0, i - 1), s@[i - 1]);
        }
    }
    proof {
        assert(s@.subrange(0, n as int) =~= s@);
    }
}

/// Append the decimal digit character for a value below ten.
fn push_digit(s: &mut Vec<char>, d: u8)
    requires
        d < 10,
    ensures
        final(s)@ =~= old(s)@.push(spec_digit(d as int)),
{
    s.push(((48 + d) as u8) as char);
}

/// Why a task record's bytes could not be read as a task.
#[derive(Debug, Copy, Clone, PartialEq, Eq, Structural)]
pub enum TaskParseError {
    /// The record ends before a fixed field or a null terminator.
    Truncated,
    /// The task or note text is not valid text.
    BadText,
}

/// Why a device database could not be read as a task list.
#[derive(Debug, Copy, Clone, PartialEq, Eq, Structural)]
pub enum TodoParseError {
    /// The database buffer itself did not decode.
    Database(DatabaseError),
    /// A task record did not parse.
    Record(TaskParseError),
}

/// The due date packed into a task record's first two bytes: year since
/// 1904 in the top 7 bits, month in 4, day in 5; all-ones means no date.
pub open spec fn spec_due_date(raw: u16) -> Option<(u16, u8, u8)> {
    if raw == 0xFFFF {
        None
    } else {
        Some(
            (
                (((raw >> 9) & 0x7F) + 1904) as u16,
                ((raw >> 5) & 0xF) as u8,
                (raw & 0x1F) as u8,
            ),
        )
    }
}

/// The length of the task text in a task record: the bytes from offset 3
/// to the first null.
pub open spec fn spec_task_text_len(b: Seq<u8>) -> nat {
    spec_trim_len(b.skip(3))
}

/// Where a task record's note text begins: right after the task text's
/// null terminator.
pub open spec fn spec_note_start(b: Seq<u8>) -> int {
    4 + spec_task_text_len(b) as int
}

/// Whether parsing a task record's bytes fails, and how.
pub open spec fn spec_task_parse_err(b: Seq<u8>) -> Option<TaskParseError> {
    let ttl = spec_task_text_len(b) as int;
    let tt = b.subrange(3, 3 + ttl);
    let ns = spec_note_start(b);
    let ntl = spec_trim_len(b.skip(ns)) as int;
    let nt = b.subrange(ns, ns + ntl);
    if b.len() < 3 {
        Some(TaskParseError::Truncated)
    } else if 3 + ttl == b.len() {
        Some(TaskParseError::Truncated)
    } else if !vstd::utf8::valid_utf8(tt) {
        Some(TaskParseError::BadText)
    } else if ns < b.len() && ns + ntl == b.len() {
        Some(TaskParseError::Truncated)
    } else if ns < b.len() && ntl > 0 && !vstd::utf8::valid_utf8(nt) {
        Some(TaskParseError::BadText)
    } else {
        None
    }
}

/// What a successfully parsed task holds, given the record's bytes and
/// the category name attached to it.
pub open spec fn spec_task_matches(task: ToDoTask, b: Seq<u8>, cat: Option<Seq<char>>) -> bool {
    let ttl = spec_task_text_len(b) as int;
    let tt = b.subrange(3, 3 + ttl);
    let ns = spec_note_start(b);
    let ntl = spec_trim_len(b.skip(ns)) as int;
    let nt = b.subrange(ns, ns + ntl);
    &&& task.task_text@ == vstd::utf8::decode_utf8(tt)
    &&& task.due_date == spec_due_date(be_u16(b.subrange(0, 2)))
    &&& task.completed == (b[2] & 0x80 != 0)
    &&& task.priority == b[2] & 0x7F
    &&& match cat {
        Some(c) => task.category matches Some(s) && s@ == c,
        None => task.category is None,
    }
    &&& (ns >= b.len() || ntl == 0 ==> task.note_text is None)
    &&& (ns < b.len() && ntl > 0 ==> (task.note_text matches Some(t) && t@
        == vstd::utf8::decode_utf8(nt)))
    &&& task.spec_renderable()
}

/// Parse one task record's bytes. The record is a 2-byte packed due date,
/// a priority byte whose top bit marks completion, the null-terminated
/// task text, and an optional null-terminated note; an empty note means
/// no note. The given category name is attached to the parsed task.
pub fn parse_task_record(rec_data: &[u8], category: Option<String>) -> (r: Result<
    ToDoTask,
    TaskParseError,
>)
    ensures
        ({
            match spec_task_parse_err(rec_data@) {
                Some(e) => r == Err::<ToDoTask, TaskParseError>(e),
                None => r matches Ok(task) && spec_task_matches(
                    task,
                    rec_data@,
                    match category {
                        Some(c) => Some(c@),
                        None => None,
                    },
                ),
            }
        }),
{
    if rec_data.len() < 3 {
        return Err(TaskParseError::Truncated);
    }
    let raw_date = read_be_u16(rec_data, 0);
    let due_date: Option<(u16, u8, u8)> = if raw_date == 0xFFFF {
        None
    } else {
        proof {
            assert((raw_date >> 9) & 0x7F < 128) by (bit_vector);
            assert((raw_date >> 5) & 0xF < 16) by (bit_vector);
            assert(raw_date & 0x1F < 32) by (bit_vector);
        }
        Some((((raw_date >> 9) & 0x7F) + 1904, ((raw_date >> 5) & 0xF) as u8, (
        raw_date & 0x1F) as u8))
    };
    let pbyte = rec_data[2];
    let completed = pbyte & 0x80 != 0;
    let priority = pbyte & 0x7F;
    proof {
        assert(pbyte & 0x7F < 128) by (bit_vector);
    }
    let text_region = vstd::slice::slice_subrange(rec_data, 3, rec_data.len());
    let trimmed_text = crate::bytes::trimmed(text_region);
    proof {
        crate::bytes::lemma_trim_len_bound(text_region@);
        assert(text_region@ == rec_data@.skip(3));
    }
    if trimmed_text.len() == text_region.len() {
        // No null terminator before the end of the record.
        return Err(TaskParseError::Truncated);
    }
    proof {
        assert(crate::bytes::spec_trimmed(rec_data@.skip(3)) =~= rec_data@.subrange(
            3,
            3 + spec_task_text_len(rec_data@) as int,
        ));
    }
    let task_text = match try_str_from_bytes(trimmed_text) {
        Ok(s) => s.to_owned(),
        Err(_) => {
            return Err(TaskParseError::BadText);
        },
    };
    let note_start = 3 + trimmed_text.len() + 1;
    let note_text: Option<String>;
    if note_start < rec_data.len() {
        let note_region = vstd::slice::slice_subrange(rec_data, note_start, rec_data.len());
        let trimmed_note = crate::bytes::trimmed(note_region);
        proof {
            crate::bytes::lemma_trim_len_bound(note_region@);
            assert(note_region@ == rec_data@.skip(spec_note_start(rec_data@)));
        }
        if trimmed_note.len() == note_region.len() {
            return Err(TaskParseError::Truncated);
        }
        proof {
            assert(crate::bytes::spec_trimmed(rec_data@.skip(spec_note_start(rec_data@)))
                =~= rec_data@.subrange(
                spec_note_start(rec_data@),
                spec_note_start(rec_data@) + spec_trim_len(
                    rec_data@.skip(spec_note_start(rec_data@)),
                ),
            ));
        }
        if trimmed_note.len() == 0 {
            note_text = None;
        } else {
            note_text = match try_str_from_bytes(trimmed_note) {
                Ok(s) => Some(s.to_owned()),
                Err(_) => {
                    return Err(TaskParseError::BadText);
                },
            };
        }
    } else {
        note_text = None;
    }
    Ok(ToDoTask { task_text, note_text, category, priority, completed, due_date })
}

/// The name of the category with the given id, as text; `None` when no
/// category has the id or its name is not valid text.
pub open spec fn spec_category_name(cats: Seq<crate::info::category::ExtraInfoCategory>, id: u8) -> Option<
    Seq<char>,
>
    decreases cats.len(),
{
    if cats.len() == 0 {
        None
    } else if cats[0].category_id == id {
        if vstd::utf8::valid_utf8(crate::bytes::spec_trimmed(cats[0].name@)) {
            Some(vstd::utf8::decode_utf8(crate::bytes::spec_trimmed(cats[0].name@)))
        } else {
            None
        }
    } else {
        spec_category_name(cats.drop_first(), id)
    }
}

/// Look a category name up by id in a decoded app-info block.
#[verifier::loop_isolation(false)]
pub fn category_name_for(app_info: &AppInfoCategories, id: u8) -> (r: Option<String>)
    ensures
        match spec_category_name(app_info.categories@, id) {
            Some(name) => r matches Some(s) && s@ == name,
            None => r is None,
        },
{
    let n = app_info.categories.len();
    proof {
        assert(app_info.categories@.skip(0) =~= app_info.categories@);
    }
    let mut i: usize = 0;
    while i < n
        invariant
            i <= n,
            n == app_info.categories@.len(),
            spec_category_name(app_info.categories@, id) == spec_category_name(
                app_info.categories@.skip(i as int),
                id,
            ),
        decreases n - i,
    {
        proof {
            assert(app_info.categories@.skip(i as int)[0] == app_info.categories@[i as int]);
            assert(app_info.categories@.skip(i as int).drop_first() =~= app_info.categories@.skip(
                i + 1,
            ));
        }
        let cat = &app_info.categories[i];
        if cat.category_id == id {
            match cat.name_try_str() {
                Ok(s) => {
                    return Some(s.to_owned());
                },
                Err(_) => {
                    return None;
                },
            }
        }
        i = i + 1;
    }
    None
}

/// The category a record's attribute byte selects: its 4-bit category id
/// for a record, and the "Unfiled" id 0 for anything else.
pub open spec fn spec_rec_category(
    cats: Seq<crate::info::category::ExtraInfoCategory>,
    hdr: PdbRecordHeader,
) -> Option<Seq<char>> {
    match hdr.spec_attributes() {
        Some(a) => spec_category_name(cats, a.category),
        None => spec_category_name(cats, 0),
    }
}

/// How many leading records of a decoded database hold task data: the
/// records before the first one whose inferred data length is zero.
pub open spec fn spec_task_count(recs: Seq<(PdbRecordHeader, Vec<u8>)>, i: int) -> int
    decreases recs.len() - i,
{
    if i < 0 || i >= recs.len() {
        recs.len() as int
    } else if spec_len_or_zero(recs[i].0.spec_data_len()) == 0 {
        i
    } else {
        spec_task_count(recs, i + 1)
    }
}

/// The first failure among the leading task records, in order.
pub open spec fn spec_tasks_err(recs: Seq<(PdbRecordHeader, Vec<u8>)>, i: int) -> Option<
    TaskParseError,
>
    decreases recs.len() - i,
{
    if i < 0 || i >= recs.len() {
        None
    } else if spec_len_or_zero(recs[i].0.spec_data_len()) == 0 {
        None
    } else {
        match spec_task_parse_err(recs[i].1@) {
            Some(e) => Some(e),
            None => spec_tasks_err(recs, i + 1),
        }
    }
}

/// Skipping a failure-free prefix of the task records does not change
/// which failure is found.
pub proof fn lemma_tasks_err_skip(recs: Seq<(PdbRecordHeader, Vec<u8>)>, i: int)
    requires
        0 <= i,
        forall|j: int|
            0 <= j < i ==> spec_len_or_zero((#[trigger] recs[j]).0.spec_data_len()) != 0
                && spec_task_parse_err(recs[j].1@) is None,
    ensures
        spec_tasks_err(recs, 0) == spec_tasks_err(recs, i),
        i <= recs.len() ==> spec_task_count(recs, 0) == spec_task_count(recs, i),
    decreases i,
{
    if i > 0 && i <= recs.len() {
        lemma_tasks_err_skip(recs, i - 1);
    } else if i > recs.len() {
        lemma_tasks_err_skip(recs, i - 1);
    }
}

/// Parse the tasks out of a decoded `ToDoDB` database: every leading
/// record with data, in order, each parsed as a task record and labelled
/// with the category its attribute byte selects.
#[verifier::loop_isolation(false)]
#[verifier::rlimit(100)]
pub fn parse_tasks(database: &PalmDatabase<PdbWithCategoriesDatabase>) -> (r: Result<
    Vec<ToDoTask>,
    TaskParseError,
>)
    ensures
        ({
            let recs = database.records@;
            match spec_tasks_err(recs, 0) {
                Some(e) => r == Err::<Vec<ToDoTask>, TaskParseError>(e),
                None => r matches Ok(tasks) && tasks@.len() == spec_task_count(recs, 0)
                    && forall|i: int|
                    0 <= i < tasks@.len() ==> spec_task_matches(
                        #[trigger] tasks@[i],
                        recs[i].1@,
                        spec_rec_category(database.app_info.categories@, recs[i].0),
                    ),
            }
        }),
{
    let recs = database.list_records_resources();
    let n = recs.len();
    let mut tasks: Vec<ToDoTask> = Vec::new();
    let mut i: usize = 0;
    while i < n
        invariant
            i <= n,
            n == database.records@.len(),
            tasks@.len() == i,
            forall|j: int|
                0 <= j < i ==> spec_len_or_zero(
                    (#[trigger] database.records@[j]).0.spec_data_len(),
                ) != 0 && spec_task_parse_err(database.records@[j].1@) is None,
            forall|j: int|
                0 <= j < i ==> spec_task_matches(
                    #[trigger] tasks@[j],
                    database.records@[j].1@,
                    spec_rec_category(database.app_info.categories@, database.records@[j].0),
                ),
        decreases n - i,
    {
        let rec = &recs[i];
        let dlen = match rec.0.data_len() {
            Some(l) => l,
            None => 0,
        };
        if dlen == 0 {
            proof {
                lemma_tasks_err_skip(database.records@, i as int);
            }
            return Ok(tasks);
        }
        let category = match rec.0.attributes() {
            Some(a) => category_name_for(&database.app_info, a.category),
            None => category_name_for(&database.app_info, 0),
        };
        match parse_task_record(rec.1.as_slice(), category) {
            Ok(task) => {
                tasks.push(task);
            },
            Err(e) => {
                proof {
                    lemma_tasks_err_skip(database.records@, i as int);
                }
                return Err(e);
            },
        }
        i = i + 1;
    }
    proof {
        lemma_tasks_err_skip(database.records@, n as int);
    }
    Ok(tasks)
}

/// The task count never exceeds the record count.
pub proof fn lemma_task_count_bound(recs: Seq<(PdbRecordHeader, Vec<u8>)>, k: int)
    requires
        0 <= k <= recs.len(),
    ensures
        k <= spec_task_count(recs, k) <= recs.len(),
    decreases recs.len() - k,
{
    if k < recs.len() && spec_len_or_zero(recs[k].0.spec_data_len()) != 0 {
        lemma_task_count_bound(recs, k + 1);
    }
}

/// Task-relevant projections agree between two record lists: equal
/// stored data lengths and equal data bytes, entry by entry.
pub open spec fn spec_task_views_agree(
    r1: Seq<(PdbRecordHeader, Vec<u8>)>,
    r2: Seq<(PdbRecordHeader, Vec<u8>)>,
) -> bool {
    &&& r1.len() == r2.len()
    &&& forall|i: int|
        0 <= i < r1.len() ==> (#[trigger] r1[i]).0.spec_data_len() == r2[i].0.spec_data_len()
            && r1[i].1@ == r2[i].1@
}

/// Record lists whose task-relevant projections agree find the same task
/// count and the same first failure.
pub proof fn lemma_tasks_spec_congruent(
    r1: Seq<(PdbRecordHeader, Vec<u8>)>,
    r2: Seq<(PdbRecordHeader, Vec<u8>)>,
    k: int,
)
    requires
        spec_task_views_agree(r1, r2),
        0 <= k,
    ensures
        spec_task_count(r1, k) == spec_task_count(r2, k),
        spec_tasks_err(r1, k) == spec_tasks_err(r2, k),
    decreases r1.len() - k,
{
    if k < r1.len() {
        lemma_tasks_spec_congruent(r1, r2, k + 1);
    }
}

/// Category lists with equal ids and name bytes resolve every id to the
/// same name.
pub proof fn lemma_category_name_congruent(
    c1: Seq<crate::info::category::ExtraInfoCategory>,
    c2: Seq<crate::info::category::ExtraInfoCategory>,
    id: u8,
)
    requires
        c1.len() == c2.len(),
        forall|i: int|
            0 <= i < c1.len() ==> (#[trigger] c1[i]).category_id == c2[i].category_id
                && c1[i].name@ == c2[i].name@,
    ensures
        spec_category_name(c1, id) == spec_category_name(c2, id),
    decreases c1.len(),
{
    if c1.len() > 0 {
        assert(c1[0].category_id == c2[0].category_id && c1[0].name@ == c2[0].name@);
        assert forall|i: int| 0 <= i < c1.drop_first().len() implies (#[trigger] c1.drop_first()[i]).category_id
            == c2.drop_first()[i].category_id && c1.drop_first()[i].name@
            == c2.drop_first()[i].name@ by {
            assert(c1[i + 1].category_id == c2[i + 1].category_id && c1[i + 1].name@ == c2[i
                + 1].name@);
        }
        lemma_category_name_congruent(c1.drop_first(), c2.drop_first(), id);
    }
}

/// Parse a raw `ToDoDB` buffer into its tasks: decode the database under
/// the category-bearing policy, then parse every leading record that
/// holds data. The contract speaks of any model that decodes from the
/// buffer: decoding pins every projection the task parse reads, so they
/// all agree.
#[verifier::rlimit(100)]
#[verifier::spinoff_prover]
pub fn parse_device_database(db_content: &[u8]) -> (r: Result<Vec<ToDoTask>, TodoParseError>)
    requires
        db_content@.len() <= u32::MAX,
    ensures
        ({
            match crate::format::spec_db_decode_err(false, true, true, db_content@) {
                Some(e) => r == Err::<Vec<ToDoTask>, TodoParseError>(TodoParseError::Database(e)),
                None => forall|db: PalmDatabase<PdbWithCategoriesDatabase>|
                    #[trigger] db.decodes(db_content@) ==> match spec_tasks_err(db.records@, 0) {
                        Some(e) => r == Err::<Vec<ToDoTask>, TodoParseError>(
                            TodoParseError::Record(e),
                        ),
                        None => r matches Ok(tasks) && tasks@.len() == spec_task_count(
                            db.records@,
                            0,
                        ) && forall|i: int|
                            0 <= i < tasks@.len() ==> spec_task_matches(
                                #[trigger] tasks@[i],
                                db.records@[i].1@,
                                spec_rec_category(db.app_info.categories@, db.records@[i].0),
                            ),
                    },
            }
        }),
{
    let database = match PalmDatabase::<PdbWithCategoriesDatabase>::from_bytes(db_content) {
        Ok(db) => db,
        Err(e) => {
            return Err(TodoParseError::Database(e));
        },
    };
    let r = match parse_tasks(&database) {
        Ok(tasks) => Ok(tasks),
        Err(e) => Err(TodoParseError::Record(e)),
    };
    proof {
        let b = db_content@;
        assert forall|db: PalmDatabase<PdbWithCategoriesDatabase>| #[trigger] db.decodes(b)
            implies match spec_tasks_err(db.records@, 0) {
            Some(e) => r == Err::<Vec<ToDoTask>, TodoParseError>(TodoParseError::Record(e)),
            None => r matches Ok(tasks) && tasks@.len() == spec_task_count(db.records@, 0)
                && forall|i: int|
                0 <= i < tasks@.len() ==> spec_task_matches(
                    #[trigger] tasks@[i],
                    db.records@[i].1@,
                    spec_rec_category(db.app_info.categories@, db.records@[i].0),
                ),
        } by {
            let rs = false;
            let n = crate::format::spec_count(b);
            // Both models decode the same buffer, so the projections the
            // task parse reads agree entry by entry.
            assert forall|i: int| 0 <= i < n implies (#[trigger] db.records@[i]).0.spec_data_len()
                == database.records@[i].0.spec_data_len() && db.records@[i].1@
                == database.records@[i].1@ by {
                assert(db.records@[i].0.decodes_at(rs, b, crate::format::spec_entry_pos(rs, i)));
                assert(database.records@[i].0.decodes_at(
                    rs,
                    b,
                    crate::format::spec_entry_pos(rs, i),
                ));
            }
            assert(spec_task_views_agree(db.records@, database.records@));
            lemma_tasks_spec_congruent(db.records@, database.records@, 0);
            // The category tables agree too.
            assert(db.header.type_code@ == database.header.type_code@);
            let gate = crate::info::category::spec_is_data_type(db.header);
            if gate {
                let pe = crate::format::spec_pad_end(rs, true, b);
                assert(db.app_info.decodes(db.header, b, pe));
                assert(database.app_info.decodes(database.header, b, pe));
                assert(db.app_info.categories@.len() == database.app_info.categories@.len());
            } else {
                assert(db.app_info.spec_is_default());
                assert(database.app_info.spec_is_default());
            }
            assert forall|i: int| 0 <= i < n implies spec_rec_category(
                db.app_info.categories@,
                (#[trigger] db.records@[i]).0,
            ) == spec_rec_category(
                database.app_info.categories@,
                database.records@[i].0,
            ) by {
                assert(db.records@[i].0.decodes_at(rs, b, crate::format::spec_entry_pos(rs, i)));
                assert(database.records@[i].0.decodes_at(
                    rs,
                    b,
                    crate::format::spec_entry_pos(rs, i),
                ));
                assert(db.records@[i].0.spec_attributes()
                    == database.records@[i].0.spec_attributes());
                let c1 = db.app_info.categories@;
                let c2 = database.app_info.categories@;
                assert forall|j: int| 0 <= j < c1.len() implies (#[trigger] c1[j]).category_id
                    == c2[j].category_id && c1[j].name@ == c2[j].name@ by {}
                match db.records@[i].0.spec_attributes() {
                    Some(a) => {
                        lemma_category_name_congruent(c1, c2, a.category);
                    },
                    None => {
                        lemma_category_name_congruent(c1, c2, 0);
                    },
                }
            }
            assert(spec_tasks_err(db.records@, 0) == spec_tasks_err(database.records@, 0));
            assert(spec_task_count(db.records@, 0) == spec_task_count(database.records@, 0));
            if spec_tasks_err(database.records@, 0) is None {
                let tasks = r->Ok_0;
                assert(r is Ok);
                assert(tasks@.len() == spec_task_count(db.records@, 0));
                lemma_task_count_bound(db.records@, 0);
                assert forall|i: int| 0 <= i < tasks@.len() implies spec_task_matches(
                    #[trigger] tasks@[i],
                    db.records@[i].1@,
                    spec_rec_category(db.app_info.categories@, db.records@[i].0),
                ) by {
                    assert(spec_task_matches(
                        tasks@[i],
                        database.records@[i].1@,
                        spec_rec_category(
                            database.app_info.categories@,
                            database.records@[i].0,
                        ),
                    ));
                    assert(db.records@[i].1@ == database.records@[i].1@);
                    assert(spec_rec_category(db.app_info.categories@, db.records@[i].0)
                        == spec_rec_category(
                        database.app_info.categories@,
                        database.records@[i].0,
                    ));
                }
            }
        }
    }
    r
}

/// The `todo.txt` lines of the tasks with the given completion state, in
/// task order.
pub open spec fn spec_entries(tasks: Seq<ToDoTask>, completed: bool) -> Seq<Seq<char>>
    decreases tasks.len(),
{
    if tasks.len() == 0 {
        Seq::empty()
    } else {
        let rest = spec_entries(tasks.drop_first(), completed);
        if tasks[0].completed == completed {
            seq![tasks[0].spec_entry()] + rest
        } else {
            rest
        }
    }
}

/// Collecting one more task appends its line exactly when its completion
/// state matches.
pub proof fn lemma_entries_push(tasks: Seq<ToDoTask>, t: ToDoTask, completed: bool)
    ensures
        spec_entries(tasks.push(t), completed) =~~= if t.completed == completed {
            spec_entries(tasks, completed) + seq![t.spec_entry()]
        } else {
            spec_entries(tasks, completed)
        },
    decreases tasks.len(),
{
    if tasks.len() == 0 {
        assert(tasks.push(t)[0] == t);
        assert(tasks.push(t).drop_first() =~= tasks);
    } else {
        assert(tasks.push(t)[0] == tasks[0]);
        assert(tasks.push(t).drop_first() =~= tasks.drop_first().push(t));
        lemma_entries_push(tasks.drop_first(), t, completed);
    }
}

/// Render the tasks as `todo.txt` file contents. In single-file mode the
/// incomplete entries are followed by the completed ones in one joined
/// text and the second text is absent; otherwise the incomplete entries
/// form the first text and the completed ones the second.
#[verifier::loop_isolation(false)]
#[verifier::rlimit(100)]
pub fn todotxt_contents(tasks: &Vec<ToDoTask>, single_file: bool) -> (r: (String, Option<String>))
    requires
        forall|i: int| 0 <= i < tasks@.len() ==> (#[trigger] tasks@[i]).spec_renderable(),
    ensures
        single_file ==> (r.0@ == spec_join(
            spec_entries(tasks@, false) + spec_entries(tasks@, true),
            "\n"@,
        ) && r.1 is None),
        !single_file ==> (r.0@ == spec_join(spec_entries(tasks@, false), "\n"@) && (r.1
            matches Some(d) && d@ == spec_join(spec_entries(tasks@, true), "\n"@))),
{
    let n = tasks.len();
    let mut incomplete: Vec<String> = Vec::new();
    let mut completed: Vec<String> = Vec::new();
    let mut i: usize = 0;
    while i < n
        invariant
            i <= n,
            n == tasks@.len(),
            forall|j: int| 0 <= j < tasks@.len() ==> (#[trigger] tasks@[j]).spec_renderable(),
            spec_string_views(incomplete@) =~~= spec_entries(
                tasks@.subrange(0, i as int),
                false,
            ),
            spec_string_views(completed@) =~~= spec_entries(
                tasks@.subrange(0, i as int),
                true,
            ),
        decreases n - i,
    {
        let entry = tasks[i].as_todotxt_entry();
        if tasks[i].completed {
            completed.push(entry);
        } else {
            incomplete.push(entry);
        }
        i = i + 1;
        proof {
            assert(tasks@.subrange(0, i as int) =~= tasks@.subrange(0, i - 1).push(
                tasks@[i - 1],
            ));
            lemma_entries_push(tasks@.subrange(0, i - 1), tasks@[i - 1], false);
            lemma_entries_push(tasks@.subrange(0, i - 1), tasks@[i - 1], true);
        }
    }
    proof {
        assert(tasks@.subrange(0, n as int) =~= tasks@);
    }
    if single_file {
        let mut all: Vec<String> = incomplete;
        let m = completed.len();
        let mut k: usize = 0;
        while k < m
            invariant
                k <= m,
                m == completed@.len(),
                spec_string_views(all@) =~~= spec_entries(tasks@, false) + spec_string_views(
                    completed@.subrange(0, k as int),
                ),
            decreases m - k,
        {
            let ghost all0 = all@;
            all.push(completed[k].clone());
            k = k + 1;
            proof {
                assert(completed@.subrange(0, k as int) =~= completed@.subrange(0, k - 1).push(
                    completed@[k - 1],
                ));
                assert(spec_string_views(all@) =~~= spec_string_views(all0).push(
                    completed@[k - 1]@,
                ));
                assert(spec_string_views(completed@.subrange(0, k as int))
                    =~~= spec_string_views(completed@.subrange(0, k - 1)).push(
                    completed@[k - 1]@,
                ));
            }
        }
        proof {
            assert(completed@.subrange(0, m as int) =~= completed@);
            assert(spec_string_views(all@) =~~= spec_entries(tasks@, false) + spec_entries(
                tasks@,
                true,
            ));
        }
        let joined = join_lines(&all, "\n");
        (joined, None)
    } else {
        let todo = join_lines(&incomplete, "\n");
        let done = join_lines(&completed, "\n");
        (todo, Some(done))
    }
}

} // verus!
