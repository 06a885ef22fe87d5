//! The history file: its text, and what to do when it is loaded and saved.
//!
//! The file holds one entry to a line: the weight as decimal text, a tab, and
//! the path as it is. Nothing here touches a file or makes a number of a
//! weight's text. The caller reads and writes, tells what it found, and is
//! told what to do next.
use vstd::prelude::*;
use crate::text::{find, find_first, lemma_find_some, occurs_at, to_chars};

verus! {

/// A backup older than this many seconds is renewed: one day.
pub const BACKUP_THRESHOLD: u64 = 24 * 60 * 60;

/// The character between the weight and the path of a line.
pub open spec fn tab() -> Seq<char> {
    seq!['\t']
}

/// The two fields of a line: the text before the first tab, which is the
/// weight, and the text behind it, which is the path. A line without a tab
/// has none.
pub open spec fn line_fields(line: Seq<char>) -> Option<(Seq<char>, Seq<char>)> {
    match find(line, tab()) {
        Some(i) => Some((line.subrange(0, i), line.subrange(i + 1, line.len() as int))),
        None => None,
    }
}

/// The line for an entry: its weight as text, a tab, and its path as it is.
pub open spec fn line_of(weight: Seq<char>, path: Seq<char>) -> Seq<char> {
    weight + tab() + path
}

/// Reads one line of the history file: the text of the weight and the path
/// of the entry that it stands for. A line without a tab is not an entry.
pub fn load_line<'a>(line: &'a str) -> (r: Option<(&'a str, &'a str)>)
    ensures
        match r {
            Some((weight, path)) => line_fields(line@) == Some((weight@, path@)),
            None => line_fields(line@) is None,
        },
{
    proof {
        reveal_strlit("\t");
    }
    assert("\t"@ =~= tab());
    let chars = to_chars(line);
    let sep = to_chars("\t");
    match find_first(&chars, &sep) {
        Some(i) => {
            let total: usize = chars.len();
            let weight = line.substring_char(0, i);
            let path = line.substring_char(i + 1, total);
            Some((weight, path))
        },
        None => None,
    }
}

/// The line of the history file for an entry with the weight written as
/// `weight` and the path `path`.
pub fn format_line(weight: &str, path: &str) -> (r: String)
    ensures
        r@ == line_of(weight@, path@),
{
    proof {
        reveal_strlit("\t");
    }
    let mut r = String::from_str(weight);
    r.append("\t");
    r.append(path);
    r
}

/// A line that was written for an entry splits into what it was made of: the
/// text of the weight and the path, whatever the path holds. The text of a
/// weight holds no tab.
pub proof fn lemma_line_round_trip(weight: Seq<char>, path: Seq<char>)
    requires
        !weight.contains('\t'),
    ensures
        line_fields(line_of(weight, path)) == Some((weight, path)),
{
    let line = line_of(weight, path);
    let n = weight.len() as int;
    assert(line.subrange(n, n + 1) =~= tab());
    assert forall|j: int| 0 <= j < n implies !occurs_at(line, tab(), j) by {
        if occurs_at(line, tab(), j) {
            assert(line.subrange(j, j + 1)[0] == '\t');
        }
    }
    lemma_find_some(line, tab(), n);
}

/// The fields of a list of lines as plain values.
pub open spec fn records(items: Seq<(&str, &str)>) -> Seq<(Seq<char>, Seq<char>)> {
    Seq::new(items.len(), |i: int| (items[i].0@, items[i].1@))
}

/// Where the line that starts at `start` ends: at the next newline, or at the
/// end of the text where none follows.
pub open spec fn line_end(text: Seq<char>, start: int) -> int
    decreases text.len() - start,
{
    if start < 0 || start >= text.len() {
        text.len() as int
    } else if text[start] == '\n' {
        start
    } else {
        line_end(text, start + 1)
    }
}

/// The line that starts at `start`, without the newline that ends it, and
/// without a carriage return that stands before that newline.
pub open spec fn line_at(text: Seq<char>, start: int) -> Seq<char> {
    let end = line_end(text, start);
    if end < text.len() && start < end && text[end - 1] == '\r' {
        text.subrange(start, end - 1)
    } else {
        text.subrange(start, end)
    }
}

/// The fields of the entries that the text holds from `start` on, in order.
/// Lines that are no entries are passed over.
pub open spec fn records_from(text: Seq<char>, start: int) -> Seq<(Seq<char>, Seq<char>)>
    decreases text.len() - start,
{
    if start < 0 || start >= text.len() {
        Seq::<(Seq<char>, Seq<char>)>::empty()
    } else {
        let end = line_end(text, start);
        let rest = if start <= end < text.len() {
            records_from(text, end + 1)
        } else {
            Seq::<(Seq<char>, Seq<char>)>::empty()
        };
        match line_fields(line_at(text, start)) {
            Some(fields) => seq![fields] + rest,
            None => rest,
        }
    }
}

/// The fields of the entries that a history file with the content `text`
/// holds: for each line that has a tab, the text of the weight and the path.
pub open spec fn records_of(text: Seq<char>) -> Seq<(Seq<char>, Seq<char>)> {
    records_from(text, 0)
}

/// The content of a history file with the entries `items`: one line for
/// each, in order, each ended by a newline.
pub open spec fn rendered(items: Seq<(Seq<char>, Seq<char>)>) -> Seq<char>
    decreases items.len(),
{
    if items.len() == 0 {
        Seq::<char>::empty()
    } else {
        rendered(items.drop_last()) + line_of(items.last().0, items.last().1) + seq!['\n']
    }
}

/// Whether an entry can be written and read back: the text of its weight
/// holds neither tab nor newline, and its path holds no newline and does not
/// end in a carriage return.
pub open spec fn is_writable(fields: (Seq<char>, Seq<char>)) -> bool {
    &&& !fields.0.contains('\t')
    &&& !fields.0.contains('\n')
    &&& !fields.1.contains('\n')
    &&& !(fields.1.len() > 0 && fields.1.last() == '\r')
}

/// A line ends at or behind its start, no newline stands in it, and where
/// it ends before the end of the text, it ends at a newline.
proof fn lemma_line_end(text: Seq<char>, start: int)
    requires
        0 <= start <= text.len(),
    ensures
        start <= line_end(text, start) <= text.len(),
        forall|k: int| start <= k < line_end(text, start) ==> text[k] != '\n',
        line_end(text, start) < text.len() ==> text[line_end(text, start)] == '\n',
    decreases text.len() - start,
{
    if start < text.len() && text[start] != '\n' {
        lemma_line_end(text, start + 1);
    }
}

/// A place behind `start` with no newline before it, which is a newline or
/// the end of the text, is where the line that starts at `start` ends.
proof fn lemma_line_end_is(text: Seq<char>, start: int, end: int)
    requires
        0 <= start <= end <= text.len(),
        forall|k: int| start <= k < end ==> text[k] != '\n',
        end == text.len() || text[end] == '\n',
    ensures
        line_end(text, start) == end,
    decreases end - start,
{
    if start < end {
        lemma_line_end_is(text, start + 1, end);
    }
}

/// Behind a text that is empty or ends in a newline, one more line adds one
/// more entry and leaves the others as they are.
proof fn lemma_one_more_line(text: Seq<char>, fields: (Seq<char>, Seq<char>), start: int)
    requires
        0 <= start <= text.len(),
        text.len() == 0 || text.last() == '\n',
        is_writable(fields),
    ensures
        records_from(text + line_of(fields.0, fields.1) + seq!['\n'], start) == records_from(
            text,
            start,
        ).push(fields),
    decreases text.len() - start,
{
    let line = line_of(fields.0, fields.1);
    let longer = text + line + seq!['\n'];
    let n = text.len() as int;
    if start == n {
        assert forall|k: int| n <= k < n + line.len() implies longer[k] != '\n' by {}
        lemma_line_end_is(longer, n, n + line.len());
        assert(line_at(longer, n) == line);
        lemma_line_round_trip(fields.0, fields.1);
        assert(records_from(longer, n + line.len() + 1) =~= Seq::<(Seq<char>, Seq<char>)>::empty());
    } else {
        lemma_line_end(text, start);
        let end = line_end(text, start);
        assert forall|k: int| start <= k < end implies longer[k] != '\n' by {}
        lemma_line_end_is(longer, start, end);
        assert(line_at(longer, start) =~= line_at(text, start));
        lemma_one_more_line(text, fields, end + 1);
    }
}

/// What was rendered ends in a newline, unless it is empty.
proof fn lemma_rendered_ends_in_newline(items: Seq<(Seq<char>, Seq<char>)>)
    ensures
        rendered(items).len() == 0 || rendered(items).last() == '\n',
{
}

/// Reading back what was written gives the entries that were written, in
/// their order: the text of each weight and each path, character by
/// character.
pub proof fn lemma_store_round_trip(items: Seq<(Seq<char>, Seq<char>)>)
    requires
        forall|i: int| 0 <= i < items.len() ==> is_writable(#[trigger] items[i]),
    ensures
        records_of(rendered(items)) == items,
    decreases items.len(),
{
    if items.len() > 0 {
        let front = items.drop_last();
        lemma_store_round_trip(front);
        lemma_rendered_ends_in_newline(front);
        lemma_one_more_line(rendered(front), items.last(), 0);
    }
}

/// Reads the entries out of the content of a history file: for each line
/// that has a tab, the text of the weight and the path, in the order of the
/// lines. Lines without a tab are passed over.
pub fn load_text<'a>(text: &'a str) -> (r: Vec<(&'a str, &'a str)>)
    ensures
        records(r@) == records_of(text@),
{
    let chars = to_chars(text);
    let len: usize = chars.len();
    let mut r: Vec<(&'a str, &'a str)> = Vec::new();
    let mut start: usize = 0;
    while start < len
        invariant
            start <= len,
            len == chars.len(),
            chars@ == text@,
            records_of(text@) == records(r@) + records_from(text@, start as int),
        decreases len - start,
    {
        let mut end: usize = start;
        while end < len && chars[end] != '\n'
            invariant
                start <= end <= len,
                len == chars.len(),
                forall|k: int| start <= k < end ==> chars@[k] != '\n',
            decreases len - end,
        {
            end += 1;
        }
        proof {
            lemma_line_end_is(chars@, start as int, end as int);
        }
        let stop: usize = if end < len && start < end && chars[end - 1] == '\r' {
            end - 1
        } else {
            end
        };
        let line = text.substring_char(start, stop);
        match load_line(line) {
            Some(fields) => {
                r.push(fields);
            },
            None => {},
        }
        if end < len {
            start = end + 1;
        } else {
            start = len;
        }
    }
    r
}

/// Writes the content of a history file: one line for each entry, in the
/// order given, each with the text of the weight, a tab and the path, and
/// ended by a newline.
pub fn render(items: &[(&str, &str)]) -> (r: String)
    ensures
        r@ == rendered(records(items@)),
{
    proof {
        reveal_strlit("\n");
    }
    let ghost model = records(items@);
    let mut r = String::new();
    let mut i: usize = 0;
    while i < items.len()
        invariant
            i <= items.len(),
            model == records(items@),
            "\n"@ == seq!['\n'],
            r@ == rendered(model.take(i as int)),
        decreases items.len() - i,
    {
        assert(model.take(i + 1).drop_last() =~= model.take(i as int));
        let line = format_line(items[i].0, items[i].1);
        r.append(line.as_str());
        r.append("\n");
        i += 1;
    }
    assert(model.take(i as int) =~= model);
    r
}

/// Which file was tried.
#[derive(Clone, Copy, Debug, PartialEq, Eq, Structural)]
pub enum LoadStep {
    /// The history file itself.
    Primary,
    /// The backup, after it was put in the place of the history file.
    Backup,
}

/// What came of trying to read a file.
#[derive(Clone, Copy, Debug, PartialEq, Eq, Structural)]
pub enum ReadOutcome {
    /// There is no such file.
    Missing,
    /// The file is there and could not be read to its end.
    Unreadable,
    /// The file was read; lines that are no entries were passed over.
    Read,
}

/// What to do after a file was tried.
#[derive(Clone, Copy, Debug, PartialEq, Eq, Structural)]
pub enum LoadAction {
    /// The history is what was read.
    UseEntries,
    /// The history is empty.
    UseNothing,
    /// Put the backup in the place of the history file and read that.
    PromoteBackup,
    /// Give up: the backup cannot be read either.
    Fail,
}

/// What follows from the outcome of a step of loading.
///
/// A missing history file is an empty history. A history file that cannot be
/// read is replaced by the backup; without a backup the history is empty, and
/// a backup that cannot be read either is the one failure.
pub open spec fn next_action(step: LoadStep, outcome: ReadOutcome) -> LoadAction {
    match outcome {
        ReadOutcome::Read => LoadAction::UseEntries,
        ReadOutcome::Missing => LoadAction::UseNothing,
        ReadOutcome::Unreadable => match step {
            LoadStep::Primary => LoadAction::PromoteBackup,
            LoadStep::Backup => LoadAction::Fail,
        },
    }
}

/// Decides how loading goes on after `step` came to `outcome`.
pub fn load_step(step: LoadStep, outcome: ReadOutcome) -> (action: LoadAction)
    ensures
        action == next_action(step, outcome),
        action == LoadAction::Fail <==> step == LoadStep::Backup && outcome
            == ReadOutcome::Unreadable,
{
    match outcome {
        ReadOutcome::Read => LoadAction::UseEntries,
        ReadOutcome::Missing => LoadAction::UseNothing,
        ReadOutcome::Unreadable => match step {
            LoadStep::Primary => LoadAction::PromoteBackup,
            LoadStep::Backup => LoadAction::Fail,
        },
    }
}

/// What is known of the backup before a save.
#[derive(Clone, Copy, Debug, PartialEq, Eq, Structural)]
pub enum BackupAge {
    /// There is no backup.
    Missing,
    /// The backup was last changed this many seconds ago.
    Seconds(u64),
    /// The backup claims to be from the future: the clocks disagree.
    Future,
    /// The time of its last change cannot be had.
    Unknown,
}

/// Whether the backup is due: there is none, or it is older than a day. A
/// backup whose age cannot be told is left alone this time.
pub open spec fn backup_due(age: BackupAge) -> bool {
    match age {
        BackupAge::Missing => true,
        BackupAge::Seconds(s) => s > BACKUP_THRESHOLD,
        BackupAge::Future => false,
        BackupAge::Unknown => false,
    }
}

/// Whether the backup is to be renewed.
pub fn need_backup(age: BackupAge) -> (r: bool)
    ensures
        r == backup_due(age),
{
    match age {
        BackupAge::Missing => true,
        BackupAge::Seconds(s) => s > BACKUP_THRESHOLD,
        BackupAge::Future => false,
        BackupAge::Unknown => false,
    }
}

/// One step of a save.
#[derive(Clone, Copy, Debug, PartialEq, Eq, Structural)]
pub enum SaveStep {
    /// Create the data directory and what is missing above it.
    CreateDir,
    /// Copy the history file, as it stands before the save, to the backup.
    RefreshBackup,
    /// Write the entries to a temporary file and put it in the place of the
    /// history file in one move.
    Write,
}

/// The steps of a save, in the order in which they are taken.
///
/// The directory comes first where it is missing. The backup is renewed
/// where it is due and there is a history file to copy, and always before the
/// history file is replaced, so that it holds what was there before. The
/// write comes last, and always.
pub open spec fn steps_of_save(
    prefix_exists: bool,
    primary_exists: bool,
    backup: BackupAge,
) -> Seq<SaveStep> {
    let dir = if prefix_exists {
        Seq::<SaveStep>::empty()
    } else {
        seq![SaveStep::CreateDir]
    };
    let copy = if primary_exists && backup_due(backup) {
        seq![SaveStep::RefreshBackup]
    } else {
        Seq::<SaveStep>::empty()
    };
    dir + copy + seq![SaveStep::Write]
}

/// Plans a save from what is on disk: whether the data directory and the
/// history file exist, and how old the backup is.
pub fn save_steps(
    prefix_exists: bool,
    primary_exists: bool,
    backup: BackupAge,
) -> (r: Vec<SaveStep>)
    ensures
        r@ == steps_of_save(prefix_exists, primary_exists, backup),
{
    let mut r: Vec<SaveStep> = Vec::new();
    if !prefix_exists {
        r.push(SaveStep::CreateDir);
    }
    if primary_exists && need_backup(backup) {
        r.push(SaveStep::RefreshBackup);
    }
    r.push(SaveStep::Write);
    r
}

} // verus!
