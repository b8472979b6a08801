//! A log file with one record on each line.

use std::path::PathBuf;
use vstd::prelude::*;

verus! {

/// A file to which records are appended.
#[derive(Debug)]
pub struct LogFile {
    pub path: PathBuf,
}

/// The byte that ends a line.
pub const LINE_FEED: u8 = 0x0a;

impl LogFile {
    /// The log in that file.
    pub fn new(path: PathBuf) -> (log: LogFile)
        ensures
            log.path == path,
    {
        LogFile { path }
    }

    /// What to append to the file for a record.
    pub fn append(&self, record: Vec<u8>) -> (line: Vec<u8>)
        ensures
            line@ == record@.push(LINE_FEED),
    {
        let mut line: Vec<u8> = record;
        line.push(LINE_FEED);
        line
    }
}

/// A file that held `before`, after these records were appended to it.
pub open spec fn log_of(before: Seq<u8>, records: Seq<Seq<u8>>) -> Seq<u8>
    decreases records.len(),
{
    if records.len() == 0 {
        before
    } else {
        log_of(before, records.drop_last()) + records.last().push(LINE_FEED)
    }
}

/// Whether no record holds the end of a line.
pub open spec fn are_single_lines(records: Seq<Seq<u8>>) -> bool {
    forall|i: int| 0 <= i < records.len() ==> !(#[trigger] records[i]).contains(LINE_FEED)
}

/// How many lines end in a stretch of bytes.
pub open spec fn line_ends(bytes: Seq<u8>) -> nat
    decreases bytes.len(),
{
    if bytes.len() == 0 {
        0
    } else {
        line_ends(bytes.drop_last()) + if bytes.last() == LINE_FEED {
            1nat
        } else {
            0nat
        }
    }
}

proof fn lemma_line_ends_add_up(one: Seq<u8>, other: Seq<u8>)
    ensures
        line_ends(one + other) == line_ends(one) + line_ends(other),
    decreases other.len(),
{
    if other.len() == 0 {
        assert(one + other =~= one);
    } else {
        lemma_line_ends_add_up(one, other.drop_last());
        assert((one + other).drop_last() =~= one + other.drop_last());
    }
}

proof fn lemma_no_line_end(bytes: Seq<u8>)
    requires
        !bytes.contains(LINE_FEED),
    ensures
        line_ends(bytes) == 0,
    decreases bytes.len(),
{
    if bytes.len() > 0 {
        assert(bytes[bytes.len() - 1] != LINE_FEED);
        assert forall|i: int| 0 <= i < bytes.drop_last().len() implies bytes.drop_last()[i]
            != LINE_FEED by {
            assert(bytes[i] != LINE_FEED);
        }
        lemma_no_line_end(bytes.drop_last());
    }
}

proof fn lemma_single_lines(records: Seq<Seq<u8>>)
    requires
        are_single_lines(records),
        records.len() > 0,
    ensures
        are_single_lines(records.drop_last()),
        !records.last().contains(LINE_FEED),
{
    assert(records.last() == records[records.len() - 1]);
    assert forall|i: int| 0 <= i < records.drop_last().len() implies !(
    #[trigger] records.drop_last()[i]).contains(LINE_FEED) by {
        assert(records.drop_last()[i] == records[i]);
    }
}

/// Appending keeps what was in the log, and adds one line for each record, as long
/// as no record holds the end of a line.
pub proof fn one_line_for_each_record(before: Seq<u8>, records: Seq<Seq<u8>>)
    requires
        are_single_lines(records),
    ensures
        before.is_prefix_of(log_of(before, records)),
        line_ends(log_of(before, records)) == line_ends(before) + records.len(),
        records.len() > 0 ==> log_of(before, records).last() == LINE_FEED,
    decreases records.len(),
{
    if records.len() > 0 {
        let record = records.last();
        lemma_single_lines(records);
        one_line_for_each_record(before, records.drop_last());
        lemma_no_line_end(record);
        assert(record.push(LINE_FEED).drop_last() =~= record);
        lemma_line_ends_add_up(log_of(before, records.drop_last()), record.push(LINE_FEED));
        assert(before =~= log_of(before, records).subrange(0, before.len() as int));
    }
}

/// The records can be told from the log: whatever other records were appended to the
/// same file, they would have left another log.
pub proof fn logs_tell_their_records(
    before: Seq<u8>,
    one: Seq<Seq<u8>>,
    other: Seq<Seq<u8>>,
)
    requires
        are_single_lines(one),
        are_single_lines(other),
        log_of(before, one) == log_of(before, other),
    ensures
        one == other,
    decreases one.len(),
{
    one_line_for_each_record(before, one);
    one_line_for_each_record(before, other);
    if one.len() == 0 {
        assert(one =~= other);
    } else {
        lemma_single_lines(one);
        lemma_single_lines(other);
        let log = log_of(before, one);
        let start = log_of(before, one.drop_last());
        let other_start = log_of(before, other.drop_last());
        one_line_for_each_record(before, one.drop_last());
        one_line_for_each_record(before, other.drop_last());
        if start.len() < other_start.len() {
            assert(other_start.last() == LINE_FEED);
            assert(log[other_start.len() - 1] == other_start.last());
            assert(one.last()[other_start.len() - 1 - start.len()] == LINE_FEED);
        } else if other_start.len() < start.len() {
            assert(start.last() == LINE_FEED);
            assert(log[start.len() - 1] == start.last());
            assert(log[start.len() - 1] == (other_start + other.last().push(LINE_FEED))[
                start.len() - 1]);
            assert(other.last()[start.len() - 1 - other_start.len()] == LINE_FEED);
        }
        assert(start =~= log.take(start.len() as int));
        assert(other_start =~= log.take(start.len() as int));
        assert(one.last() =~= log.subrange(start.len() as int, log.len() - 1));
        assert(other.last() =~= log.subrange(start.len() as int, log.len() - 1));
        logs_tell_their_records(before, one.drop_last(), other.drop_last());
        assert(one =~= one.drop_last().push(one.last()));
        assert(other =~= other.drop_last().push(other.last()));
    }
}

/// A record is appended as it is, with a line feed behind it and nothing else, to the file
/// that the log was made for.
pub proof fn records_are_appended_as_they_are(
    path: PathBuf,
    log: LogFile,
    record: Vec<u8>,
    line: Vec<u8>,
)
    requires
        call_ensures(LogFile::new, (path,), log),
        call_ensures(LogFile::append, (&log, record), line),
    ensures
        log.path == path,
        line@.len() == record@.len() + 1,
        line@.drop_last() == record@,
        line@.last() == 0x0a,
{
    assert(line@.drop_last() =~= record@);
}

} // verus!
