//! Following a growing text file: how far it was read, and which new lines
//! the bytes after that point hold.
//!
//! A line is a record that ends in a newline. Bytes after the last newline
//! are the beginning of a record that is still being written: they are left
//! for the next call.

use crate::text::{texts, utf8_text};
use vstd::prelude::*;
use vstd::utf8::{decode_utf8, valid_utf8};

verus! {

/// The byte that ends a record.
pub const NEWLINE: u8 = 10;

/// The byte that may stand before the newline and is not part of the record.
pub const CARRIAGE_RETURN: u8 = 13;

/// One past the last newline of `bytes`, or 0 where there is none: the
/// number of bytes that complete records take up.
pub open spec fn last_break(bytes: Seq<u8>) -> int
    decreases bytes.len(),
{
    if bytes.len() == 0 {
        0
    } else if bytes.last() == NEWLINE {
        bytes.len() as int
    } else {
        last_break(bytes.drop_last())
    }
}

/// `line` without one carriage return at its end.
pub open spec fn without_return(line: Seq<u8>) -> Seq<u8> {
    if line.len() > 0 && line.last() == CARRIAGE_RETURN {
        line.drop_last()
    } else {
        line
    }
}

/// The complete records of `bytes`, in order, each without the newline that
/// ends it and without a carriage return before that.
pub open spec fn complete_lines(bytes: Seq<u8>) -> Seq<Seq<u8>>
    decreases bytes.len(),
{
    if bytes.len() == 0 {
        Seq::empty()
    } else if bytes.last() == NEWLINE {
        let head = bytes.drop_last();
        complete_lines(head).push(without_return(head.skip(last_break(head))))
    } else {
        complete_lines(bytes.drop_last())
    }
}

/// The texts of those of `lines` that are well-formed UTF-8, in order. The
/// others are passed over.
pub open spec fn readable(lines: Seq<Seq<u8>>) -> Seq<Seq<char>>
    decreases lines.len(),
{
    if lines.len() == 0 {
        Seq::empty()
    } else if valid_utf8(lines.last()) {
        readable(lines.drop_last()).push(decode_utf8(lines.last()))
    } else {
        readable(lines.drop_last())
    }
}

/// The complete records lie inside the bytes.
pub proof fn lemma_last_break_bounds(bytes: Seq<u8>)
    ensures
        0 <= last_break(bytes) <= bytes.len(),
        last_break(bytes) > 0 ==> bytes[last_break(bytes) - 1] == NEWLINE,
        forall|i: int| last_break(bytes) <= i < bytes.len() ==> bytes[i] != NEWLINE,
    decreases bytes.len(),
{
    if bytes.len() > 0 && bytes.last() != NEWLINE {
        let head = bytes.drop_last();
        lemma_last_break_bounds(head);
        assert forall|i: int| last_break(bytes) <= i < bytes.len() implies bytes[i] != NEWLINE by {
            if i < head.len() {
                assert(head[i] == bytes[i]);
            }
        }
    }
}

/// Reading in two calls yields what reading once would have yielded: after
/// `first` was read, the bytes left over together with what was appended
/// since hold exactly the records that `first + appended` holds beyond
/// those of `first`. Nothing is yielded twice and nothing is lost.
pub proof fn lemma_reading_resumes(first: Seq<u8>, appended: Seq<u8>)
    ensures
        complete_lines(first + appended) == complete_lines(first) + complete_lines(
            first.skip(last_break(first)) + appended,
        ),
        last_break(first + appended) == last_break(first) + last_break(
            first.skip(last_break(first)) + appended,
        ),
    decreases appended.len(),
{
    lemma_last_break_bounds(first);
    let rest = first.skip(last_break(first));
    if appended.len() == 0 {
        assert(first + appended =~= first);
        assert(rest + appended =~= rest);
        lemma_no_break_no_lines(rest);
        assert(complete_lines(first) + Seq::<Seq<u8>>::empty() =~= complete_lines(first));
    } else {
        let shorter = appended.drop_last();
        lemma_reading_resumes(first, shorter);
        assert((first + appended).drop_last() =~= first + shorter);
        assert((rest + appended).drop_last() =~= rest + shorter);
        assert((first + appended).last() == appended.last());
        assert((rest + appended).last() == appended.last());
        if appended.last() == NEWLINE {
            let whole = first + shorter;
            let tail = rest + shorter;
            lemma_last_break_bounds(tail);
            assert(whole.skip(last_break(whole)) =~= tail.skip(last_break(tail)));
            assert(complete_lines(first + appended) =~= complete_lines(first) + complete_lines(
                rest + appended,
            ));
        }
    }
}

/// No record holds a newline.
pub proof fn lemma_lines_hold_no_newline(bytes: Seq<u8>, k: int, i: int)
    requires
        0 <= k < complete_lines(bytes).len(),
        0 <= i < complete_lines(bytes)[k].len(),
    ensures
        complete_lines(bytes)[k][i] != NEWLINE,
    decreases bytes.len(),
{
    let head = bytes.drop_last();
    if bytes.last() == NEWLINE {
        if k < complete_lines(head).len() {
            lemma_lines_hold_no_newline(head, k, i);
        } else {
            lemma_last_break_bounds(head);
            let raw = head.skip(last_break(head));
            assert(complete_lines(bytes)[k] == without_return(raw));
            assert(without_return(raw)[i] == raw[i]);
            assert(raw[i] == head[last_break(head) + i]);
        }
    } else {
        lemma_lines_hold_no_newline(head, k, i);
    }
}

/// Bytes without a newline hold no complete record.
pub proof fn lemma_no_break_no_lines(bytes: Seq<u8>)
    requires
        forall|i: int| 0 <= i < bytes.len() ==> bytes[i] != NEWLINE,
    ensures
        last_break(bytes) == 0,
        complete_lines(bytes) == Seq::<Seq<u8>>::empty(),
    decreases bytes.len(),
{
    if bytes.len() > 0 {
        lemma_no_break_no_lines(bytes.drop_last());
    }
}

/// The complete records of `bytes`, and the number of bytes they take up.
pub fn split_lines(bytes: &[u8]) -> (r: (Vec<Vec<u8>>, usize))
    ensures
        r.0@.map_values(|line: Vec<u8>| line@) == complete_lines(bytes@),
        r.1 == last_break(bytes@),
{
    let mut lines: Vec<Vec<u8>> = Vec::new();
    let mut current: Vec<u8> = Vec::new();
    let mut taken: usize = 0;
    let mut i: usize = 0;
    assert(bytes@.take(0) =~= Seq::<u8>::empty());
    assert(lines@.map_values(|line: Vec<u8>| line@) =~= Seq::<Seq<u8>>::empty());
    while i < bytes.len()
        invariant
            i <= bytes.len(),
            taken == last_break(bytes@.take(i as int)),
            taken <= i,
            current@ == bytes@.take(i as int).skip(taken as int),
            lines@.map_values(|line: Vec<u8>| line@) == complete_lines(bytes@.take(i as int)),
        decreases bytes.len() - i,
    {
        let byte = bytes[i];
        proof {
            assert(bytes@.take(i + 1).drop_last() =~= bytes@.take(i as int));
            assert(bytes@.take(i + 1).last() == byte);
        }
        if byte == NEWLINE {
            let ghost before = lines@.map_values(|line: Vec<u8>| line@);
            let ghost raw = current@;
            if current.len() > 0 && current[current.len() - 1] == CARRIAGE_RETURN {
                let _ = current.pop();
            }
            assert(current@ =~= without_return(raw));
            let mut line: Vec<u8> = Vec::new();
            std::mem::swap(&mut line, &mut current);
            lines.push(line);
            assert(lines@.map_values(|line: Vec<u8>| line@) =~= before.push(without_return(raw)));
            taken = i + 1;
            assert(current@ =~= bytes@.take(i + 1).skip(taken as int));
        } else {
            current.push(byte);
            assert(current@ =~= bytes@.take(i + 1).skip(taken as int));
        }
        i = i + 1;
    }
    assert(bytes@.take(bytes.len() as int) =~= bytes@);
    (lines, taken)
}

/// The texts of those of `lines` that are well-formed UTF-8, in order.
pub fn decode_lines(lines: Vec<Vec<u8>>) -> (decoded: Vec<String>)
    ensures
        texts(decoded@) == readable(lines@.map_values(|line: Vec<u8>| line@)),
{
    let ghost all = lines@.map_values(|line: Vec<u8>| line@);
    let mut decoded: Vec<String> = Vec::new();
    assert(all.take(0) =~= Seq::<Seq<u8>>::empty());
    assert(texts(decoded@) =~= Seq::<Seq<char>>::empty());
    for line in it: lines
        invariant
            it.seq() == lines@,
            all == lines@.map_values(|line: Vec<u8>| line@),
            texts(decoded@) == readable(all.take(it.index() as int)),
    {
        proof {
            assert(all.take(it.index() + 1).drop_last() =~= all.take(it.index() as int));
            assert(all.take(it.index() + 1).last() == line@);
        }
        let ghost before = texts(decoded@);
        match utf8_text(line) {
            Some(text) => {
                proof {
                    vstd::utf8::encode_utf8_decode_utf8(text@);
                }
                decoded.push(text);
                assert(texts(decoded@) =~= before.push(text@));
            },
            None => {},
        }
    }
    assert(all.take(all.len() as int) =~= all);
    decoded
}

/// What can go wrong while the file is followed.
#[derive(Debug, Clone, Copy, PartialEq, Eq, Structural)]
pub enum WatchFailure {
    /// The change notification could not be set up.
    Setup,
    /// The watched path is gone for good.
    PathRemoved,
    /// One attempt to open or read the file failed.
    Read,
}

/// How a failure is answered.
#[derive(Debug, Clone, Copy, PartialEq, Eq, Structural)]
pub enum Severity {
    /// Ingestion stops.
    Fatal,
    /// The failure is reported and the next change is waited for; the
    /// position in the file stays as it is.
    Transient,
}

/// Only a failed attempt to open or read is passed over.
pub open spec fn severity_of(failure: WatchFailure) -> Severity {
    match failure {
        WatchFailure::Setup => Severity::Fatal,
        WatchFailure::PathRemoved => Severity::Fatal,
        WatchFailure::Read => Severity::Transient,
    }
}

/// How `failure` is answered.
pub fn severity(failure: WatchFailure) -> (answer: Severity)
    ensures
        answer == severity_of(failure),
{
    match failure {
        WatchFailure::Setup => Severity::Fatal,
        WatchFailure::PathRemoved => Severity::Fatal,
        WatchFailure::Read => Severity::Transient,
    }
}

/// How far the watched file was read.
#[derive(Debug, Clone, Copy)]
pub struct Watcher {
    offset: u64,
}

impl View for Watcher {
    type V = nat;

    /// Number of bytes of the file that were yielded as lines.
    closed spec fn view(&self) -> nat {
        self.offset as nat
    }
}

impl Watcher {
    /// A watcher at the start of the file.
    pub fn new() -> (watcher: Self)
        ensures
            watcher@ == 0,
    {
        Watcher { offset: 0 }
    }

    pub fn offset(&self) -> (offset: u64)
        ensures
            offset == self@,
    {
        self.offset
    }

    /// The position to read from in a file that is now `file_size` bytes
    /// long. A file shorter than what was read was truncated or replaced: it
    /// is read again from its start.
    pub fn resume(&mut self, file_size: u64) -> (from: u64)
        ensures
            final(self)@ == (if old(self)@ > file_size {
                0
            } else {
                old(self)@
            }),
            from == final(self)@,
            from <= file_size,
    {
        if self.offset > file_size {
            self.offset = 0;
        }
        self.offset
    }

    /// Takes the bytes of the file from the present position to its end, and
    /// returns the new lines among them: the complete records that are
    /// well-formed UTF-8, in order. The position moves past the complete
    /// records, and stays before a record that has no newline yet.
    pub fn next_lines(&mut self, unread: &[u8]) -> (lines: Vec<String>)
        requires
            old(self)@ + unread@.len() <= u64::MAX,
        ensures
            texts(lines@) == readable(complete_lines(unread@)),
            final(self)@ == old(self)@ + last_break(unread@),
    {
        let (raw, taken) = split_lines(unread);
        proof {
            lemma_last_break_bounds(unread@);
        }
        self.offset = self.offset + taken as u64;
        decode_lines(raw)
    }
}

} // verus!
