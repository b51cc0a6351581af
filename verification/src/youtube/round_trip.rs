//! What holds between reading and writing the record format: a record that
//! was read is read again from its own line, a line with too few fields
//! leaves no trace, and a ledger reads back as the records it was written from.

use crate::common::text::{
    is_tight, lemma_position, lemma_position_is, lemma_trim_end, lemma_trim_start,
    lemma_trimmed_idempotent, lemma_trimmed_is_tight, occurrences, position, trim_start, trimmed,
};
use crate::youtube::filesystem::{
    ledger_of, line_record, lines_of, record_of, records_of, without_carriage_return, NEWLINE,
};
use crate::youtube::song::{SongView, DELIMITER};
use vstd::prelude::*;

verus! {

/// The lines of `records`, in order.
pub open spec fn record_lines(records: Seq<SongView>) -> Seq<Seq<char>> {
    records.map_values(|record: SongView| record.line())
}

/// Whether a ledger gives `record` back unchanged: its first two fields hold no
/// delimiter, and its line is tight, holds no newline and does not end in a
/// carriage return.
pub open spec fn is_storable(record: SongView) -> bool {
    &&& record.is_separable()
    &&& is_tight(record.line())
    &&& !record.line().contains(NEWLINE)
    &&& record.line().last() != '\r'
}

/// The line of a record whose first two fields hold no delimiter splits back
/// into that record.
pub proof fn lemma_line_splits_back(record: SongView)
    requires
        record.is_separable(),
    ensures
        record_of(record.line()) == Some(record),
{
    let line = record.line();
    let first = record.url.len() as int;
    assert forall|k: int| 0 <= k < first implies line[k] != DELIMITER by {
        assert(line[k] == record.url[k]);
        assert(record.url.contains(line[k]));
    }
    assert(line[first] == DELIMITER);
    lemma_position_is(line, DELIMITER, first);
    let rest = line.skip(first + 1);
    assert(rest =~= record.artist + seq![DELIMITER] + record.name);
    let second = record.artist.len() as int;
    assert forall|k: int| 0 <= k < second implies rest[k] != DELIMITER by {
        assert(rest[k] == record.artist[k]);
        assert(record.artist.contains(rest[k]));
    }
    assert(rest[second] == DELIMITER);
    lemma_position_is(rest, DELIMITER, second);
    assert(line.take(first) =~= record.url);
    assert(rest.take(second) =~= record.artist);
    assert(rest.skip(second + 1) =~= record.name);
}

/// A record that was split from a line has that line as its own, and its
/// first two fields hold no delimiter.
pub proof fn lemma_split_record_line(line: Seq<char>)
    requires
        record_of(line) is Some,
    ensures
        record_of(line).unwrap().line() == line,
        record_of(line).unwrap().is_separable(),
{
    lemma_position(line, DELIMITER);
    let first = position(line, DELIMITER);
    let rest = line.skip(first + 1);
    lemma_position(rest, DELIMITER);
    let second = position(rest, DELIMITER);
    let record = record_of(line).unwrap();
    assert(record.line() =~= line);
    assert(!record.url.contains(DELIMITER)) by {
        if record.url.contains(DELIMITER) {
            let k = choose|k: int| 0 <= k < record.url.len() && record.url[k] == DELIMITER;
            assert(line[k] == DELIMITER);
        }
    }
    assert(!record.artist.contains(DELIMITER)) by {
        if record.artist.contains(DELIMITER) {
            let k = choose|k: int| 0 <= k < record.artist.len() && record.artist[k] == DELIMITER;
            assert(rest[k] == DELIMITER);
        }
    }
}

/// Round trip: the record read from a line is read again, unchanged, from the
/// line that the record is written as.
pub proof fn lemma_read_write_read(line: Seq<char>)
    requires
        line_record(line) is Some,
    ensures
        line_record(line_record(line).unwrap().line()) == line_record(line),
{
    lemma_split_record_line(trimmed(line));
    lemma_trimmed_idempotent(line);
}

/// Round trip from the record: a record whose first two fields hold no
/// delimiter and whose line is tight is read unchanged from its line.
pub proof fn lemma_write_read(record: SongView)
    requires
        record.is_separable(),
        is_tight(record.line()),
    ensures
        line_record(record.line()) == Some(record),
{
    lemma_trimmed_is_tight(record.line());
    lemma_line_splits_back(record);
}

/// Occurrences add up over concatenation.
pub proof fn lemma_occurrences_concat(a: Seq<char>, b: Seq<char>, c: char)
    ensures
        occurrences(a + b, c) == occurrences(a, c) + occurrences(b, c),
    decreases b.len(),
{
    if b.len() == 0 {
        assert(a + b =~= a);
    } else {
        assert((a + b).drop_last() =~= a + b.drop_last());
        lemma_occurrences_concat(a, b.drop_last(), c);
    }
}

/// A sequence holds no `c` exactly where the position of `c` is its length.
pub proof fn lemma_occurrences_none(s: Seq<char>, c: char)
    ensures
        occurrences(s, c) == 0 <==> position(s, c) == s.len(),
    decreases s.len(),
{
    lemma_position(s, c);
    if s.len() > 0 {
        let init = s.drop_last();
        lemma_occurrences_none(init, c);
        lemma_position(init, c);
        if position(s, c) == s.len() {
            assert forall|k: int| 0 <= k < init.len() implies init[k] != c by {
                assert(init[k] == s[k]);
            }
            lemma_position_is(init, c, init.len() as int);
        } else if occurrences(s, c) == 0 {
            assert forall|k: int| 0 <= k < s.len() implies s[k] != c by {
                if k < init.len() {
                    assert(init[k] == s[k]);
                }
            }
        }
    }
}

/// A trimmed line holds a record exactly where it holds two delimiters or more.
pub proof fn lemma_record_needs_two_delimiters(line: Seq<char>)
    ensures
        record_of(line) is Some <==> occurrences(line, DELIMITER) >= 2,
{
    lemma_position(line, DELIMITER);
    lemma_occurrences_none(line, DELIMITER);
    let first = position(line, DELIMITER);
    if first < line.len() {
        let rest = line.skip(first + 1);
        lemma_position(rest, DELIMITER);
        lemma_occurrences_none(rest, DELIMITER);
        let head = line.take(first);
        assert forall|k: int| 0 <= k < head.len() implies head[k] != DELIMITER by {
            assert(head[k] == line[k]);
        }
        lemma_position_is(head, DELIMITER, first);
        lemma_occurrences_none(head, DELIMITER);
        assert(line =~= head.push(DELIMITER) + rest);
        lemma_occurrences_concat(head.push(DELIMITER), rest, DELIMITER);
        assert(head.push(DELIMITER).drop_last() =~= head);
    }
}

/// Trimming removes characters only, so it never adds an occurrence.
pub proof fn lemma_trimmed_occurrences(line: Seq<char>, c: char)
    ensures
        occurrences(trimmed(line), c) <= occurrences(line, c),
{
    lemma_trim_start(line);
    let inner = trim_start(line);
    lemma_trim_end(inner);
    let cut = line.len() - inner.len();
    let kept = trimmed(line).len() as int;
    assert(line =~= line.take(cut) + inner);
    assert(inner =~= trimmed(line) + inner.skip(kept));
    lemma_occurrences_concat(line.take(cut), inner, c);
    lemma_occurrences_concat(trimmed(line), inner.skip(kept), c);
}

/// A line with fewer than two delimiters holds no record.
pub proof fn lemma_short_line_holds_none(line: Seq<char>)
    requires
        occurrences(line, DELIMITER) < 2,
    ensures
        line_record(line) is None,
{
    lemma_trimmed_occurrences(line, DELIMITER);
    lemma_record_needs_two_delimiters(trimmed(line));
}

/// The records of two runs of lines, one after the other, are the records of
/// the first followed by the records of the second.
pub proof fn lemma_records_of_concat(a: Seq<Seq<char>>, b: Seq<Seq<char>>)
    ensures
        records_of(a + b) == records_of(a) + records_of(b),
    decreases b.len(),
{
    if b.len() == 0 {
        assert(a + b =~= a);
        assert(records_of(a) + records_of(b) =~= records_of(a));
    } else {
        assert((a + b).drop_last() =~= a + b.drop_last());
        assert((a + b).last() == b.last());
        lemma_records_of_concat(a, b.drop_last());
        let joined = records_of(a) + records_of(b.drop_last());
        match line_record(b.last()) {
            Some(record) => {
                assert(joined.push(record) =~= records_of(a) + records_of(b.drop_last()).push(
                    record,
                ));
            },
            None => {},
        }
    }
}

/// A line with fewer than two delimiters is left out, and the records of the
/// lines around it keep their order.
pub proof fn lemma_short_line_leaves_no_trace(
    before: Seq<Seq<char>>,
    line: Seq<char>,
    after: Seq<Seq<char>>,
)
    requires
        occurrences(line, DELIMITER) < 2,
    ensures
        records_of(before + seq![line] + after) == records_of(before) + records_of(after),
{
    lemma_short_line_holds_none(line);
    lemma_records_of_concat(before + seq![line], after);
    lemma_records_of_concat(before, seq![line]);
    assert(seq![line].drop_last() =~= Seq::<Seq<char>>::empty());
    assert(seq![line].last() == line);
    assert(records_of(seq![line].drop_last()) =~= Seq::<SongView>::empty());
    assert(records_of(seq![line]) =~= Seq::<SongView>::empty());
    assert(records_of(before) + Seq::<SongView>::empty() =~= records_of(before));
}

/// Appending: the ledger of two runs of records, one after the other, is the
/// text of the first followed by the text of the second.
pub proof fn lemma_ledger_concat(a: Seq<SongView>, b: Seq<SongView>)
    ensures
        ledger_of(a + b) == ledger_of(a) + ledger_of(b),
    decreases b.len(),
{
    if b.len() == 0 {
        assert(a + b =~= a);
        assert(ledger_of(a) + ledger_of(b) =~= ledger_of(a));
    } else {
        assert((a + b).drop_last() =~= a + b.drop_last());
        assert((a + b).last() == b.last());
        lemma_ledger_concat(a, b.drop_last());
        assert(ledger_of(a + b) =~= ledger_of(a) + ledger_of(b));
    }
}

/// A line without a newline, ended by a newline and followed by more text,
/// is the first line of the whole; the lines of the rest follow it.
pub proof fn lemma_first_line(line: Seq<char>, rest: Seq<char>)
    requires
        !line.contains(NEWLINE),
    ensures
        lines_of(line + seq![NEWLINE] + rest) == seq![without_carriage_return(line)] + lines_of(
            rest,
        ),
{
    let text = line + seq![NEWLINE] + rest;
    let end = line.len() as int;
    assert forall|k: int| 0 <= k < end implies text[k] != NEWLINE by {
        assert(text[k] == line[k]);
        assert(line.contains(text[k]));
    }
    assert(text[end] == NEWLINE);
    lemma_position_is(text, NEWLINE, end);
    assert(text.take(end) =~= line);
    assert(text.skip(end + 1) =~= rest);
}

/// The lines of a ledger are the lines of its records, where no record's line
/// holds a newline or ends in a carriage return.
pub proof fn lemma_ledger_lines(records: Seq<SongView>)
    requires
        forall|i: int|
            0 <= i < records.len() ==> !(#[trigger] records[i]).line().contains(NEWLINE)
                && records[i].line().last() != '\r',
    ensures
        lines_of(ledger_of(records)) == record_lines(records),
    decreases records.len(),
{
    if records.len() == 0 {
        assert(lines_of(ledger_of(records)) =~= record_lines(records));
    } else {
        let head = records[0];
        let tail = records.drop_first();
        assert(records =~= seq![head] + tail);
        lemma_ledger_concat(seq![head], tail);
        assert(seq![head].drop_last() =~= Seq::<SongView>::empty());
        assert(seq![head].last() == head);
        assert(ledger_of(seq![head].drop_last()) =~= Seq::<char>::empty());
        assert(ledger_of(seq![head]) =~= head.line() + seq![NEWLINE]);
        assert forall|i: int| 0 <= i < tail.len() implies !(#[trigger] tail[i]).line().contains(
            NEWLINE,
        ) && tail[i].line().last() != '\r' by {
            assert(tail[i] == records[i + 1]);
        }
        lemma_ledger_lines(tail);
        lemma_first_line(head.line(), ledger_of(tail));
        assert(record_lines(records) =~= seq![head.line()] + record_lines(tail));
    }
}

/// Reading the lines of records gives the records back, where each is read
/// unchanged from its own line.
pub proof fn lemma_record_lines_read_back(records: Seq<SongView>)
    requires
        forall|i: int|
            0 <= i < records.len() ==> (#[trigger] records[i]).is_separable() && is_tight(
                records[i].line(),
            ),
    ensures
        records_of(record_lines(records)) == records,
    decreases records.len(),
{
    if records.len() == 0 {
        assert(records_of(record_lines(records)) =~= records);
    } else {
        let init = records.drop_last();
        assert(record_lines(records).drop_last() =~= record_lines(init));
        assert forall|i: int| 0 <= i < init.len() implies (#[trigger] init[i]).is_separable()
            && is_tight(init[i].line()) by {
            assert(init[i] == records[i]);
        }
        lemma_record_lines_read_back(init);
        lemma_write_read(records.last());
        assert(init.push(records.last()) =~= records);
    }
}

/// A ledger reads back as the records it was written from, in their order,
/// where every record is storable.
pub proof fn lemma_ledger_reads_back(records: Seq<SongView>)
    requires
        forall|i: int| 0 <= i < records.len() ==> is_storable(#[trigger] records[i]),
    ensures
        records_of(lines_of(ledger_of(records))) == records,
{
    lemma_ledger_lines(records);
    lemma_record_lines_read_back(records);
}

/// A ledger that was appended to reads back as what it held before followed
/// by what was appended: nothing is lost and the order is kept.
pub proof fn lemma_appended_ledger_reads_back(first: Seq<SongView>, second: Seq<SongView>)
    requires
        forall|i: int| 0 <= i < first.len() ==> is_storable(#[trigger] first[i]),
        forall|i: int| 0 <= i < second.len() ==> is_storable(#[trigger] second[i]),
    ensures
        records_of(lines_of(ledger_of(first) + ledger_of(second))) == first + second,
{
    lemma_ledger_concat(first, second);
    lemma_ledger_reads_back(first + second);
}

} // verus!
