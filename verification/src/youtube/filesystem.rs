//! The song list and the two ledgers: their text format, lines of
//! `url|artist|name`, read leniently and written one record per line, and
//! the file steps by which they are read, replaced and appended to.

use crate::common::files::{step_views, FileStep, FileStepView};
use crate::common::text::{
    find_from, lemma_position, line_views, position, to_chars, trim, trimmed,
};
use crate::youtube::song::{song_views, Song, SongView, DELIMITER};
use vstd::prelude::*;
use vstd::string::{StrSliceExecFns, StringExecFns};

verus! {

/// The character that ends each line of a ledger.
pub const NEWLINE: char = '\n';

/// The record that a trimmed line holds: the text before the first delimiter,
/// the text between the first and the second, and all that follows the second,
/// further delimiters included. A line with fewer than two delimiters holds none.
pub open spec fn record_of(line: Seq<char>) -> Option<SongView> {
    let first = position(line, DELIMITER);
    let rest = line.skip(first + 1);
    let second = position(rest, DELIMITER);
    if first >= line.len() || second >= rest.len() {
        None
    } else {
        Some(SongView { url: line.take(first), artist: rest.take(second), name: rest.skip(second + 1) })
    }
}

/// The record that a raw line holds: that of the line without its leading and
/// trailing white space. A blank line holds none.
pub open spec fn line_record(line: Seq<char>) -> Option<SongView> {
    record_of(trimmed(line))
}

/// The records of the lines that hold one, in the order of the lines.
pub open spec fn records_of(lines: Seq<Seq<char>>) -> Seq<SongView>
    decreases lines.len(),
{
    if lines.len() == 0 {
        Seq::empty()
    } else {
        let before = records_of(lines.drop_last());
        match line_record(lines.last()) {
            Some(record) => before.push(record),
            None => before,
        }
    }
}

/// The text of a ledger that holds `records`: each record's line, each ended
/// by a newline.
pub open spec fn ledger_of(records: Seq<SongView>) -> Seq<char>
    decreases records.len(),
{
    if records.len() == 0 {
        Seq::empty()
    } else {
        ledger_of(records.drop_last()) + records.last().line() + seq![NEWLINE]
    }
}

/// `line` without the carriage return that it may end in.
pub open spec fn without_carriage_return(line: Seq<char>) -> Seq<char> {
    if line.len() > 0 && line.last() == '\r' {
        line.drop_last()
    } else {
        line
    }
}

/// The lines of `text`. Each newline ends a line, and a carriage return just
/// before it belongs to the line ending. Text after the last newline is a line
/// of its own, kept as it is; after a final newline no empty line follows.
pub open spec fn lines_of(text: Seq<char>) -> Seq<Seq<char>>
    decreases text.len(),
    via lines_of_decreases
{
    let end = position(text, NEWLINE);
    if text.len() == 0 {
        Seq::empty()
    } else if end >= text.len() {
        seq![text]
    } else {
        seq![without_carriage_return(text.take(end))] + lines_of(text.skip(end + 1))
    }
}

#[via_fn]
proof fn lines_of_decreases(text: Seq<char>) {
    lemma_position(text, NEWLINE);
}

/// Reads the record of a line that has already been trimmed.
pub fn parse_record(line: &str) -> (record: Option<Song>)
    ensures
        match record {
            Some(song) => record_of(line@) == Some(song@),
            None => record_of(line@) is None,
        },
{
    let chars = to_chars(line);
    let n = chars.len();
    let first = find_from(&chars, 0, DELIMITER);
    assert(chars@.skip(0) =~= line@);
    if first >= n {
        return None;
    }
    let second = find_from(&chars, first + 1, DELIMITER);
    if second >= n {
        return None;
    }
    let url = line.substring_char(0, first);
    let artist = line.substring_char(first + 1, second);
    let name = line.substring_char(second + 1, n);
    proof {
        let rest = line@.skip(first + 1);
        assert(line@.subrange(0, first as int) =~= line@.take(first as int));
        assert(line@.subrange(first + 1, second as int) =~= rest.take(second - first - 1));
        assert(line@.subrange(second + 1, n as int) =~= rest.skip(second - first));
    }
    Some(Song::new(String::from_str(url), String::from_str(artist), String::from_str(name)))
}

/// Reads the record of a raw line: trims it, then reads the record.
pub fn parse_line(line: &str) -> (record: Option<Song>)
    ensures
        match record {
            Some(song) => line_record(line@) == Some(song@),
            None => line_record(line@) is None,
        },
{
    parse_record(trim(line))
}

/// Turns the lines of a song list into records. Lines that are blank or hold
/// fewer than three fields are passed over; the others keep their order.
pub fn serialize_file(lines: Vec<String>) -> (songs: Vec<Song>)
    ensures
        song_views(songs@) == records_of(line_views(lines@)),
{
    let mut songs: Vec<Song> = Vec::new();
    let n = lines.len();
    let mut i: usize = 0;
    assert(line_views(lines@).take(0) =~= Seq::<Seq<char>>::empty());
    assert(song_views(songs@) =~= Seq::<SongView>::empty());
    while i < n
        invariant
            n == lines.len(),
            i <= n,
            song_views(songs@) == records_of(line_views(lines@).take(i as int)),
        decreases n - i,
    {
        let ghost before = song_views(songs@);
        let record = parse_line(lines[i].as_str());
        proof {
            let all = line_views(lines@);
            assert(all.take(i + 1).drop_last() =~= all.take(i as int));
            assert(all.take(i + 1).last() == lines@[i as int]@);
        }
        match record {
            Some(song) => {
                songs.push(song);
                assert(song_views(songs@) =~= before.push(song@));
            },
            None => {},
        }
        i += 1;
    }
    assert(line_views(lines@).take(n as int) =~= line_views(lines@));
    songs
}

/// The text of a ledger that holds `songs`: one line per song, in order.
pub fn ledger_text(songs: &Vec<Song>) -> (text: String)
    ensures
        text@ == ledger_of(song_views(songs@)),
{
    let mut text = String::new();
    let n = songs.len();
    let mut i: usize = 0;
    assert(song_views(songs@).take(0) =~= Seq::<SongView>::empty());
    while i < n
        invariant
            n == songs.len(),
            i <= n,
            text@ == ledger_of(song_views(songs@).take(i as int)),
        decreases n - i,
    {
        let line = songs[i].to_line();
        proof {
            let all = song_views(songs@);
            assert(all.take(i + 1).drop_last() =~= all.take(i as int));
            assert(all.take(i + 1).last() == songs@[i as int]@);
            reveal_strlit("\n");
            assert("\n"@ =~= seq![NEWLINE]);
        }
        text.append(line.as_str());
        text.append("\n");
        i += 1;
    }
    assert(song_views(songs@).take(n as int) =~= song_views(songs@));
    text
}

/// The lines of `text`, without their line endings.
pub fn split_lines(text: &str) -> (lines: Vec<String>)
    ensures
        line_views(lines@) == lines_of(text@),
{
    let chars = to_chars(text);
    let n = chars.len();
    let mut lines: Vec<String> = Vec::new();
    let mut start: usize = 0;
    assert(text@.skip(0) =~= text@);
    assert(line_views(lines@) =~= Seq::<Seq<char>>::empty());
    while start < n
        invariant
            n == chars.len(),
            chars@ == text@,
            start <= n,
            line_views(lines@) + lines_of(text@.skip(start as int)) == lines_of(text@),
        decreases n - start,
    {
        let ghost before = line_views(lines@);
        let ghost tail = text@.skip(start as int);
        let end = find_from(&chars, start, NEWLINE);
        if end >= n {
            let line = text.substring_char(start, n);
            lines.push(String::from_str(line));
            proof {
                assert(text@.subrange(start as int, n as int) =~= tail);
                assert(line_views(lines@) =~= before.push(tail));
                assert(text@.skip(n as int) =~= Seq::<char>::empty());
                assert(before.push(tail) + Seq::<Seq<char>>::empty() =~= before + seq![tail]);
            }
            start = n;
        } else {
            let stop = if end > start && chars[end - 1] == '\r' {
                end - 1
            } else {
                end
            };
            let line = text.substring_char(start, stop);
            lines.push(String::from_str(line));
            proof {
                let whole = tail.take(end - start);
                assert(whole =~= text@.subrange(start as int, end as int));
                if end > start {
                    assert(whole.last() == chars@[end - 1]);
                }
                assert(line@ =~= without_carriage_return(whole));
                assert(tail.skip(end - start + 1) =~= text@.skip(end + 1));
                assert(line_views(lines@) =~= before.push(line@));
                assert(before.push(line@) + lines_of(text@.skip(end + 1)) =~= before + (seq![
                    line@,
                ] + lines_of(text@.skip(end + 1))));
            }
            start = end + 1;
        }
    }
    proof {
        assert(text@.skip(n as int) =~= Seq::<char>::empty());
        assert(line_views(lines@) + Seq::<Seq<char>>::empty() =~= line_views(lines@));
    }
    lines
}

/// The steps that replace the ledger at `target` by `records`: the whole text
/// is written to the file at `staging`, which is then renamed over the target.
pub open spec fn replace_steps(records: Seq<SongView>, target: Seq<char>, staging: Seq<char>) -> Seq<
    FileStepView,
> {
    seq![
        FileStepView::Write { path: staging, text: ledger_of(records) },
        FileStepView::Rename { from: staging, to: target },
    ]
}

/// The one step that appends `records` to the ledger at `target`.
pub open spec fn append_steps(records: Seq<SongView>, target: Seq<char>) -> Seq<FileStepView> {
    seq![FileStepView::Append { path: target, text: ledger_of(records) }]
}

/// The step that creates the song list at `path` empty.
pub open spec fn create_steps(path: Seq<char>) -> Seq<FileStepView> {
    seq![FileStepView::Write { path, text: Seq::empty() }]
}

/// The lines of the song list at `path`, given the text of the file where it
/// exists, and the steps to take before going on. A list that does not exist
/// is no error: it has no lines, and it is created empty.
pub fn read_songs(found: Option<&str>, path: &str) -> (read: (Vec<String>, Vec<FileStep>))
    ensures
        match found {
            Some(text) => {
                &&& line_views(read.0@) == lines_of(text@)
                &&& step_views(read.1@) == Seq::<FileStepView>::empty()
            },
            None => {
                &&& line_views(read.0@) == Seq::<Seq<char>>::empty()
                &&& step_views(read.1@) == create_steps(path@)
            },
        },
{
    match found {
        Some(text) => {
            let steps: Vec<FileStep> = Vec::new();
            assert(step_views(steps@) =~= Seq::<FileStepView>::empty());
            (split_lines(text), steps)
        },
        None => {
            let lines: Vec<String> = Vec::new();
            let mut steps: Vec<FileStep> = Vec::new();
            steps.push(FileStep::Write { path: String::from_str(path), text: String::new() });
            assert(line_views(lines@) =~= Seq::<Seq<char>>::empty());
            assert(step_views(steps@) =~= create_steps(path@));
            (lines, steps)
        },
    }
}

/// The steps that make the retry list at `path` hold exactly `songs`, through
/// the file at `staging`. An empty list of songs is written all the same, and
/// leaves an empty retry list.
pub fn add_failed_downloads(songs: &Vec<Song>, path: &str, staging: &str) -> (steps: Vec<FileStep>)
    ensures
        step_views(steps@) == replace_steps(song_views(songs@), path@, staging@),
{
    let mut steps: Vec<FileStep> = Vec::new();
    steps.push(FileStep::Write { path: String::from_str(staging), text: ledger_text(songs) });
    steps.push(FileStep::Rename { from: String::from_str(staging), to: String::from_str(path) });
    assert(step_views(steps@) =~= replace_steps(song_views(songs@), path@, staging@));
    steps
}

/// The step that adds `songs` at the end of the historic ledger at
/// `historic_file_name`, which is created where it does not exist.
pub fn add_success_downloads(songs: &Vec<Song>, historic_file_name: &str) -> (steps: Vec<FileStep>)
    ensures
        step_views(steps@) == append_steps(song_views(songs@), historic_file_name@),
{
    let mut steps: Vec<FileStep> = Vec::new();
    steps.push(
        FileStep::Append { path: String::from_str(historic_file_name), text: ledger_text(songs) },
    );
    assert(step_views(steps@) =~= append_steps(song_views(songs@), historic_file_name@));
    steps
}

} // verus!
