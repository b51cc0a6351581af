use song_sync::youtube::filesystem::{ledger_text, serialize_file, split_lines};
use song_sync::youtube::song::Song;
use std::io::BufRead;

fn record(url: &str, artist: &str, name: &str) -> Song {
    Song::new(url.to_string(), artist.to_string(), name.to_string())
}

#[test]
fn ledger_text_writes_one_line_per_record() {
    let songs = vec![
        Song::new("https://url1.com".into(), "Artist1".into(), "Title1".into()),
        Song::new("https://url2.com".into(), "Artist2".into(), "Title2".into()),
    ];
    let expected = "https://url1.com|Artist1|Title1\nhttps://url2.com|Artist2|Title2\n";
    assert_eq!(ledger_text(&songs), expected);
}

#[test]
fn ledger_of_no_records_is_empty() {
    assert_eq!(ledger_text(&Vec::new()), "");
}

#[test]
fn replaced_ledger_holds_only_the_last_records() {
    let a = record("https://a", "A", "Song A");
    let b = record("https://b", "B", "Song B");
    let first = ledger_text(&vec![a, b]);
    assert_eq!(serialize_file(split_lines(&first)).len(), 2);
    let second = ledger_text(&Vec::new());
    assert_eq!(second, "");
    assert_eq!(serialize_file(split_lines(&second)), Vec::<Song>::new());
}

#[test]
fn appended_ledger_holds_both_in_order() {
    let a = record("https://a", "A", "Song A");
    let b = record("https://b", "B", "Song B");
    let mut content = String::new();
    content.push_str(&ledger_text(&vec![a.clone()]));
    content.push_str(&ledger_text(&vec![b.clone()]));
    assert_eq!(content, "https://a|A|Song A\nhttps://b|B|Song B\n");
    assert_eq!(serialize_file(split_lines(&content)), vec![a, b]);
}

#[test]
fn appending_is_writing_the_records_together() {
    let a = record("u1", "a1", "n1");
    let b = record("u2", "a2", "n2");
    let c = record("u3", "a3", "n3|x");
    let mut appended = ledger_text(&vec![a.clone()]);
    appended.push_str(&ledger_text(&vec![b.clone(), c.clone()]));
    assert_eq!(appended, ledger_text(&vec![a, b, c]));
}

#[test]
fn ledger_reads_back_as_written() {
    let songs = vec![
        record("https://www.rust-lang.org/", "Rust", "Lang"),
        record("", "", ""),
        record("u", "", "title | with | bars"),
        record("ü", "Бах", "月光"),
    ];
    assert_eq!(serialize_file(split_lines(&ledger_text(&songs))), songs);
}

#[test]
fn split_lines_of_empty_text_is_empty() {
    assert_eq!(split_lines(""), Vec::<String>::new());
}

#[test]
fn split_lines_ends_lines_at_newlines() {
    assert_eq!(
        split_lines("www.url1.com|Artist1|Name1\nwww.url2.com|Artist2|Name2\n"),
        vec!["www.url1.com|Artist1|Name1", "www.url2.com|Artist2|Name2"]
    );
}

#[test]
fn split_lines_keeps_a_last_line_without_newline() {
    assert_eq!(split_lines("a\nb"), vec!["a", "b"]);
    assert_eq!(split_lines("a"), vec!["a"]);
}

#[test]
fn split_lines_keeps_empty_lines() {
    assert_eq!(split_lines("\n"), vec![""]);
    assert_eq!(split_lines("a\n\nb\n"), vec!["a", "", "b"]);
    assert_eq!(split_lines("\n\n"), vec!["", ""]);
}

#[test]
fn split_lines_drops_a_carriage_return_before_a_newline_only() {
    assert_eq!(split_lines("a\r\nb\r\n"), vec!["a", "b"]);
    assert_eq!(split_lines("a\r"), vec!["a\r"]);
    assert_eq!(split_lines("a\r\r\n"), vec!["a\r"]);
    assert_eq!(split_lines("\r\n"), vec![""]);
    assert_eq!(split_lines("a\rb\n"), vec!["a\rb"]);
}

#[test]
fn split_lines_agrees_with_the_standard_line_reader() {
    for text in ["", "a", "a\n", "a\nb", "\n", "\r\n", "a\r\nb\r", "x|y|z\n\n  \nq|r|s", "é\r\n月\n"] {
        let expected: Vec<String> = text.as_bytes().lines().map(|line| line.unwrap()).collect();
        assert_eq!(split_lines(text), expected);
    }
}
