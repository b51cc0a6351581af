use song_sync::youtube::filesystem::{parse_line, parse_record, serialize_file};
use song_sync::youtube::song::Song;

fn song(url: &str, artist: &str, name: &str) -> Song {
    Song::new(url.to_string(), artist.to_string(), name.to_string())
}

#[test]
fn serialize_file_from_good_strings() {
    let lines = vec![
        "https://www.rust-lang.org/|Rust|Lang".to_string(),
        "https://crates.io/|Crates|Io".to_string(),
    ];
    let songs = serialize_file(lines);

    assert_eq!(songs.len(), 2);

    assert_eq!(
        songs[0],
        Song::new(
            "https://www.rust-lang.org/".to_string(),
            "Rust".to_string(),
            "Lang".to_string()
        )
    );

    assert_eq!(
        songs[1],
        Song::new(
            "https://crates.io/".to_string(),
            "Crates".to_string(),
            "Io".to_string()
        )
    );
}

#[test]
fn serialize_file_with_empty_artist_strings() {
    let lines = vec!["https://www.rust-lang.org/||Lang".to_string()];
    let songs = serialize_file(lines);

    assert_eq!(songs.len(), 1);

    assert_eq!(
        songs[0],
        Song::new(
            "https://www.rust-lang.org/".to_string(),
            "".to_string(),
            "Lang".to_string()
        )
    );
}

#[test]
fn serialize_file_with_empty_url_strings() {
    let lines = vec!["|Rust|Lang".to_string()];
    let songs = serialize_file(lines);

    assert_eq!(songs.len(), 1);

    assert_eq!(
        songs[0],
        Song::new("".to_string(), "Rust".to_string(), "Lang".to_string())
    );
}

#[test]
fn serialize_file_with_empty_name_strings() {
    let lines = vec!["https://www.rust-lang.org/|Rust|".to_string()];
    let songs = serialize_file(lines);

    assert_eq!(songs.len(), 1);

    assert_eq!(
        songs[0],
        Song::new(
            "https://www.rust-lang.org/".to_string(),
            "Rust".to_string(),
            "".to_string()
        )
    );
}

#[test]
fn serialize_file_with_incomplete_strings() {
    let lines = vec!["https://www.rust-lang.org/|Rust".to_string()];
    let songs = serialize_file(lines);

    assert_eq!(songs.len(), 0);
}

#[test]
fn blank_lines_are_skipped_and_order_is_kept() {
    let lines = vec![
        "a|b|c".to_string(),
        "".to_string(),
        "  ".to_string(),
        "d|e|f".to_string(),
    ];
    let songs = serialize_file(lines);
    assert_eq!(songs, vec![song("a", "b", "c"), song("d", "e", "f")]);
}

#[test]
fn line_with_two_fields_is_dropped() {
    assert_eq!(serialize_file(vec!["x|y".to_string()]), Vec::<Song>::new());
}

#[test]
fn no_lines_give_no_records() {
    assert_eq!(serialize_file(Vec::new()), Vec::<Song>::new());
}

#[test]
fn title_keeps_further_delimiters() {
    let songs = serialize_file(vec!["u|a|one|two|three".to_string()]);
    assert_eq!(songs, vec![song("u", "a", "one|two|three")]);
}

#[test]
fn only_the_whole_line_is_trimmed() {
    let songs = serialize_file(vec!["  \t u | a | n \r\n".to_string()]);
    assert_eq!(songs, vec![song("u ", " a ", " n")]);
}

#[test]
fn unicode_white_space_is_trimmed() {
    let songs = serialize_file(vec!["\u{3000}\u{a0}u|a|n\u{2003}".to_string()]);
    assert_eq!(songs, vec![song("u", "a", "n")]);
}

#[test]
fn fields_may_hold_any_characters() {
    let songs = serialize_file(vec!["https://é.example/ü|Бах|月光 ソナタ".to_string()]);
    assert_eq!(songs, vec![song("https://é.example/ü", "Бах", "月光 ソナタ")]);
}

#[test]
fn two_delimiters_alone_are_an_empty_record() {
    assert_eq!(serialize_file(vec!["||".to_string()]), vec![song("", "", "")]);
}

#[test]
fn short_line_between_valid_lines_leaves_no_trace() {
    let with = serialize_file(vec![
        "a|b|c".to_string(),
        "no delimiter".to_string(),
        "one|delimiter".to_string(),
        "d|e|f".to_string(),
    ]);
    let without = serialize_file(vec!["a|b|c".to_string(), "d|e|f".to_string()]);
    assert_eq!(with, without);
    assert_eq!(with, vec![song("a", "b", "c"), song("d", "e", "f")]);
}

#[test]
fn parse_line_trims_and_parse_record_does_not() {
    assert_eq!(parse_line("  a|b|c  "), Some(song("a", "b", "c")));
    assert_eq!(parse_record("  a|b|c  "), Some(song("  a", "b", "c  ")));
    assert_eq!(parse_line("   "), None);
    assert_eq!(parse_record(""), None);
    assert_eq!(parse_record("a|b"), None);
}

#[test]
fn read_record_is_read_again_from_its_line() {
    for line in ["a|b|c", "  x|y|z|w ", "||", "|a|", " u |  | n\t"] {
        let first = parse_line(line).unwrap();
        let again = parse_line(&first.to_line()).unwrap();
        assert_eq!(first, again);
    }
}

#[test]
fn song_line_joins_the_fields() {
    assert_eq!(song("u", "a", "n").to_line(), "u|a|n");
    assert_eq!(song("", "", "").to_line(), "||");
    assert_eq!(song("u", "a", "n|m").to_line(), "u|a|n|m");
}

#[test]
fn song_clone_equals_the_original() {
    let original = song("u", "a", "n");
    assert_eq!(original.clone(), original);
    assert_ne!(song("u", "a", "n"), song("u", "a", "m"));
    assert_ne!(song("u", "a", "n"), song("u", "b", "n"));
    assert_ne!(song("u", "a", "n"), song("v", "a", "n"));
}
