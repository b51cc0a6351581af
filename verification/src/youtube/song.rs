//! The song record and its one-line text form.

use vstd::prelude::*;
use vstd::std_specs::cmp::PartialEqSpecImpl;
use vstd::string::StringExecFns;

verus! {

/// The character that separates the three fields of a record line.
pub const DELIMITER: char = '|';

/// One song to download: where to get it, who performs it, what it is called.
#[derive(Debug)]
pub struct Song {
    pub url: String,
    pub artist: String,
    pub name: String,
}

/// The mathematical value of a [`Song`]: its three fields as character sequences.
pub struct SongView {
    pub url: Seq<char>,
    pub artist: Seq<char>,
    pub name: Seq<char>,
}

impl SongView {
    /// The record's line: the three fields joined by the delimiter.
    pub open spec fn line(self) -> Seq<char> {
        self.url + seq![DELIMITER] + self.artist + seq![DELIMITER] + self.name
    }

    /// Whether the first two fields are free of the delimiter, so that the
    /// record's line splits back into exactly these three fields.
    pub open spec fn is_separable(self) -> bool {
        !self.url.contains(DELIMITER) && !self.artist.contains(DELIMITER)
    }
}

impl View for Song {
    type V = SongView;

    open spec fn view(&self) -> SongView {
        SongView { url: self.url@, artist: self.artist@, name: self.name@ }
    }
}

/// The values of a sequence of songs, in order.
pub open spec fn song_views(songs: Seq<Song>) -> Seq<SongView> {
    songs.map_values(|song: Song| song@)
}

impl Song {
    /// Builds a record from its three fields, which are kept verbatim.
    pub fn new(url: String, artist: String, name: String) -> (song: Self)
        ensures
            song.url == url,
            song.artist == artist,
            song.name == name,
            song@ == (SongView { url: url@, artist: artist@, name: name@ }),
    {
        Self { url, artist, name }
    }

    /// The record's line, without a line terminator.
    pub fn to_line(&self) -> (line: String)
        ensures
            line@ == self@.line(),
    {
        let mut line = self.url.clone();
        line.append("|");
        line.append(self.artist.as_str());
        line.append("|");
        line.append(self.name.as_str());
        proof {
            reveal_strlit("|");
            assert("|"@ == seq![DELIMITER]);
        }
        line
    }
}

impl Clone for Song {
    fn clone(&self) -> (copy: Self)
        ensures
            copy == *self,
    {
        Self { url: self.url.clone(), artist: self.artist.clone(), name: self.name.clone() }
    }
}

impl PartialEq for Song {
    fn eq(&self, other: &Self) -> (equal: bool) {
        self.url == other.url && self.artist == other.artist && self.name == other.name
    }
}

impl PartialEqSpecImpl for Song {
    open spec fn obeys_eq_spec() -> bool {
        true
    }

    open spec fn eq_spec(&self, other: &Self) -> bool {
        self@ == other@
    }
}

} // verus!
