//! The music provider: the track a music-player client reports as playing.
use vstd::prelude::*;
use crate::text::{chars_of, string_of};

verus! {

/// `s` without its last character, if it has one.
pub open spec fn without_last(s: Seq<char>) -> Seq<char> {
    if s.len() == 0 { s } else { s.drop_last() }
}

pub struct MusicInfo {
    data: Option<String>,
}

impl View for MusicInfo {
    /// The track last acquired, or `None` before any acquisition.
    type V = Option<Seq<char>>;

    closed spec fn view(&self) -> Option<Seq<char>> {
        match self.data {
            Some(d) => Some(d@),
            None => None,
        }
    }
}

/// The display of a music reading: the track, or `?` before any acquisition.
pub open spec fn music_text(v: Option<Seq<char>>) -> Seq<char> {
    match v {
        Some(d) => d,
        None => seq!['?'],
    }
}

impl MusicInfo {
    /// No track.
    pub fn new() -> (r: MusicInfo)
        ensures
            r@ == None::<Seq<char>>,
    {
        MusicInfo { data: None }
    }

    /// Takes the client's output, without its final character (the line
    /// end). Empty output is a valid answer: nothing is playing.
    pub fn get(&mut self, output: &str)
        ensures
            final(self)@ == Some(without_last(output@)),
    {
        let mut c = chars_of(output);
        if c.len() > 0 {
            c.pop();
        }
        self.data = Some(string_of(&c));
    }

    /// The track as reported, which is empty when nothing plays; `?` before
    /// any acquisition.
    pub fn format(&self) -> (r: String)
        ensures
            r@ == music_text(self@),
    {
        match &self.data {
            Some(d) => d.clone(),
            None => {
                let q = vec!['?'];
                assert(q@ =~= seq!['?']);
                string_of(&q)
            },
        }
    }
}

} // verus!
