use vstd::prelude::*;

verus! {

/// The mathematical value of a song: the author key and the title, both as
/// character sequences.
pub ghost struct SongView {
    pub author: Seq<char>,
    pub title: Seq<char>,
}

/// An authored item. The author is an opaque, equality-comparable key and the
/// title is arbitrary text; the repository performs no validation on either.
#[derive(Debug)]
pub struct Song {
    author: String,
    title: String,
}

impl View for Song {
    type V = SongView;

    closed spec fn view(&self) -> SongView {
        SongView { author: self.author@, title: self.title@ }
    }
}

impl Song {
    pub fn new(author: String, title: String) -> (r: Song)
        ensures
            r@ == (SongView { author: author@, title: title@ }),
    {
        Song { author, title }
    }

    pub fn author(&self) -> (r: String)
        ensures
            r@ == self@.author,
    {
        self.author.clone()
    }

    pub fn title(&self) -> (r: String)
        ensures
            r@ == self@.title,
    {
        self.title.clone()
    }
}

impl Clone for Song {
    fn clone(&self) -> (r: Song)
        ensures
            r@ == self@,
    {
        Song { author: self.author.clone(), title: self.title.clone() }
    }
}

impl PartialEq for Song {
    fn eq(&self, other: &Song) -> (r: bool) {
        self.author == other.author && self.title == other.title
    }
}

impl vstd::std_specs::cmp::PartialEqSpecImpl for Song {
    open spec fn obeys_eq_spec() -> bool {
        true
    }

    open spec fn eq_spec(&self, other: &Song) -> bool {
        self@ == other@
    }
}

} // verus!
