use vstd::prelude::*;
use vstd::pervasive::VecAdditionalExecFns;
use crate::model::{RepoView, RECENT_CAPACITY};
use crate::song::{Song, SongView};

verus! {

/// One bucket of the per-author index: an author key together with every
/// song recorded under it, in insertion order.
struct AuthorEntry {
    author: String,
    songs: Vec<Song>,
}

/// The views of a sequence of songs, element for element.
pub open spec fn views_of(songs: Seq<Song>) -> Seq<SongView> {
    songs.map_values(|s: Song| s@)
}

/// The per-author index held by a sequence of buckets, as a map from author
/// key to recorded song views.
spec fn entries_map(entries: Seq<AuthorEntry>) -> Map<Seq<char>, Seq<SongView>>
    decreases entries.len(),
{
    if entries.len() == 0 {
        Map::empty()
    } else {
        entries_map(entries.drop_last()).insert(
            entries.last().author@,
            views_of(entries.last().songs@),
        )
    }
}

/// Pairwise distinct author keys across the buckets.
spec fn entries_unique(entries: Seq<AuthorEntry>) -> bool {
    forall|i: int, j: int|
        0 <= i < j < entries.len() ==> entries[i].author@ != entries[j].author@
}

proof fn lemma_entries_map_no_key(entries: Seq<AuthorEntry>, author: Seq<char>)
    requires
        forall|i: int| 0 <= i < entries.len() ==> entries[i].author@ != author,
    ensures
        !entries_map(entries).contains_key(author),
    decreases entries.len(),
{
    if entries.len() > 0 {
        assert(entries.last().author@ != author);
        lemma_entries_map_no_key(entries.drop_last(), author);
    }
}

proof fn lemma_entries_map_at(entries: Seq<AuthorEntry>, i: int)
    requires
        entries_unique(entries),
        0 <= i < entries.len(),
    ensures
        entries_map(entries).contains_key(entries[i].author@),
        entries_map(entries)[entries[i].author@] == views_of(entries[i].songs@),
    decreases entries.len(),
{
    if i < entries.len() - 1 {
        assert(entries.drop_last()[i] == entries[i]);
        lemma_entries_map_at(entries.drop_last(), i);
        assert(entries.last().author@ != entries[i].author@);
    }
}

proof fn lemma_entries_map_update(entries: Seq<AuthorEntry>, i: int, entry: AuthorEntry)
    requires
        entries_unique(entries),
        0 <= i < entries.len(),
        entry.author@ == entries[i].author@,
    ensures
        entries_map(entries.update(i, entry)) == entries_map(entries).insert(
            entry.author@,
            views_of(entry.songs@),
        ),
    decreases entries.len(),
{
    let updated = entries.update(i, entry);
    if i == entries.len() - 1 {
        assert(updated.drop_last() =~= entries.drop_last());
        assert(updated.last() == entry);
        assert(entries_map(updated) =~= entries_map(entries).insert(
            entry.author@,
            views_of(entry.songs@),
        ));
    } else {
        assert(updated.drop_last() =~= entries.drop_last().update(i, entry));
        assert(updated.last() == entries.last());
        assert(entries.drop_last()[i] == entries[i]);
        lemma_entries_map_update(entries.drop_last(), i, entry);
        assert(entries.last().author@ != entry.author@);
        assert(entries_map(updated) =~= entries_map(entries).insert(
            entry.author@,
            views_of(entry.songs@),
        ));
    }
}

proof fn lemma_views_of_update(songs: Seq<Song>, i: int, song: Song)
    requires
        0 <= i < songs.len(),
    ensures
        views_of(songs.update(i, song)) == views_of(songs).update(i, song@),
{
    assert(views_of(songs.update(i, song)) =~= views_of(songs).update(i, song@));
}

/// One more element taken from a song list extends the taken views by that
/// element's view.
pub proof fn lemma_views_of_take_snoc(songs: Seq<Song>, i: int)
    requires
        0 <= i < songs.len(),
    ensures
        views_of(songs.take(i + 1)) == views_of(songs.take(i)).push(songs[i]@),
{
    assert(views_of(songs.take(i + 1)) =~= views_of(songs.take(i)).push(songs[i]@));
}

proof fn lemma_views_of_push(songs: Seq<Song>, song: Song)
    ensures
        views_of(songs.push(song)) == views_of(songs).push(song@),
{
    assert(views_of(songs.push(song)) =~= views_of(songs).push(song@));
}

/// The storage and indexing component: total count, per-author index, and
/// the fixed-capacity recency buffer under the deterministic modulo
/// replacement rule.
pub struct RepositoryImpl {
    count: u64,
    entries: Vec<AuthorEntry>,
    recently_added: Vec<Song>,
}

impl View for RepositoryImpl {
    type V = RepoView;

    closed spec fn view(&self) -> RepoView {
        RepoView {
            count: self.count as int,
            by_author: entries_map(self.entries@),
            recent: views_of(self.recently_added@),
        }
    }
}

impl RepositoryImpl {
    /// Structural well-formedness: the recency buffer is fully populated and
    /// the index has one bucket per author.
    pub closed spec fn wf(self) -> bool {
        &&& self.recently_added@.len() == RECENT_CAPACITY
        &&& entries_unique(self.entries@)
    }

    /// A fresh repository: zero songs counted, an empty index, and the
    /// recency buffer filled with the ten placeholder songs.
    pub fn new() -> (r: RepositoryImpl)
        ensures
            r.wf(),
            r@ == RepoView::init_spec(),
    {
        let sentinel = "berry.testnet";
        let mut recently_added: Vec<Song> = Vec::new();
        recently_added.push(Song::new(String::from_str(sentinel), String::from_str("Song 1")));
        recently_added.push(Song::new(String::from_str(sentinel), String::from_str("Song 2")));
        recently_added.push(Song::new(String::from_str(sentinel), String::from_str("Song 3")));
        recently_added.push(Song::new(String::from_str(sentinel), String::from_str("Song 4")));
        recently_added.push(Song::new(String::from_str(sentinel), String::from_str("Song 5")));
        recently_added.push(Song::new(String::from_str(sentinel), String::from_str("Song 6")));
        recently_added.push(Song::new(String::from_str(sentinel), String::from_str("Song 7")));
        recently_added.push(Song::new(String::from_str(sentinel), String::from_str("Song 8")));
        recently_added.push(Song::new(String::from_str(sentinel), String::from_str("Song 9")));
        recently_added.push(Song::new(String::from_str(sentinel), String::from_str("Song 10")));
        let r = RepositoryImpl { count: 0, entries: Vec::new(), recently_added };
        proof {
            assert(entries_map(r.entries@) =~= Map::<Seq<char>, Seq<SongView>>::empty());
            assert(views_of(r.recently_added@) =~= RepoView::initial_recent());
            assert(r@ =~~= RepoView::init_spec());
        }
        r
    }

    /// The number of songs ever added; placeholders are not counted.
    pub fn count(&self) -> (r: u64)
        ensures
            r == self@.count,
    {
        self.count
    }

    /// One `add` under a caller-supplied value of the external monotonic
    /// counter: overwrite slot `counter % RECENT_CAPACITY`, append to the
    /// author's sequence, and count the song.
    pub fn add_with_counter(&mut self, song: Song, counter: u64)
        requires
            old(self).wf(),
            old(self)@.count < u64::MAX,
        ensures
            final(self).wf(),
            final(self)@ == old(self)@.add_spec(song@, counter),
    {
        let ghost prior = self@;
        let idx = (counter % (RECENT_CAPACITY as u64)) as usize;
        self.recently_added.set(idx, song.clone());
        proof {
            lemma_views_of_update(old(self).recently_added@, idx as int, song);
            assert(views_of(self.recently_added@) == prior.recent.update(
                counter as int % (RECENT_CAPACITY as int),
                song@,
            ));
        }
        let author = song.author();
        if let Some(j) = find_author(&self.entries, &author) {
            let ghost before = self.entries@;
            let mut entry = self.entries.remove(j);
            entry.songs.push(song);
            self.entries.insert(j, entry);
            proof {
                let ji = j as int;
                let updated = before.update(ji, self.entries@[ji]);
                assert(self.entries@ =~= updated);
                lemma_views_of_push(before[ji].songs@, song);
                lemma_entries_map_at(before, ji);
                assert(prior.songs_of(song@.author) == views_of(before[ji].songs@));
                lemma_entries_map_update(before, ji, self.entries@[ji]);
                assert forall|a: int, b: int|
                    0 <= a < b < self.entries@.len() implies self.entries@[a].author@
                    != self.entries@[b].author@ by {
                    assert(before[a].author@ != before[b].author@);
                }
            }
        } else {
            let mut songs: Vec<Song> = Vec::new();
            songs.push(song);
            let ghost before = self.entries@;
            self.entries.push(AuthorEntry { author, songs });
            proof {
                let pushed = self.entries@;
                assert(pushed.drop_last() =~= before);
                assert(pushed.last().author@ == author@);
                lemma_entries_map_no_key(before, author@);
                assert(prior.songs_of(author@) == Seq::<SongView>::empty());
                assert(views_of(pushed.last().songs@) =~= prior.songs_of(author@).push(song@));
                assert forall|a: int, b: int|
                    0 <= a < b < pushed.len() implies pushed[a].author@ != pushed[b].author@ by {
                    if b < pushed.len() - 1 {
                        assert(before[a].author@ != before[b].author@);
                    } else {
                        assert(before[a].author@ != author@);
                    }
                }
            }
        }
        self.count = self.count + 1;
        proof {
            assert(self@.by_author =~= prior.add_spec(song@, counter).by_author);
            assert(self@ =~~= prior.add_spec(song@, counter));
        }
    }

    /// One `add` as driven by the environment: the slot is chosen by the
    /// current value of the host's monotonic counter, which this function
    /// reads itself; everything else is as `add_with_counter` for that value.
    pub fn add(&mut self, song: Song)
        requires
            old(self).wf(),
            old(self)@.count < u64::MAX,
        ensures
            final(self).wf(),
            exists|c: u64| final(self)@ == old(self)@.add_spec(song@, c),
            final(self)@.count == old(self)@.count + 1,
            final(self)@.songs_of(song@.author) == old(self)@.songs_of(song@.author).push(song@),
            forall|a: Seq<char>|
                a != song@.author ==> final(self)@.songs_of(a) == old(self)@.songs_of(a),
    {
        let c = crate::host::block_height();
        self.add_with_counter(song, c);
        proof {
            assert(self@ == old(self)@.add_spec(song@, c));
        }
    }

    /// The full recorded sequence for an author, in insertion order; empty
    /// for an author never seen.
    pub fn get_by_author(&self, author: String) -> (r: Vec<Song>)
        requires
            self.wf(),
        ensures
            views_of(r@) == self@.songs_of(author@),
    {
        if let Some(j) = find_author(&self.entries, &author) {
            proof {
                lemma_entries_map_at(self.entries@, j as int);
            }
            clone_songs(&self.entries[j].songs)
        } else {
            proof {
                lemma_entries_map_no_key(self.entries@, author@);
                assert(views_of(Seq::<Song>::empty()) =~= Seq::<SongView>::empty());
            }
            Vec::new()
        }
    }

    /// A snapshot of the recency buffer in slot order; always exactly
    /// `RECENT_CAPACITY` songs.
    pub fn get_recently_added(&self) -> (r: Vec<Song>)
        requires
            self.wf(),
        ensures
            views_of(r@) == self@.recent,
            r@.len() == RECENT_CAPACITY,
    {
        clone_songs(&self.recently_added)
    }
}

/// A well-formed repository presents a well-formed abstract state: its
/// recency buffer holds exactly `RECENT_CAPACITY` songs.
pub proof fn lemma_wf_view(r: RepositoryImpl)
    requires
        r.wf(),
    ensures
        r@.wf(),
{
}

/// The position of the bucket recorded for `author`, if there is one.
fn find_author(entries: &Vec<AuthorEntry>, author: &String) -> (r: Option<usize>)
    ensures
        match r {
            Some(j) => j < entries@.len() && entries@[j as int].author@ == author@,
            None => forall|k: int| 0 <= k < entries@.len() ==> entries@[k].author@ != author@,
        },
{
    let n = entries.len();
    let mut j: usize = 0;
    while j < n
        invariant
            n == entries@.len(),
            j <= n,
            forall|k: int| 0 <= k < j ==> entries@[k].author@ != author@,
        decreases n - j,
    {
        if entries[j].author == *author {
            return Some(j);
        }
        j = j + 1;
    }
    None
}

/// An element-for-element copy of a song list.
fn clone_songs(songs: &Vec<Song>) -> (r: Vec<Song>)
    ensures
        views_of(r@) == views_of(songs@),
        r@.len() == songs@.len(),
{
    let mut r: Vec<Song> = Vec::new();
    let mut k: usize = 0;
    while k < songs.len()
        invariant
            k <= songs@.len(),
            views_of(r@) == views_of(songs@).take(k as int),
        decreases songs@.len() - k,
    {
        let ghost before = r@;
        r.push(songs[k].clone());
        proof {
            lemma_views_of_push(before, songs@[k as int]);
            assert(views_of(songs@).take(k as int).push(views_of(songs@)[k as int])
                =~= views_of(songs@).take(k as int + 1));
        }
        k = k + 1;
    }
    proof {
        assert(views_of(songs@).take(songs@.len() as int) =~= views_of(songs@));
    }
    r
}

} // verus!
