use vstd::prelude::*;
use crate::model::{by_author_of, RepoView, RECENT_CAPACITY};
use crate::repository::{views_of, RepositoryImpl};
use crate::song::{Song, SongView};

verus! {

/// The deployed aggregate: it owns the repository state and forwards every
/// call to it.
pub struct Contract {
    song_repo: RepositoryImpl,
}

impl View for Contract {
    type V = RepoView;

    closed spec fn view(&self) -> RepoView {
        self.song_repo@
    }
}

impl Default for Contract {
    /// The state installed at deployment: a fresh repository.
    fn default() -> (r: Contract)
        ensures
            r.wf(),
            r@ == RepoView::init_spec(),
    {
        Contract { song_repo: RepositoryImpl::new() }
    }
}

impl Contract {
    /// Structural well-formedness of the owned repository.
    pub closed spec fn wf(self) -> bool {
        self.song_repo.wf()
    }

    /// The number of songs ever added.
    pub fn count_songs(&self) -> (r: u64)
        ensures
            r == self@.count,
    {
        self.song_repo.count()
    }

    /// Record one song under the identity of the caller: the author is the
    /// account that signed the transaction and the slot is chosen by the
    /// external counter, both read from the host.
    pub fn add_song(&mut self, title: String)
        requires
            old(self).wf(),
            old(self)@.count < u64::MAX,
        ensures
            final(self).wf(),
            exists|author: Seq<char>, c: u64|
                final(self)@ == old(self)@.add_spec(
                    SongView { author: author, title: title@ },
                    c,
                ),
            final(self)@.count == old(self)@.count + 1,
    {
        let author = crate::host::signer_account_id();
        let song = Song::new(author, title);
        self.song_repo.add(song);
        proof {
            let c = choose|c: u64| self@ == old(self)@.add_spec(song@, c);
            assert(self@ == old(self)@.add_spec(
                SongView { author: song@.author, title: title@ },
                c,
            ));
        }
    }

    /// Record a batch of songs, one `add` per element in sequence: the count
    /// grows by the batch size and every author's sequence grows by exactly
    /// that author's songs of the batch, in order.
    pub fn add_many_songs(&mut self, songs: Vec<Song>)
        requires
            old(self).wf(),
            old(self)@.count + songs@.len() <= u64::MAX,
        ensures
            final(self).wf(),
            final(self)@.count == old(self)@.count + songs@.len(),
            forall|a: Seq<char>|
                final(self)@.songs_of(a) == old(self)@.songs_of(a) + by_author_of(
                    views_of(songs@),
                    a,
                ),
            final(self)@.recent.len() == RECENT_CAPACITY,
    {
        let n = songs.len();
        let mut i: usize = 0;
        while i < n
            invariant
                n == songs@.len(),
                i <= n,
                self.wf(),
                old(self)@.count + songs@.len() <= u64::MAX,
                self@.count == old(self)@.count + i,
                forall|a: Seq<char>|
                    self@.songs_of(a) == old(self)@.songs_of(a) + by_author_of(
                        views_of(songs@.take(i as int)),
                        a,
                    ),
            decreases n - i,
        {
            let ghost mid = self@;
            let song = &songs[i];
            self.song_repo.add(song.clone());
            proof {
                crate::repository::lemma_views_of_take_snoc(songs@, i as int);
                assert forall|a: Seq<char>|
                    self@.songs_of(a) == old(self)@.songs_of(a) + by_author_of(
                        views_of(songs@.take(i as int + 1)),
                        a,
                    ) by {
                    crate::model::lemma_by_author_of_snoc(
                        views_of(songs@.take(i as int)),
                        songs@[i as int]@,
                        a,
                    );
                    if a == songs@[i as int]@.author {
                        assert(self@.songs_of(a) == mid.songs_of(a).push(songs@[i as int]@));
                        assert(old(self)@.songs_of(a) + by_author_of(
                            views_of(songs@.take(i as int)),
                            a,
                        ).push(songs@[i as int]@) =~= (old(self)@.songs_of(a) + by_author_of(
                            views_of(songs@.take(i as int)),
                            a,
                        )).push(songs@[i as int]@));
                    } else {
                        assert(self@.songs_of(a) == mid.songs_of(a));
                    }
                }
            }
            i = i + 1;
        }
        proof {
            assert(songs@.take(n as int) =~= songs@);
            crate::repository::lemma_wf_view(self.song_repo);
        }
    }

    /// The recorded sequence for an author, in insertion order.
    pub fn get_songs_by_author(&self, author: String) -> (r: Vec<Song>)
        requires
            self.wf(),
        ensures
            views_of(r@) == self@.songs_of(author@),
    {
        self.song_repo.get_by_author(author)
    }

    /// A snapshot of the recency buffer in slot order, always
    /// `RECENT_CAPACITY` songs long.
    pub fn get_recently_added_songs(&self) -> (r: Vec<Song>)
        requires
            self.wf(),
        ensures
            views_of(r@) == self@.recent,
            r@.len() == RECENT_CAPACITY,
    {
        self.song_repo.get_recently_added()
    }
}

} // verus!
