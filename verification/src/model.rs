use vstd::prelude::*;
use crate::song::SongView;

verus! {

/// Number of slots in the "recently added" buffer.
pub const RECENT_CAPACITY: usize = 10;

/// The abstract state of the repository: the number of songs ever added, the
/// per-author index (present keys map to the non-empty sequence of that
/// author's songs in call order), and the recency buffer in slot order.
pub ghost struct RepoView {
    pub count: int,
    pub by_author: Map<Seq<char>, Seq<SongView>>,
    pub recent: Seq<SongView>,
}

/// The subsequence of `songs` whose author is `author`, in order.
pub open spec fn by_author_of(songs: Seq<SongView>, author: Seq<char>) -> Seq<SongView>
    decreases songs.len(),
{
    if songs.len() == 0 {
        Seq::empty()
    } else if songs[0].author == author {
        seq![songs[0]] + by_author_of(songs.drop_first(), author)
    } else {
        by_author_of(songs.drop_first(), author)
    }
}

impl RepoView {
    /// The recorded sequence for an author; empty when the author was never
    /// seen.
    pub open spec fn songs_of(self, author: Seq<char>) -> Seq<SongView> {
        if self.by_author.contains_key(author) {
            self.by_author[author]
        } else {
            Seq::empty()
        }
    }

    /// Effect of one `add` under external counter value `counter`: the slot
    /// `counter % RECENT_CAPACITY` of the recency buffer is overwritten, the
    /// song is appended to its author's sequence, and the count grows by one.
    pub open spec fn add_spec(self, song: SongView, counter: u64) -> RepoView {
        RepoView {
            count: self.count + 1,
            by_author: self.by_author.insert(song.author, self.songs_of(song.author).push(song)),
            recent: self.recent.update(counter as int % (RECENT_CAPACITY as int), song),
        }
    }

    /// State after a whole sequence of `add` calls, each paired with the
    /// counter value the environment supplied for it.
    pub open spec fn add_all(self, calls: Seq<(SongView, u64)>) -> RepoView
        decreases calls.len(),
    {
        if calls.len() == 0 {
            self
        } else {
            self.add_spec(calls[0].0, calls[0].1).add_all(calls.drop_first())
        }
    }

    /// The title of the placeholder song initially installed in slot `i`.
    pub open spec fn placeholder_title(i: int) -> Seq<char> {
        if i == 0 {
            "Song 1"@
        } else if i == 1 {
            "Song 2"@
        } else if i == 2 {
            "Song 3"@
        } else if i == 3 {
            "Song 4"@
        } else if i == 4 {
            "Song 5"@
        } else if i == 5 {
            "Song 6"@
        } else if i == 6 {
            "Song 7"@
        } else if i == 7 {
            "Song 8"@
        } else {
            if i == 8 {
                "Song 9"@
            } else {
                "Song 10"@
            }
        }
    }

    /// The sentinel author the placeholder songs are attributed to.
    pub open spec fn placeholder_author() -> Seq<char> {
        "berry.testnet"@
    }

    /// The recency buffer as installed at deployment: fully populated with
    /// sequentially titled placeholder songs of the sentinel author.
    pub open spec fn initial_recent() -> Seq<SongView> {
        Seq::new(
            RECENT_CAPACITY as nat,
            |i: int|
                SongView {
                    author: Self::placeholder_author(),
                    title: Self::placeholder_title(i),
                },
        )
    }

    /// The state created at deployment: nothing counted, an empty index, and
    /// the placeholder recency buffer.
    pub open spec fn init_spec() -> RepoView {
        RepoView { count: 0, by_author: Map::empty(), recent: Self::initial_recent() }
    }

    /// Basic shape of a well-formed state: the recency buffer always holds
    /// exactly `RECENT_CAPACITY` songs.
    pub open spec fn wf(self) -> bool {
        self.recent.len() == RECENT_CAPACITY
    }
}

/// Appending one song to a history selects it into exactly the subsequences
/// of its own author, at the end.
pub proof fn lemma_by_author_of_snoc(songs: Seq<SongView>, song: SongView, author: Seq<char>)
    ensures
        by_author_of(songs.push(song), author) == if song.author == author {
            by_author_of(songs, author).push(song)
        } else {
            by_author_of(songs, author)
        },
    decreases songs.len(),
{
    let pushed = songs.push(song);
    assert(pushed[0 as int] == if songs.len() == 0 {
        song
    } else {
        songs[0]
    });
    if songs.len() == 0 {
        assert(pushed.drop_first() =~= Seq::<SongView>::empty());
        assert(by_author_of(pushed.drop_first(), author) == Seq::<SongView>::empty());
        assert(pushed[0 as int] == song);
        if song.author == author {
            assert(by_author_of(pushed, author) =~= by_author_of(songs, author).push(song));
        } else {
            assert(by_author_of(pushed, author) =~= by_author_of(songs, author));
        }
    } else {
        assert(pushed.drop_first() =~= songs.drop_first().push(song));
        lemma_by_author_of_snoc(songs.drop_first(), song, author);
        if song.author == author {
            assert(by_author_of(pushed, author) =~= by_author_of(songs, author).push(song));
        } else {
            assert(by_author_of(pushed, author) =~= by_author_of(songs, author));
        }
    }
}

/// No song of `songs` has author `author` exactly when the selected
/// subsequence is empty.
pub proof fn lemma_by_author_of_absent(songs: Seq<SongView>, author: Seq<char>)
    requires
        forall|i: int| 0 <= i < songs.len() ==> songs[i].author != author,
    ensures
        by_author_of(songs, author) == Seq::<SongView>::empty(),
    decreases songs.len(),
{
    if songs.len() > 0 {
        assert(songs[0].author != author);
        lemma_by_author_of_absent(songs.drop_first(), author);
    }
}

/// Count monotonicity: after any sequence of `add` calls the count has grown
/// by exactly the number of calls; from a fresh state it equals that number.
pub proof fn lemma_count_after_adds(s: RepoView, calls: Seq<(SongView, u64)>)
    ensures
        s.add_all(calls).count == s.count + calls.len(),
    decreases calls.len(),
{
    if calls.len() > 0 {
        lemma_count_after_adds(s.add_spec(calls[0].0, calls[0].1), calls.drop_first());
    }
}

/// Per-author ordering: however adds for different authors are interleaved,
/// an author's recorded sequence grows by exactly the subsequence of that
/// author's songs, in call order.
pub proof fn lemma_per_author_ordering(s: RepoView, calls: Seq<(SongView, u64)>, author: Seq<char>)
    ensures
        s.add_all(calls).songs_of(author) == s.songs_of(author) + by_author_of(
            calls.map_values(|c: (SongView, u64)| c.0),
            author,
        ),
    decreases calls.len(),
{
    let songs = calls.map_values(|c: (SongView, u64)| c.0);
    if calls.len() == 0 {
        assert(s.songs_of(author) + by_author_of(songs, author) =~= s.songs_of(author));
    } else {
        let first = calls[0].0;
        let stepped = s.add_spec(first, calls[0].1);
        lemma_per_author_ordering(stepped, calls.drop_first(), author);
        let rest_songs = calls.drop_first().map_values(|c: (SongView, u64)| c.0);
        assert(rest_songs =~= songs.drop_first());
        if first.author == author {
            assert(stepped.songs_of(author) =~= s.songs_of(author).push(first));
            assert(by_author_of(songs, author) == seq![first] + by_author_of(
                songs.drop_first(),
                author,
            ));
            assert(s.songs_of(author).push(first) + by_author_of(songs.drop_first(), author)
                =~= s.songs_of(author) + by_author_of(songs, author));
        } else {
            assert(stepped.songs_of(author) =~= s.songs_of(author));
        }
    }
}

/// An author with zero adds reads back empty: from the fresh state, any
/// sequence of adds none of which carries that author leaves its query empty.
pub proof fn lemma_untouched_author_empty(calls: Seq<(SongView, u64)>, author: Seq<char>)
    requires
        forall|i: int| 0 <= i < calls.len() ==> calls[i].0.author != author,
    ensures
        RepoView::init_spec().add_all(calls).songs_of(author) == Seq::<SongView>::empty(),
{
    let songs = calls.map_values(|c: (SongView, u64)| c.0);
    lemma_per_author_ordering(RepoView::init_spec(), calls, author);
    assert(forall|i: int| 0 <= i < songs.len() ==> songs[i].author != author);
    lemma_by_author_of_absent(songs, author);
    assert(RepoView::init_spec().songs_of(author) + Seq::<SongView>::empty()
        =~= Seq::<SongView>::empty());
}

/// Recency-slot determinism: two adds whose counters agree modulo the
/// capacity write the same slot; the second song ends up there, the first one
/// is gone from the buffer (when it is a different song that the buffer did
/// not already hold elsewhere) yet remains recorded under its author.
pub proof fn lemma_recency_slot_determinism(
    s: RepoView,
    first: SongView,
    second: SongView,
    c1: u64,
    c2: u64,
)
    requires
        s.wf(),
        c1 % (RECENT_CAPACITY as u64) == c2 % (RECENT_CAPACITY as u64),
    ensures
        ({
            let after = s.add_spec(first, c1).add_spec(second, c2);
            let slot = c2 as int % (RECENT_CAPACITY as int);
            &&& after.recent == s.recent.update(slot, second)
            &&& after.recent[slot] == second
            &&& after.songs_of(first.author).contains(first)
            &&& (first != second && !s.recent.contains(first)) ==> !after.recent.contains(first)
        }),
{
    let after = s.add_spec(first, c1).add_spec(second, c2);
    let slot = c2 as int % (RECENT_CAPACITY as int);
    assert(c1 as int % (RECENT_CAPACITY as int) == slot);
    assert(after.recent =~= s.recent.update(slot, second));
    let mid = s.add_spec(first, c1);
    let mid_songs = mid.songs_of(first.author);
    assert(mid_songs == s.songs_of(first.author).push(first));
    assert(mid_songs[mid_songs.len() - 1] == first);
    assert(mid_songs.contains(first));
    if second.author == first.author {
        let after_songs = after.songs_of(first.author);
        assert(after_songs == mid_songs.push(second));
        assert(after_songs[mid_songs.len() - 1] == first);
        assert(after_songs.contains(first));
    } else {
        assert(after.songs_of(first.author) == mid_songs);
    }
    if first != second && !s.recent.contains(first) {
        assert forall|i: int| 0 <= i < after.recent.len() implies after.recent[i] != first by {
            if i != slot {
                assert(after.recent[i] == s.recent[i]);
                assert(!s.recent.contains(first));
                assert(s.recent[i] != first);
            }
        }
        assert(!after.recent.contains(first));
    }
}

/// Provenance of the recency buffer: after any sequence of adds, every slot
/// holds either a song the buffer held before or one of the added songs;
/// no song is synthesized from any other source.
pub proof fn lemma_recent_provenance(s: RepoView, calls: Seq<(SongView, u64)>)
    requires
        s.wf(),
    ensures
        forall|i: int|
            0 <= i < s.add_all(calls).recent.len() ==> s.recent.contains(
                #[trigger] s.add_all(calls).recent[i],
            ) || exists|k: int| 0 <= k < calls.len() && calls[k].0 == s.add_all(calls).recent[i],
    decreases calls.len(),
{
    if calls.len() > 0 {
        let mid = s.add_spec(calls[0].0, calls[0].1);
        let fin = s.add_all(calls);
        lemma_recent_provenance(mid, calls.drop_first());
        assert(fin == mid.add_all(calls.drop_first()));
        let slot = calls[0].1 as int % (RECENT_CAPACITY as int);
        assert forall|i: int| 0 <= i < fin.recent.len() implies s.recent.contains(
            fin.recent[i],
        ) || exists|k: int| 0 <= k < calls.len() && calls[k].0 == fin.recent[i] by {
            if mid.recent.contains(fin.recent[i]) {
                let j = choose|j: int| 0 <= j < mid.recent.len() && mid.recent[j] == fin.recent[i];
                if j == slot {
                    assert(calls[0].0 == fin.recent[i]);
                } else {
                    assert(s.recent[j] == mid.recent[j]);
                    assert(s.recent.contains(fin.recent[i]));
                }
            } else {
                let k = choose|k: int|
                    0 <= k < calls.drop_first().len() && calls.drop_first()[k].0 == fin.recent[i];
                assert(calls[k + 1].0 == fin.recent[i]);
            }
        }
    }
}

/// Present index keys never map to an empty sequence: adds only ever append,
/// and a key is created together with its first song.
pub proof fn lemma_index_nonempty(s: RepoView, calls: Seq<(SongView, u64)>)
    requires
        forall|a: Seq<char>|
            #[trigger] s.by_author.contains_key(a) ==> s.by_author[a].len() > 0,
    ensures
        forall|a: Seq<char>|
            #[trigger] s.add_all(calls).by_author.contains_key(a) ==> s.add_all(
                calls,
            ).by_author[a].len() > 0,
    decreases calls.len(),
{
    if calls.len() > 0 {
        let mid = s.add_spec(calls[0].0, calls[0].1);
        assert forall|a: Seq<char>| #[trigger]
            mid.by_author.contains_key(a) implies mid.by_author[a].len() > 0 by {
            if a == calls[0].0.author {
                assert(mid.by_author[a] == s.songs_of(a).push(calls[0].0));
            } else {
                assert(mid.by_author[a] == s.by_author[a]);
            }
        }
        lemma_index_nonempty(mid, calls.drop_first());
        assert(s.add_all(calls) == mid.add_all(calls.drop_first()));
    }
}

/// The buffer-length invariant: the recency buffer holds exactly
/// `RECENT_CAPACITY` songs before and after every sequence of adds, the fresh
/// state included.
pub proof fn lemma_recent_len_invariant(s: RepoView, calls: Seq<(SongView, u64)>)
    requires
        s.wf(),
    ensures
        RepoView::init_spec().wf(),
        s.add_all(calls).wf(),
    decreases calls.len(),
{
    if calls.len() > 0 {
        lemma_recent_len_invariant(s.add_spec(calls[0].0, calls[0].1), calls.drop_first());
    }
}

} // verus!
