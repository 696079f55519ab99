use berry_songs::repository::RepositoryImpl;
use berry_songs::song::Song;

fn placeholder(i: usize) -> Song {
    Song::new("berry.testnet".to_string(), format!("Song {}", i + 1))
}

#[test]
fn fresh_repository_holds_placeholders() {
    let repo = RepositoryImpl::new();
    assert_eq!(repo.count(), 0);
    let recent = repo.get_recently_added();
    assert_eq!(recent.len(), 10);
    for i in 0..10 {
        assert_eq!(recent[i], placeholder(i));
    }
}

#[test]
fn unknown_author_reads_back_empty() {
    let mut repo = RepositoryImpl::new();
    assert_eq!(repo.get_by_author("nobody.near".to_string()), Vec::<Song>::new());
    assert_eq!(repo.get_by_author("berry.testnet".to_string()), Vec::<Song>::new());
    repo.add_with_counter(Song::new("alice".to_string(), "one".to_string()), 4);
    assert_eq!(repo.get_by_author("nobody.near".to_string()), Vec::<Song>::new());
}

#[test]
fn first_add_lands_in_counter_slot() {
    let mut repo = RepositoryImpl::new();
    let song = Song::new("alice".to_string(), "Song 1".to_string());

    repo.add_with_counter(song.clone(), 1);

    assert_eq!(repo.count(), 1);
    assert_eq!(repo.get_by_author("alice".to_string()), vec![song.clone()]);
    let recent = repo.get_recently_added();
    assert_eq!(recent[1], song);
    for i in 0..10 {
        if i != 1 {
            assert_eq!(recent[i], placeholder(i));
        }
    }
}

#[test]
fn equal_counter_slots_overwrite_each_other() {
    let mut repo = RepositoryImpl::new();
    let first = Song::new("alice".to_string(), "first".to_string());
    let second = Song::new("bob".to_string(), "second".to_string());

    repo.add_with_counter(first.clone(), 1);
    repo.add_with_counter(second.clone(), 11);

    assert_eq!(repo.count(), 2);
    let recent = repo.get_recently_added();
    assert_eq!(recent[1], second);
    assert!(!recent.contains(&first));
    assert_eq!(repo.get_by_author("alice".to_string()), vec![first]);
    assert_eq!(repo.get_by_author("bob".to_string()), vec![second]);
}

#[test]
fn count_grows_by_one_per_add_and_buffer_stays_full() {
    let mut repo = RepositoryImpl::new();
    for k in 0..25u64 {
        assert_eq!(repo.count(), k);
        assert_eq!(repo.get_recently_added().len(), 10);
        repo.add_with_counter(Song::new("alice".to_string(), format!("title {}", k)), k);
    }
    assert_eq!(repo.count(), 25);
    assert_eq!(repo.get_recently_added().len(), 10);
}

#[test]
fn interleaved_adds_keep_per_author_order() {
    let mut repo = RepositoryImpl::new();
    let a1 = Song::new("alice".to_string(), "a one".to_string());
    let b1 = Song::new("bob".to_string(), "b one".to_string());
    let a2 = Song::new("alice".to_string(), "a two".to_string());
    let b2 = Song::new("bob".to_string(), "b two".to_string());
    let a3 = Song::new("alice".to_string(), "a three".to_string());

    let mut counter: u64 = 0;
    for song in [&a1, &b1, &a2, &b2, &a3] {
        repo.add_with_counter(song.clone(), counter);
        counter += 1;
    }

    assert_eq!(
        repo.get_by_author("alice".to_string()),
        vec![a1.clone(), a2.clone(), a3.clone()]
    );
    assert_eq!(repo.get_by_author("bob".to_string()), vec![b1.clone(), b2.clone()]);
    assert_eq!(repo.count(), 5);
}
