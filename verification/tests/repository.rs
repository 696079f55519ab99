use berry_songs::repository::RepositoryImpl;
use berry_songs::song::Song;

#[test]
fn repository_test_add_song() {
    let song = Song::new("berry.testnet".to_string(), "Song 1".to_string());

    let mut repo = RepositoryImpl::new();

    repo.add(song.clone());

    assert_eq!(repo.count(), 1);
    assert_eq!(repo.get_by_author("berry.testnet".to_string()), vec![song.clone()]);
    assert_eq!(repo.get_recently_added().len(), 10);
    assert!(repo.get_recently_added().contains(&song));
}

#[test]
fn test_many_add_songs() {
    let songs = [
        Song::new("berry.testnet".to_string(), "Song 1".to_string()),
        Song::new("berry.testnet".to_string(), "Song 2".to_string()),
        Song::new("artist.testnet".to_string(), "Song 3".to_string()),
    ];

    let mut repo = RepositoryImpl::new();

    for song in songs.iter() {
        repo.add(song.clone());
    }

    assert_eq!(repo.count(), 3);
    assert_eq!(
        repo.get_by_author("berry.testnet".to_string()),
        vec![songs[0].clone(), songs[1].clone()]
    );
    assert_eq!(repo.get_by_author("artist.testnet".to_string()), vec![songs[2].clone()]);

    let mut is_found_in_recent = false;
    for song in songs.iter() {
        if repo.get_recently_added().contains(song) {
            is_found_in_recent = true;
            break;
        }
    }

    assert!(is_found_in_recent);
    assert_eq!(repo.get_recently_added().len(), 10);
}
