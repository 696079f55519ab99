use berry_songs::song::Song;

#[test]
fn test_song() {
    let song = Song::new("alice".to_string(), "song".to_string());
    assert_eq!(song.author().as_str(), "alice");
    assert_eq!(song.title(), "song");
}

#[test]
fn song_equality_and_clone() {
    let a = Song::new("alice".to_string(), "one".to_string());
    let b = Song::new("alice".to_string(), "one".to_string());
    let c = Song::new("alice".to_string(), "two".to_string());
    let d = Song::new("bob".to_string(), "one".to_string());
    assert_eq!(a, b);
    assert_ne!(a, c);
    assert_ne!(a, d);
    assert_eq!(a.clone(), a);
}
