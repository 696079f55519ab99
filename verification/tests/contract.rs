use berry_songs::contract::Contract;
use berry_songs::song::Song;
use near_sdk::test_utils::VMContextBuilder;

fn set_context(signer: &str, block_height: u64) {
    let context = VMContextBuilder::new()
        .signer_account_id(signer.parse().unwrap())
        .block_height(block_height)
        .build();
    near_sdk::env::set_blockchain_interface(near_sdk::MockedBlockchain::new(
        context,
        near_sdk::test_vm_config(),
        near_parameters::RuntimeFeesConfig::test(),
        Vec::default(),
        near_sdk::mock::with_mocked_blockchain(|b| b.take_storage()),
        std::collections::HashMap::default(),
        None,
    ));
}

#[test]
fn contract_test_add_song() {
    let singer = "alice.near";
    let mut contract = Contract::default();
    set_context(singer, 0);

    contract.add_song("Song 1".to_string());

    assert_eq!(contract.count_songs(), 1);
    assert_eq!(
        contract.get_songs_by_author(singer.to_string()),
        vec![Song::new(singer.to_string(), "Song 1".to_string())]
    );
}

#[test]
fn test_add_many_songs() {
    let singer = "alice.near";
    let mut contract = Contract::default();
    set_context(singer, 0);

    contract.add_many_songs(vec![
        Song::new(singer.to_string(), "Song many 1".to_string()),
        Song::new(singer.to_string(), "Song many 2".to_string()),
    ]);

    assert_eq!(contract.count_songs(), 2);
    assert_eq!(
        contract.get_songs_by_author(singer.to_string()),
        vec![
            Song::new(singer.to_string(), "Song many 1".to_string()),
            Song::new(singer.to_string(), "Song many 2".to_string())
        ]
    );
}

#[test]
fn test_get_songs_by_author() {
    let singer = "alice.near";
    let mut contract = Contract::default();
    set_context(singer, 0);

    contract.add_song("Song 1".to_string());
    contract.add_song("Song 2".to_string());

    assert_eq!(contract.count_songs(), 2);
    assert_eq!(
        contract.get_songs_by_author(singer.to_string()),
        vec![
            Song::new(singer.to_string(), "Song 1".to_string()),
            Song::new(singer.to_string(), "Song 2".to_string())
        ]
    );
}

#[test]
fn test_get_recently_added_songs() {
    let singer = "alice.near";
    let mut contract = Contract::default();
    set_context(singer, 0);

    contract.add_song("Song 1".to_string());
    contract.add_song("Song 2".to_string());

    assert_eq!(contract.get_recently_added_songs().len(), 10);
}

#[test]
fn add_song_uses_signer_and_counter_slot() {
    let mut contract = Contract::default();
    set_context("carol.near", 7);

    contract.add_song("Late Night".to_string());

    let expected = Song::new("carol.near".to_string(), "Late Night".to_string());
    assert_eq!(contract.get_songs_by_author("carol.near".to_string()), vec![expected.clone()]);
    assert_eq!(contract.get_recently_added_songs()[7], expected);
}
