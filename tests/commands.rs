use acuity_index_cli::{
    parse_key, Commands, Key, KeyCommands, KeyError, KeyKind, Request, SubstrateKey, Target,
};

#[test]
fn key_subcommands_map_to_keys() {
    let h = [3u8; 32];
    let cases: Vec<(KeyCommands, Key)> = vec![
        (KeyCommands::AccountId { key: h }, Key::Substrate(SubstrateKey::AccountId(h))),
        (KeyCommands::AccountIndex { key: 1 }, Key::Substrate(SubstrateKey::AccountIndex(1))),
        (KeyCommands::BountyIndex { key: 2 }, Key::Substrate(SubstrateKey::BountyIndex(2))),
        (KeyCommands::EraIndex { key: 3 }, Key::Substrate(SubstrateKey::EraIndex(3))),
        (KeyCommands::MessageId { key: h }, Key::Substrate(SubstrateKey::MessageId(h))),
        (KeyCommands::PoolId { key: 4 }, Key::Substrate(SubstrateKey::PoolId(4))),
        (KeyCommands::PreimageHash { key: h }, Key::Substrate(SubstrateKey::PreimageHash(h))),
        (KeyCommands::ProposalHash { key: h }, Key::Substrate(SubstrateKey::ProposalHash(h))),
        (KeyCommands::ProposalIndex { key: 5 }, Key::Substrate(SubstrateKey::ProposalIndex(5))),
        (KeyCommands::RefIndex { key: 6 }, Key::Substrate(SubstrateKey::RefIndex(6))),
        (KeyCommands::RegistrarIndex { key: 7 }, Key::Substrate(SubstrateKey::RegistrarIndex(7))),
        (KeyCommands::SessionIndex { key: 8 }, Key::Substrate(SubstrateKey::SessionIndex(8))),
        (KeyCommands::TipHash { key: h }, Key::Substrate(SubstrateKey::TipHash(h))),
        (KeyCommands::Variant { pallet_id: 9, variant_id: 10 }, Key::Variant(9, 10)),
    ];
    for (command, key) in cases {
        let built: Key = command.into();
        assert_eq!(built, key);
    }
}

#[test]
fn both_key_forms_give_the_same_key() {
    let typed: Key = KeyCommands::EraIndex { key: 77 }.into();
    assert_eq!(parse_key(KeyKind::EraIndex, "77"), Ok(typed));
    let typed: Key = KeyCommands::TipHash { key: [0xab; 32] }.into();
    assert_eq!(parse_key(KeyKind::TipHash, &"ab".repeat(32)), Ok(typed));
}

#[test]
fn commands_route_to_one_request() {
    let key = Key::Variant(1, 2);
    assert_eq!(Commands::Status.request(), Request::Status);
    assert_eq!(Commands::SubscribeStatus.request(), Request::Subscribe(Target::Status));
    assert_eq!(Commands::SizeOnDisk.request(), Request::SizeOnDisk);
    assert_eq!(Commands::GetVariants.request(), Request::GetVariants);
    assert_eq!(Commands::GetEvents { key }.request(), Request::GetEvents(key));
    assert_eq!(Commands::SubscribeEvents { key }.request(), Request::Subscribe(Target::Events(key)));
}

#[test]
fn get_events_for_an_ss58_account_builds_one_query() {
    let key = parse_key(KeyKind::AccountId, "5GrwvaEF5zXb26Fz9rcQpDWS57CtERHpNehXCPcNoHGKutQY").unwrap();
    let request = Commands::GetEvents { key }.request();
    match request {
        Request::GetEvents(Key::Substrate(SubstrateKey::AccountId(bytes))) => {
            assert_eq!(bytes[0], 0xd4);
            assert_eq!(bytes[31], 0x7d);
        }
        other => panic!("unexpected request {:?}", other),
    }
}

#[test]
fn malformed_tip_hash_fails_before_any_request() {
    let result = parse_key(KeyKind::TipHash, "zz").map(|key| Commands::GetEvents { key }.request());
    assert_eq!(result, Err(KeyError::MalformedKey));
}
