use chia::clvm_utils::{tree_hash_from_bytes, ToTreeHash, TreeHash};
use chia::protocol::Bytes32;
use chia::puzzles::nft::{NftOwnershipLayerArgs, NftRoyaltyTransferPuzzleArgs, NftStateLayerArgs};
use chia::puzzles::singleton::SingletonArgs;
use sage_offers::assemble::{spend_assets, CatOfferSpend, OfferSpend, PlannedSpend};
use sage_offers::builder::OfferBuilder;
use sage_offers::derivations::{is_known_puzzle_hash, next_derivation_index};
use sage_offers::hashes::settlement_puzzle_hash;
use sage_offers::linker::PrimaryConditions;
use sage_offers::offer::{make_offer, required_xch_total, OfferSelection};
use sage_offers::royalty::{
    calculate_asset_prices, calculate_asset_royalties, calculate_royalty_assertions,
};
use sage_offers::select::select_coins;
use sage_offers::types::{
    CatCoin, Coin, Condition, Hash32, NftRoyaltyInfo, OfferRequest, OfferedCoins, RequestedNft,
    TradePrice, WalletError,
};

fn h(n: u8) -> Hash32 {
    Hash32 { bytes: [n; 32] }
}

fn coin(parent: u8, ph: u8, amount: u64) -> Coin {
    Coin {
        parent_coin_id: h(parent),
        puzzle_hash: h(ph),
        amount,
    }
}

#[test]
fn settlement_hash_matches_published_constant() {
    assert_eq!(
        settlement_puzzle_hash().bytes,
        chia_puzzles::SETTLEMENT_PAYMENT_HASH
    );
}

#[test]
fn royalty_five_percent_of_thousand_is_fifty() {
    let nfts = vec![NftRoyaltyInfo {
        launcher_id: h(1),
        royalty_puzzle_hash: h(2),
        royalty_ten_thousandths: 500,
    }];
    let prices = vec![TradePrice {
        amount: 1000,
        puzzle_hash: h(3),
    }];
    let royalties = calculate_asset_royalties(&nfts, &prices).unwrap();
    assert_eq!(royalties.len(), 1);
    assert_eq!(royalties[0].amount, 50);
    assert_eq!(royalties[0].nft_id, h(1));
    assert_eq!(royalties[0].p2_puzzle_hash, h(2));
    assert_eq!(royalties[0].settlement_puzzle_hash, h(3));
}

#[test]
fn tiny_royalty_rounds_down_to_nothing() {
    let nfts = vec![NftRoyaltyInfo {
        launcher_id: h(1),
        royalty_puzzle_hash: h(2),
        royalty_ten_thousandths: 333,
    }];
    let prices = vec![TradePrice {
        amount: 7,
        puzzle_hash: h(3),
    }];
    // floor(7 * 333 / 10000) = 0, so no payment is emitted at all.
    let royalties = calculate_asset_royalties(&nfts, &prices).unwrap();
    assert!(royalties.is_empty());
}

#[test]
fn royalty_overflow_is_a_fatal_arithmetic_fault() {
    let nfts = vec![NftRoyaltyInfo {
        launcher_id: h(1),
        royalty_puzzle_hash: h(2),
        royalty_ten_thousandths: 20000,
    }];
    let prices = vec![TradePrice {
        amount: u64::MAX,
        puzzle_hash: h(3),
    }];
    assert_eq!(
        calculate_asset_royalties(&nfts, &prices),
        Err(WalletError::ArithmeticFault)
    );
}

#[test]
fn no_requested_nfts_means_no_trade_prices() {
    let cats = vec![(h(9), 500u64)];
    let prices = calculate_asset_prices(0, 1000, &cats);
    assert!(prices.is_empty());
}

#[test]
fn trade_prices_split_each_asset_evenly() {
    let cats = vec![(h(9), 900u64), (h(10), 0u64)];
    let prices = calculate_asset_prices(2, 1001, &cats);
    // The zero-amount CAT entry is ignored; division is exact floor.
    assert_eq!(prices.len(), 2);
    assert_eq!(prices[0].amount, 500);
    assert_eq!(prices[0].puzzle_hash, settlement_puzzle_hash());
    assert_eq!(prices[1].amount, 450);
    let expected = chia::puzzles::cat::CatArgs::curry_tree_hash(
        chia::protocol::Bytes32::new([9; 32]),
        chia::clvm_utils::TreeHash::new(chia_puzzles::SETTLEMENT_PAYMENT_HASH),
    );
    assert_eq!(prices[1].puzzle_hash.bytes, expected.to_bytes());
}

#[test]
fn royalty_assertions_match_hand_computed_announcements() {
    let nfts = vec![NftRoyaltyInfo {
        launcher_id: h(1),
        royalty_puzzle_hash: h(2),
        royalty_ten_thousandths: 500,
    }];
    let prices = vec![TradePrice {
        amount: 1000,
        puzzle_hash: h(3),
    }];
    let royalties = calculate_asset_royalties(&nfts, &prices).unwrap();
    let assertions = calculate_royalty_assertions(&royalties);
    assert_eq!(assertions.len(), 1);

    let payment = chia::puzzles::offer::Payment {
        puzzle_hash: chia::protocol::Bytes32::new([2; 32]),
        amount: 50,
        memos: chia::puzzles::Memos::Some(vec![chia::protocol::Bytes32::new([2; 32])]),
    };
    let np: chia::puzzles::offer::NotarizedPayment<Vec<chia::protocol::Bytes32>> =
        chia::puzzles::offer::NotarizedPayment {
            nonce: chia::protocol::Bytes32::new([1; 32]),
            payments: vec![payment],
        };
    let message = np.tree_hash().to_bytes();
    let mut hasher = chia::sha2::Sha256::new();
    hasher.update([3u8; 32]);
    hasher.update(message);
    assert_eq!(assertions[0].announcement_id.bytes, hasher.finalize());
}

#[test]
fn single_primary_coin_carries_only_the_bag() {
    let ids = vec![h(1)];
    let assertions = vec![sage_offers::types::Assertion {
        announcement_id: h(7),
    }];
    let pc = PrimaryConditions::link(&ids, &assertions);
    assert_eq!(pc.entries.len(), 1);
    assert_eq!(
        pc.entries[0].conditions,
        vec![Condition::AssertPuzzleAnnouncement {
            announcement_id: h(7)
        }]
    );
}

#[test]
fn three_primary_coins_close_a_ring() {
    let ids = vec![h(1), h(2), h(3)];
    let assertions = vec![sage_offers::types::Assertion {
        announcement_id: h(7),
    }];
    let pc = PrimaryConditions::link(&ids, &assertions);
    assert_eq!(pc.entries.len(), 3);
    // The first primary carries the bag and asserts the last coin.
    assert_eq!(
        pc.entries[0].conditions,
        vec![
            Condition::AssertPuzzleAnnouncement {
                announcement_id: h(7)
            },
            Condition::AssertConcurrentSpend { coin_id: h(3) },
        ]
    );
    // Every later primary asserts exactly its predecessor.
    assert_eq!(
        pc.entries[1].conditions,
        vec![Condition::AssertConcurrentSpend { coin_id: h(1) }]
    );
    assert_eq!(
        pc.entries[2].conditions,
        vec![Condition::AssertConcurrentSpend { coin_id: h(2) }]
    );
}

#[test]
fn insufficient_funds_selects_nothing() {
    let available = vec![coin(1, 2, 100), coin(1, 2, 200)];
    assert_eq!(
        select_coins(&available, 500),
        Err(WalletError::InsufficientFunds)
    );
}

#[test]
fn selection_stops_at_the_requested_amount() {
    let available = vec![coin(1, 2, 100), coin(1, 2, 200), coin(1, 2, 400)];
    let selected = select_coins(&available, 250).unwrap();
    assert_eq!(selected.len(), 2);
    assert_eq!(selected[1].amount, 200);
    assert!(select_coins(&available, 0).unwrap().is_empty());
}

fn single_nft_request() -> OfferRequest {
    OfferRequest {
        xch: 0,
        cats: Vec::new(),
        nfts: vec![(
            h(40),
            RequestedNft {
                metadata: vec![0x80],
                metadata_updater_puzzle_hash: h(41),
                royalty_puzzle_hash: h(42),
                royalty_ten_thousandths: 1000,
            },
        )],
    }
}

#[test]
fn required_total_covers_offer_fee_and_royalties() {
    let offered = OfferedCoins {
        xch: 1000,
        cats: Vec::new(),
        nfts: Vec::new(),
        fee: 10,
    };
    // One requested NFT at 10%: trade price 1000, royalty 100.
    assert_eq!(required_xch_total(&offered, &single_nft_request()), Ok(1110));
}

#[test]
fn end_to_end_offer_conserves_every_unit() {
    let offered = OfferedCoins {
        xch: 1000,
        cats: Vec::new(),
        nfts: Vec::new(),
        fee: 10,
    };
    let requested = single_nft_request();
    let selection = OfferSelection {
        p2_coins: vec![coin(1, 2, 1200)],
        cat_coins: Vec::new(),
        nfts: Vec::new(),
    };
    let offer = make_offer(offered, requested, selection, h(50)).unwrap();

    // One royalty settlement spend of 100, then the currency leg.
    assert_eq!(offer.coin_spends.len(), 2);
    match &offer.coin_spends[0] {
        PlannedSpend::RoyaltySettlement { coin, nonce, payment } => {
            assert_eq!(coin.amount, 100);
            assert_eq!(*nonce, h(40));
            assert_eq!(payment.puzzle_hash, h(42));
            assert_eq!(payment.amount, 100);
            let expected_parent = chia::protocol::Coin::new(
                chia::protocol::Bytes32::new([1; 32]),
                chia::protocol::Bytes32::new([2; 32]),
                1200,
            )
            .coin_id();
            assert_eq!(coin.parent_coin_id.bytes, expected_parent.to_bytes());
        }
        other => panic!("expected a royalty settlement spend, got {:?}", other),
    }
    match &offer.coin_spends[1] {
        PlannedSpend::Xch { coins, conditions } => {
            assert_eq!(coins.len(), 1);
            assert_eq!(coins[0].amount, 1200);
            // Announcement, settlement 1000, royalty 100, change 90, fee 10:
            // a single primary coin, so no ring conditions anywhere.
            assert_eq!(conditions.len(), 5);
            assert!(matches!(
                conditions[0],
                Condition::AssertPuzzleAnnouncement { .. }
            ));
            assert_eq!(
                conditions[1],
                Condition::CreateCoin {
                    puzzle_hash: settlement_puzzle_hash(),
                    amount: 1000,
                    memos: Vec::new(),
                }
            );
            assert!(matches!(
                conditions[2],
                Condition::CreateCoin { amount: 100, .. }
            ));
            assert_eq!(
                conditions[3],
                Condition::CreateCoin {
                    puzzle_hash: h(50),
                    amount: 90,
                    memos: Vec::new(),
                }
            );
            assert_eq!(conditions[4], Condition::ReserveFee { amount: 10 });
        }
        other => panic!("expected the currency leg, got {:?}", other),
    }
}

#[test]
fn underfunded_build_fails_atomically() {
    let offered = OfferedCoins {
        xch: 1000,
        cats: Vec::new(),
        nfts: Vec::new(),
        fee: 10,
    };
    let selection = OfferSelection {
        p2_coins: vec![coin(1, 2, 1000)],
        cat_coins: Vec::new(),
        nfts: Vec::new(),
    };
    // 1000 selected cannot cover 1000 + 10 + 100.
    assert_eq!(
        make_offer(offered, single_nft_request(), selection, h(50)),
        Err(WalletError::ArithmeticFault)
    );
}

#[test]
fn same_coin_set_yields_the_same_nonce() {
    let offered = OfferedCoins {
        xch: 1000,
        cats: Vec::new(),
        nfts: Vec::new(),
        fee: 10,
    };
    let selection = || OfferSelection {
        p2_coins: vec![coin(1, 2, 1200)],
        cat_coins: Vec::new(),
        nfts: Vec::new(),
    };
    let first = make_offer(
        offered.clone(),
        single_nft_request(),
        selection(),
        h(50),
    )
    .unwrap();
    let second = make_offer(offered, single_nft_request(), selection(), h(50)).unwrap();
    assert_eq!(first.builder.nonce, second.builder.nonce);
}

#[test]
fn missing_nft_record_aborts_the_build() {
    let offered = OfferedCoins {
        xch: 0,
        cats: Vec::new(),
        nfts: vec![h(60)],
        fee: 0,
    };
    let requested = OfferRequest {
        xch: 5,
        cats: Vec::new(),
        nfts: Vec::new(),
    };
    let selection = OfferSelection {
        p2_coins: Vec::new(),
        cat_coins: Vec::new(),
        nfts: vec![None],
    };
    assert_eq!(
        make_offer(offered, requested, selection, h(50)),
        Err(WalletError::MissingNft(h(60)))
    );
}

#[test]
fn multi_asset_offer_links_every_leg_into_one_ring() {
    let spend = OfferSpend {
        p2_coins: vec![coin(1, 2, 500)],
        p2_amount: 300,
        fee: 0,
        royalties: Vec::new(),
        cats: vec![CatOfferSpend {
            asset_id: h(9),
            coins: vec![CatCoin {
                coin: coin(3, 4, 80),
                p2_puzzle_hash: h(5),
            }],
            amount: 50,
        }],
        nfts: Vec::new(),
        assertions: vec![sage_offers::types::Assertion {
            announcement_id: h(7),
        }],
        change_puzzle_hash: h(6),
    };
    let spends = spend_assets(spend).unwrap();
    assert_eq!(spends.len(), 2);
    let (xch_conditions, cat_conditions) = match (&spends[0], &spends[1]) {
        (
            PlannedSpend::Xch { conditions: a, .. },
            PlannedSpend::Cat { conditions: b, asset_id, .. },
        ) => {
            assert_eq!(*asset_id, h(9));
            (a, b)
        }
        other => panic!("unexpected plan shape: {:?}", other),
    };
    // Two primary coins: each asserts the other's concurrent spend.
    let cat_primary = chia::protocol::Coin::new(
        chia::protocol::Bytes32::new([3; 32]),
        chia::protocol::Bytes32::new([4; 32]),
        80,
    )
    .coin_id();
    let xch_primary = chia::protocol::Coin::new(
        chia::protocol::Bytes32::new([1; 32]),
        chia::protocol::Bytes32::new([2; 32]),
        500,
    )
    .coin_id();
    assert!(xch_conditions.contains(&Condition::AssertConcurrentSpend {
        coin_id: Hash32 {
            bytes: cat_primary.to_bytes()
        }
    }));
    assert!(cat_conditions.contains(&Condition::AssertConcurrentSpend {
        coin_id: Hash32 {
            bytes: xch_primary.to_bytes()
        }
    }));
    // Currency leg: 500 = 300 offered + 200 change.
    let created: Vec<u64> = xch_conditions
        .iter()
        .filter_map(|c| match c {
            Condition::CreateCoin { amount, .. } => Some(*amount),
            _ => None,
        })
        .collect();
    assert_eq!(created, vec![300, 200]);
    // CAT leg: 80 = 50 offered + 30 change, with the settlement output
    // memoed to the settlement puzzle and the change to the change address.
    let cat_created: Vec<(Hash32, u64, Vec<Hash32>)> = cat_conditions
        .iter()
        .filter_map(|c| match c {
            Condition::CreateCoin { puzzle_hash, amount, memos } => {
                Some((*puzzle_hash, *amount, memos.clone()))
            }
            _ => None,
        })
        .collect();
    let settlement = settlement_puzzle_hash();
    assert_eq!(
        cat_created,
        vec![(settlement, 50, vec![settlement]), (h(6), 30, vec![h(6)])]
    );
}

#[test]
fn offer_builder_accumulates_requests_and_assertions() {
    let nonce = h(11);
    let builder = OfferBuilder::new(nonce);
    let payment = sage_offers::types::Payment {
        puzzle_hash: h(12),
        amount: 250,
        memos: None,
    };
    let builder = builder
        .request(
            sage_offers::builder::RequestedPuzzle::Xch,
            vec![payment],
        )
        .unwrap();
    let (assertions, terminal) = builder.finish();
    assert_eq!(assertions.len(), 1);
    assert_eq!(terminal.nonce, nonce);
    assert_eq!(terminal.requested_payments.len(), 1);
    assert!(terminal.assertions.is_empty());
}

#[test]
fn derivation_index_advances_past_the_maximum_used() {
    assert_eq!(next_derivation_index(None), Ok(0));
    assert_eq!(next_derivation_index(Some(5)), Ok(6));
    assert_eq!(
        next_derivation_index(Some(u32::MAX)),
        Err(WalletError::ArithmeticFault)
    );
    assert!(is_known_puzzle_hash(3));
    assert!(!is_known_puzzle_hash(0));
}

#[test]
fn api_requests_carry_the_fingerprint() {
    let get_nfts = sage_offers::api::GetNfts { fingerprint: 7 };
    let login = sage_offers::api::Login { fingerprint: 7 };
    assert_eq!(get_nfts.fingerprint, login.fingerprint);
}

#[test]
fn unparsable_metadata_is_a_construction_fault() {
    let offered = OfferedCoins {
        xch: 100,
        cats: Vec::new(),
        nfts: Vec::new(),
        fee: 0,
    };
    let requested = OfferRequest {
        xch: 0,
        cats: Vec::new(),
        nfts: vec![(
            h(40),
            RequestedNft {
                // A lone cons marker is not a serialized program.
                metadata: vec![0xff],
                metadata_updater_puzzle_hash: h(41),
                royalty_puzzle_hash: h(42),
                royalty_ten_thousandths: 0,
            },
        )],
    };
    let selection = OfferSelection {
        p2_coins: vec![coin(1, 2, 100)],
        cat_coins: Vec::new(),
        nfts: Vec::new(),
    };
    assert_eq!(
        make_offer(offered, requested, selection, h(50)),
        Err(WalletError::ConstructionFault)
    );
}

#[test]
fn requested_nft_puzzle_matches_the_layer_stack() {
    let info = RequestedNft {
        metadata: vec![0x80],
        metadata_updater_puzzle_hash: h(41),
        royalty_puzzle_hash: h(42),
        royalty_ten_thousandths: 777,
    };
    let got = sage_offers::builder::requested_puzzle_hash(
        &sage_offers::builder::RequestedPuzzle::Nft {
            launcher_id: h(40),
            info,
        },
    )
    .unwrap();

    let settlement = TreeHash::new(chia_puzzles::SETTLEMENT_PAYMENT_HASH);
    let metadata = tree_hash_from_bytes(&[0x80]).unwrap();
    let transfer = NftRoyaltyTransferPuzzleArgs::curry_tree_hash(
        Bytes32::new([40; 32]),
        Bytes32::new([42; 32]),
        777,
    );
    let ownership = NftOwnershipLayerArgs::curry_tree_hash(None, transfer, settlement);
    let mut state_args = NftStateLayerArgs::new(metadata, ownership);
    state_args.metadata_updater_puzzle_hash = Bytes32::new([41; 32]);
    let state = chia::clvm_utils::CurriedProgram {
        program: TreeHash::new(state_args.mod_hash.to_bytes()),
        args: state_args,
    }
    .tree_hash();
    let expected = SingletonArgs::curry_tree_hash(Bytes32::new([40; 32]), state);
    assert_eq!(got.bytes, expected.to_bytes());
}

#[test]
fn the_nonce_is_the_tree_hash_of_the_offered_coin_ids() {
    let offered = OfferedCoins {
        xch: 100,
        cats: Vec::new(),
        nfts: Vec::new(),
        fee: 0,
    };
    let requested = OfferRequest {
        xch: 7,
        cats: Vec::new(),
        nfts: Vec::new(),
    };
    let selection = OfferSelection {
        p2_coins: vec![coin(1, 2, 150)],
        cat_coins: Vec::new(),
        nfts: Vec::new(),
    };
    let offer = make_offer(offered, requested, selection, h(50)).unwrap();
    let id = chia::protocol::Coin::new(
        chia::protocol::Bytes32::new([1; 32]),
        chia::protocol::Bytes32::new([2; 32]),
        150,
    )
    .coin_id();
    let expected = vec![id].tree_hash();
    assert_eq!(offer.builder.nonce.bytes, expected.to_bytes());
}

#[test]
fn currency_request_announcement_uses_the_bare_settlement_puzzle() {
    let builder = OfferBuilder::new(h(11));
    let payment = sage_offers::types::Payment {
        puzzle_hash: h(12),
        amount: 250,
        memos: None,
    };
    let builder = builder
        .request(sage_offers::builder::RequestedPuzzle::Xch, vec![payment])
        .unwrap();
    let (assertions, _) = builder.finish();

    let np: chia::puzzles::offer::NotarizedPayment<Vec<chia::protocol::Bytes32>> =
        chia::puzzles::offer::NotarizedPayment {
            nonce: chia::protocol::Bytes32::new([11; 32]),
            payments: vec![chia::puzzles::offer::Payment {
                puzzle_hash: chia::protocol::Bytes32::new([12; 32]),
                amount: 250,
                memos: chia::puzzles::Memos::None,
            }],
        };
    let mut hasher = chia::sha2::Sha256::new();
    hasher.update(chia_puzzles::SETTLEMENT_PAYMENT_HASH);
    hasher.update(np.tree_hash().to_bytes());
    assert_eq!(assertions[0].announcement_id.bytes, hasher.finalize());
}

#[test]
fn zero_amount_cat_entry_changes_nothing() {
    let cat_group = vec![CatCoin {
        coin: coin(3, 4, 80),
        p2_puzzle_hash: h(5),
    }];
    let with_zero = OfferedCoins {
        xch: 100,
        cats: vec![(h(9), 50u64), (h(10), 0u64)],
        nfts: Vec::new(),
        fee: 0,
    };
    let without_zero = OfferedCoins {
        xch: 100,
        cats: vec![(h(9), 50u64)],
        nfts: Vec::new(),
        fee: 0,
    };
    let requested = || OfferRequest {
        xch: 7,
        cats: Vec::new(),
        nfts: Vec::new(),
    };
    let selection = || OfferSelection {
        p2_coins: vec![coin(1, 2, 150)],
        cat_coins: vec![cat_group.clone()],
        nfts: Vec::new(),
    };
    let first = make_offer(with_zero, requested(), selection(), h(50)).unwrap();
    let second = make_offer(without_zero, requested(), selection(), h(50)).unwrap();
    assert_eq!(first, second);
}

#[test]
fn success_is_owed_when_nothing_is_wrong() {
    // A well-funded, well-formed build must return Ok: the contract's
    // success condition has no other escape.
    let offered = OfferedCoins {
        xch: 1000,
        cats: Vec::new(),
        nfts: Vec::new(),
        fee: 10,
    };
    let selection = OfferSelection {
        p2_coins: vec![coin(1, 2, 1200)],
        cat_coins: Vec::new(),
        nfts: Vec::new(),
    };
    assert!(make_offer(offered, single_nft_request(), selection, h(50)).is_ok());
}
