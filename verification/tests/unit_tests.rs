use cosmwasm_std::StdError;

use sg_p2p_nft_trade::error::ContractError;
use sg_p2p_nft_trade::execute::{execute, instantiate};
use sg_p2p_nft_trade::helpers::{BlockInfo, ExpiryRange};
use sg_p2p_nft_trade::msg::{
    ContractInfo, Cw721Answers, Env, ExecuteMsg, InstantiateMsg, MessageInfo,
};
use sg_p2p_nft_trade::state::{ContractState, Offer, Token};

const CREATOR: &str = "creator";
const COLLECTION_A: &str = "collection-a";
const COLLECTION_B: &str = "collection-b";
const TOKEN1_ID: u32 = 123;
const TOKEN2_ID: u32 = 234;

const SENDER: &str = "sender";
const PEER: &str = "peer";
const MAX_EXPIRY: u64 = 60;
const MIN_EXPIRY: u64 = 60;

fn mock_env() -> Env {
    Env {
        block: BlockInfo {
            height: 12_345,
            time: 1_571_797_419_879_305_533,
            chain_id: "cosmos-testnet-14002".to_string(),
        },
        contract: ContractInfo { address: "cosmos2contract".to_string() },
    }
}

fn mock_info(sender: &str) -> MessageInfo {
    MessageInfo { sender: sender.to_string() }
}

fn no_answers() -> Cw721Answers {
    Cw721Answers {
        offered_owners: vec![],
        offered_approvals: vec![],
        wanted_owners: vec![],
        wanted_approvals: vec![],
    }
}

// helper that injects an offer into storage
fn save_new_offer(
    state: &mut ContractState,
    sender: &str,
    peer: &str,
    offered_nfts: Vec<Token>,
    wanted_nfts: Vec<Token>,
) {
    let offer = Offer {
        id: 0,
        offered_nfts,
        wanted_nfts,
        sender: sender.to_string(),
        peer: peer.to_string(),
        expires_at: 1_000_000 * 1_000_000_000,
    };
    state.save_offer(offer);
    assert!(state.offer(0).is_some(), "Failed to save offer to storage");
}

// setup contract helper
fn instantiate_trade_contract(state: &mut ContractState) {
    let msg = InstantiateMsg {
        escrow_deposit_amount: 0,
        offer_expiry: ExpiryRange { min: MIN_EXPIRY, max: MAX_EXPIRY },
        maintainer: CREATOR.to_owned(),
        removal_reward_bps: 0,
    };
    let info = mock_info(CREATOR);
    let res = instantiate(state, &mock_env(), &info, msg).unwrap();
    assert_eq!(0, res.messages.len());
}

#[test]
fn proper_initialization() {
    let mut state = ContractState::new();

    instantiate_trade_contract(&mut state);
}

#[test]
fn remove_offer() {
    let mut state = ContractState::new();

    instantiate_trade_contract(&mut state);

    let offered_nfts = vec![Token { collection: COLLECTION_A.to_string(), token_id: TOKEN1_ID }];
    let wanted_nfts = vec![Token { collection: COLLECTION_A.to_string(), token_id: TOKEN2_ID }];

    save_new_offer(&mut state, SENDER, PEER, offered_nfts, wanted_nfts);

    // The peer of the offer should not be able to remove it
    let res = execute(
        &mut state,
        &mock_env(),
        &mock_info(PEER),
        ExecuteMsg::RemoveOffer { id: 0 },
        no_answers(),
    );
    assert!(res.is_err(), "Peer is able to remove offer.");
    assert_eq!(res.unwrap_err(), ContractError::UnauthorizedSender {});

    // The sender of the offer should be able to remove it
    let res = execute(
        &mut state,
        &mock_env(),
        &mock_info(SENDER),
        ExecuteMsg::RemoveOffer { id: 0 },
        no_answers(),
    );
    assert!(res.is_ok(), "Sender of the Offer cant remove");

    // test for non existing offer
    let err = execute(
        &mut state,
        &mock_env(),
        &mock_info(SENDER),
        ExecuteMsg::RemoveOffer { id: 1 },
        no_answers(),
    )
    .unwrap_err();
    assert_eq!(
        err,
        ContractError::Std(StdError::NotFound {
            kind: "sg_p2p_nft_trade::state::Offer".to_string()
        }),
        "Error should be of type notFound."
    )
}

#[test]
fn reject_offer() {
    let mut state = ContractState::new();

    instantiate_trade_contract(&mut state);

    let offered_nfts = vec![Token { collection: COLLECTION_B.to_string(), token_id: TOKEN1_ID }];
    let wanted_nfts = vec![Token { collection: COLLECTION_B.to_string(), token_id: TOKEN2_ID }];

    save_new_offer(&mut state, SENDER, PEER, offered_nfts, wanted_nfts);

    // The sender of the offer should not be able to reject his own offer
    let res = execute(
        &mut state,
        &mock_env(),
        &mock_info(SENDER),
        ExecuteMsg::RejectOffer { id: 0 },
        no_answers(),
    );
    assert!(res.is_err(), "Sender is able to reject offer.");

    // The peer of the offer should be able to reject the offer
    let res = execute(
        &mut state,
        &mock_env(),
        &mock_info(PEER),
        ExecuteMsg::RejectOffer { id: 0 },
        no_answers(),
    );
    assert!(res.is_ok(), "Peer of the Offer cant reject");

    // test for non existing offer
    let err = execute(
        &mut state,
        &mock_env(),
        &mock_info(SENDER),
        ExecuteMsg::RejectOffer { id: 1 },
        no_answers(),
    )
    .unwrap_err();
    assert_eq!(
        err,
        ContractError::Std(StdError::NotFound {
            kind: "sg_p2p_nft_trade::state::Offer".to_string()
        }),
        "Error should be of type notFound."
    )
}
