use cosmwasm_std::StdError;

use sg_p2p_nft_trade::error::{ContractError, ExpiryRangeError};
use sg_p2p_nft_trade::execute::{
    cw721_queries, execute, execute_accept_offer, execute_create_offer, instantiate, only_owner,
    transfer_nfts,
};
use sg_p2p_nft_trade::helpers::{BlockInfo, ExpiryRange};
use sg_p2p_nft_trade::msg::{
    Action, Attribute, ContractInfo, Cw721Answers, Env, ExecuteMsg, InstantiateMsg, MessageInfo,
    Response,
};
use sg_p2p_nft_trade::query::{query_offer, query_offers_by_peer, query_offers_by_sender};
use sg_p2p_nft_trade::state::{ContractState, Offer, Token};

const NOW: u64 = 1_571_797_419_879_305_533;
const NANOS: u64 = 1_000_000_000;
const MAINTAINER: &str = "maintainer";
const SENDER: &str = "sender";
const PEER: &str = "peer";
const OTHER: &str = "other";
const COLL_A: &str = "collection-a";
const COLL_B: &str = "collection-b";

fn env_at(time: u64) -> Env {
    Env {
        block: BlockInfo { height: 1, time, chain_id: "stargaze-1".to_string() },
        contract: ContractInfo { address: "trade".to_string() },
    }
}

fn info(sender: &str) -> MessageInfo {
    MessageInfo { sender: sender.to_string() }
}

fn token(collection: &str, id: u32) -> Token {
    Token { collection: collection.to_string(), token_id: id }
}

fn ok_owners(owner: &str, n: usize) -> Vec<Result<String, StdError>> {
    (0..n).map(|_| Ok(owner.to_string())).collect()
}

fn ok_approvals(n: usize) -> Vec<Result<(), StdError>> {
    (0..n).map(|_| Ok(())).collect()
}

fn no_answers() -> Cw721Answers {
    Cw721Answers {
        offered_owners: vec![],
        offered_approvals: vec![],
        wanted_owners: vec![],
        wanted_approvals: vec![],
    }
}

fn instantiated(min: u64, max: u64) -> ContractState {
    let mut state = ContractState::new();
    let msg = InstantiateMsg {
        escrow_deposit_amount: 5,
        offer_expiry: ExpiryRange { min, max },
        maintainer: MAINTAINER.to_string(),
        removal_reward_bps: 10,
    };
    let res = instantiate(&mut state, &env_at(NOW), &info(MAINTAINER), msg).unwrap();
    assert!(res.attributes.is_empty());
    assert!(res.messages.is_empty());
    state
}

/// Creates an offer from SENDER to PEER of `offered` for `wanted`, every check passing.
fn create(
    state: &mut ContractState,
    offered: Vec<Token>,
    wanted: Vec<Token>,
) -> Result<Response, ContractError> {
    let answers = Cw721Answers {
        offered_owners: ok_owners(SENDER, offered.len()),
        offered_approvals: ok_approvals(offered.len()),
        wanted_owners: ok_owners(PEER, wanted.len()),
        wanted_approvals: vec![],
    };
    execute(
        state,
        &env_at(NOW),
        &info(SENDER),
        ExecuteMsg::CreateOffer {
            offered_nfts: offered,
            wanted_nfts: wanted,
            peer: PEER.to_string(),
            expires_at: NOW + 120 * NANOS,
        },
        answers,
    )
}

fn accept_answers(offered: usize, wanted: usize) -> Cw721Answers {
    Cw721Answers {
        offered_owners: ok_owners(SENDER, offered),
        offered_approvals: ok_approvals(offered),
        wanted_owners: ok_owners(PEER, wanted),
        wanted_approvals: ok_approvals(wanted),
    }
}

fn offer_count_of(state: &ContractState, sender: &str) -> usize {
    query_offers_by_sender(state, sender.to_string()).unwrap().offers.len()
}

#[test]
fn create_offer_stores_offer_under_next_id() {
    let mut state = instantiated(60, 3600);
    let res = create(&mut state, vec![token(COLL_A, 1)], vec![token(COLL_B, 2)]).unwrap();
    assert_eq!(
        res.attributes,
        vec![Attribute::Action(Action::CreateOffer), Attribute::OfferId(1)]
    );
    assert!(res.messages.is_empty());
    assert_eq!(state.offer_count(), 1);
    let offer = query_offer(&state, 1).unwrap().offer.unwrap();
    assert_eq!(offer.id, 1);
    assert_eq!(offer.sender, SENDER);
    assert_eq!(offer.peer, PEER);
    assert_eq!(offer.expires_at, NOW + 120 * NANOS);
    assert_eq!(offer.offered_nfts.len(), 1);
    assert_eq!(offer.offered_nfts[0].collection, COLL_A);
    assert_eq!(offer.offered_nfts[0].token_id, 1);
    assert_eq!(offer.wanted_nfts[0].collection, COLL_B);
    assert_eq!(offer.wanted_nfts[0].token_id, 2);

    let res = create(&mut state, vec![token(COLL_A, 3)], vec![]).unwrap();
    assert_eq!(
        res.attributes,
        vec![Attribute::Action(Action::CreateOffer), Attribute::OfferId(2)]
    );
    assert_eq!(state.offer_count(), 2);
}

#[test]
fn create_offer_refuses_token_already_offered() {
    let mut state = instantiated(60, 3600);
    create(&mut state, vec![token(COLL_A, 1), token(COLL_A, 2)], vec![]).unwrap();
    create(&mut state, vec![token(COLL_A, 5)], vec![]).unwrap();
    let err = create(&mut state, vec![token(COLL_A, 7), token(COLL_A, 2)], vec![]).unwrap_err();
    assert_eq!(
        err,
        ContractError::TokenAlreadyOffered {
            collection: COLL_A.to_string(),
            token_id: 2,
            offer_id: 1
        }
    );
    // the failed message changed nothing
    assert_eq!(offer_count_of(&state, SENDER), 2);
    assert_eq!(state.offer_count(), 2);
}

#[test]
fn create_offer_owner_query_error_is_passed_on() {
    let mut state = instantiated(60, 3600);
    let answers = Cw721Answers {
        offered_owners: vec![Err(StdError::generic_err("no such token"))],
        offered_approvals: ok_approvals(1),
        wanted_owners: vec![],
        wanted_approvals: vec![],
    };
    let err = execute_create_offer(
        &mut state,
        &env_at(NOW),
        &info(SENDER),
        vec![token(COLL_A, 1)],
        vec![],
        PEER.to_string(),
        NOW + 120 * NANOS,
        answers,
    )
    .unwrap_err();
    assert_eq!(err, ContractError::Std(StdError::generic_err("no such token")));
    assert_eq!(state.offer_count(), 0);
}

#[test]
fn create_offer_by_non_owner_is_unauthorized() {
    let mut state = instantiated(60, 3600);
    let answers = Cw721Answers {
        offered_owners: vec![Ok(SENDER.to_string()), Ok(OTHER.to_string())],
        offered_approvals: vec![Ok(()), Err(StdError::generic_err("not approved"))],
        wanted_owners: vec![],
        wanted_approvals: vec![],
    };
    let err = execute_create_offer(
        &mut state,
        &env_at(NOW),
        &info(SENDER),
        vec![token(COLL_A, 1), token(COLL_A, 2)],
        vec![],
        PEER.to_string(),
        NOW + 120 * NANOS,
        answers,
    )
    .unwrap_err();
    assert_eq!(err, ContractError::UnauthorizedSender {});
}

#[test]
fn create_offer_without_approval_fails() {
    let mut state = instantiated(60, 3600);
    let answers = Cw721Answers {
        offered_owners: ok_owners(SENDER, 1),
        offered_approvals: vec![Err(StdError::generic_err("approval not found"))],
        wanted_owners: vec![],
        wanted_approvals: vec![],
    };
    let err = execute_create_offer(
        &mut state,
        &env_at(NOW),
        &info(SENDER),
        vec![token(COLL_A, 1)],
        vec![],
        PEER.to_string(),
        NOW + 120 * NANOS,
        answers,
    )
    .unwrap_err();
    assert_eq!(err, ContractError::Std(StdError::generic_err("approval not found")));
}

#[test]
fn create_offer_for_token_the_peer_lacks_fails() {
    let mut state = instantiated(60, 3600);
    let answers = Cw721Answers {
        offered_owners: ok_owners(SENDER, 1),
        offered_approvals: ok_approvals(1),
        wanted_owners: vec![Ok(PEER.to_string()), Ok(OTHER.to_string())],
        wanted_approvals: vec![],
    };
    let err = execute_create_offer(
        &mut state,
        &env_at(NOW),
        &info(SENDER),
        vec![token(COLL_A, 1)],
        vec![token(COLL_B, 8), token(COLL_B, 9)],
        PEER.to_string(),
        NOW + 120 * NANOS,
        answers,
    )
    .unwrap_err();
    assert_eq!(
        err,
        ContractError::UnauthorizedPeer {
            collection: COLL_B.to_string(),
            token_id: 9,
            peer: PEER.to_string()
        }
    );
}

#[test]
fn create_offer_before_instantiation_fails() {
    let mut state = ContractState::new();
    let err = create(&mut state, vec![token(COLL_A, 1)], vec![]).unwrap_err();
    assert_eq!(
        err,
        ContractError::Std(StdError::not_found("sg_p2p_nft_trade::state::SudoParams"))
    );
}

#[test]
fn create_offer_with_expiry_out_of_range_fails() {
    let mut state = instantiated(60, 100);
    let err = create(&mut state, vec![token(COLL_A, 1)], vec![]).unwrap_err();
    assert_eq!(
        err,
        ContractError::ExpiryRange(ExpiryRangeError::InvalidExpirationRange {})
    );
    // with min == max no expiry is in range
    let mut state = instantiated(60, 60);
    let err = create(&mut state, vec![token(COLL_A, 1)], vec![]).unwrap_err();
    assert_eq!(
        err,
        ContractError::ExpiryRange(ExpiryRangeError::InvalidExpirationRange {})
    );
}

#[test]
fn accept_offer_swaps_the_tokens() {
    let mut state = instantiated(60, 3600);
    create(
        &mut state,
        vec![token(COLL_A, 1), token(COLL_A, 2)],
        vec![token(COLL_B, 3)],
    )
    .unwrap();
    let res = execute(
        &mut state,
        &env_at(NOW),
        &info(PEER),
        ExecuteMsg::AcceptOffer { id: 1 },
        accept_answers(2, 1),
    )
    .unwrap();
    assert_eq!(res.attributes, vec![Attribute::Action(Action::AcceptOffer)]);
    assert_eq!(res.messages.len(), 3);
    let expected = [(COLL_A, PEER, 1), (COLL_A, PEER, 2), (COLL_B, SENDER, 3)];
    for (m, (c, r, t)) in res.messages.iter().zip(expected.iter()) {
        assert_eq!(m.collection, *c);
        assert_eq!(m.recipient, *r);
        assert_eq!(m.token_id, *t);
    }
    assert!(query_offer(&state, 1).unwrap().offer.is_none());
    // accepting twice finds no offer
    let err = execute(
        &mut state,
        &env_at(NOW),
        &info(PEER),
        ExecuteMsg::AcceptOffer { id: 1 },
        no_answers(),
    )
    .unwrap_err();
    assert_eq!(
        err,
        ContractError::Std(StdError::not_found("sg_p2p_nft_trade::state::Offer"))
    );
}

#[test]
fn accept_offer_refusals() {
    let mut state = instantiated(60, 3600);
    create(&mut state, vec![token(COLL_A, 1)], vec![token(COLL_B, 3)]).unwrap();

    // only the peer may accept
    let err = execute_accept_offer(&mut state, &env_at(NOW), &info(OTHER), 1, accept_answers(1, 1))
        .unwrap_err();
    assert_eq!(err, ContractError::UnauthorizedOperator {});

    // the offer must not have expired (nor lie too far ahead) at acceptance
    let err = execute_accept_offer(
        &mut state,
        &env_at(NOW + 100 * NANOS),
        &info(PEER),
        1,
        accept_answers(1, 1),
    )
    .unwrap_err();
    assert_eq!(
        err,
        ContractError::ExpiryRange(ExpiryRangeError::InvalidExpirationRange {})
    );

    // the accepter must own the wanted tokens
    let mut answers = accept_answers(1, 1);
    answers.wanted_owners = vec![Ok(OTHER.to_string())];
    let err = execute_accept_offer(&mut state, &env_at(NOW), &info(PEER), 1, answers).unwrap_err();
    assert_eq!(err, ContractError::UnauthorizedSender {});

    // the wanted tokens must be approved
    let mut answers = accept_answers(1, 1);
    answers.wanted_approvals = vec![Err(StdError::generic_err("not approved"))];
    let err = execute_accept_offer(&mut state, &env_at(NOW), &info(PEER), 1, answers).unwrap_err();
    assert_eq!(err, ContractError::Std(StdError::generic_err("not approved")));

    // the sender must still own the offered tokens
    let mut answers = accept_answers(1, 1);
    answers.offered_owners = vec![Ok(OTHER.to_string())];
    let err = execute_accept_offer(&mut state, &env_at(NOW), &info(PEER), 1, answers).unwrap_err();
    assert_eq!(
        err,
        ContractError::UnauthorizedPeer {
            collection: COLL_A.to_string(),
            token_id: 1,
            peer: SENDER.to_string()
        }
    );

    // none of the refusals changed the offer
    assert!(query_offer(&state, 1).unwrap().offer.is_some());
}

#[test]
fn remove_stale_offer_is_for_the_maintainer() {
    let mut state = instantiated(60, 3600);
    create(&mut state, vec![token(COLL_A, 1)], vec![]).unwrap();
    let err = execute(
        &mut state,
        &env_at(NOW),
        &info(SENDER),
        ExecuteMsg::RemoveStaleOffer { id: 1 },
        no_answers(),
    )
    .unwrap_err();
    assert_eq!(err, ContractError::UnauthorizedOperator {});
    let res = execute(
        &mut state,
        &env_at(NOW),
        &info(MAINTAINER),
        ExecuteMsg::RemoveStaleOffer { id: 1 },
        no_answers(),
    )
    .unwrap();
    assert_eq!(
        res.attributes,
        vec![Attribute::Action(Action::RemoveStaleOffer), Attribute::OfferId(1)]
    );
    assert!(query_offer(&state, 1).unwrap().offer.is_none());
}

#[test]
fn remove_and_reject_report_their_action() {
    let mut state = instantiated(60, 3600);
    create(&mut state, vec![token(COLL_A, 1)], vec![]).unwrap();
    create(&mut state, vec![token(COLL_A, 2)], vec![]).unwrap();
    let res = execute(
        &mut state,
        &env_at(NOW),
        &info(SENDER),
        ExecuteMsg::RemoveOffer { id: 1 },
        no_answers(),
    )
    .unwrap();
    assert_eq!(
        res.attributes,
        vec![Attribute::Action(Action::RevokeOffer), Attribute::OfferId(1)]
    );
    let res = execute(
        &mut state,
        &env_at(NOW),
        &info(PEER),
        ExecuteMsg::RejectOffer { id: 2 },
        no_answers(),
    )
    .unwrap();
    assert_eq!(
        res.attributes,
        vec![Attribute::Action(Action::RejectOffer), Attribute::OfferId(2)]
    );
    assert_eq!(offer_count_of(&state, SENDER), 0);
    // a withdrawn token can be offered again
    create(&mut state, vec![token(COLL_A, 1)], vec![]).unwrap();
}

#[test]
fn queries_list_offers_by_party_in_id_order() {
    let mut state = instantiated(60, 3600);
    for (id, sender, peer) in [(7u8, OTHER, PEER), (2u8, SENDER, OTHER), (5u8, SENDER, PEER)] {
        state.save_offer(Offer {
            id,
            offered_nfts: vec![],
            wanted_nfts: vec![],
            sender: sender.to_string(),
            peer: peer.to_string(),
            expires_at: 0,
        });
    }
    let by_sender: Vec<u8> = query_offers_by_sender(&state, SENDER.to_string())
        .unwrap()
        .offers
        .iter()
        .map(|o| o.id)
        .collect();
    assert_eq!(by_sender, vec![2, 5]);
    let by_peer: Vec<u8> = query_offers_by_peer(&state, PEER.to_string())
        .unwrap()
        .offers
        .iter()
        .map(|o| o.id)
        .collect();
    assert_eq!(by_peer, vec![5, 7]);
    assert!(query_offers_by_peer(&state, MAINTAINER.to_string()).unwrap().offers.is_empty());
    assert!(query_offer(&state, 3).unwrap().offer.is_none());
}

#[test]
fn expiry_range_bounds() {
    let range = ExpiryRange::new(60, 3600);
    let block = BlockInfo { height: 1, time: NOW, chain_id: String::new() };
    assert!(range.is_valid(&block, NOW + 60 * NANOS).is_err());
    assert!(range.is_valid(&block, NOW + 60 * NANOS + 1).is_ok());
    assert!(range.is_valid(&block, NOW + 3600 * NANOS).is_ok());
    assert_eq!(
        range.is_valid(&block, NOW + 3600 * NANOS + 1),
        Err(ExpiryRangeError::InvalidExpirationRange {})
    );
    assert!(range.validate().is_ok());
    assert!(ExpiryRange::new(5, 5).validate().is_ok());
    assert_eq!(
        ExpiryRange::new(6, 5).validate(),
        Err(ExpiryRangeError::InvalidExpiry {})
    );
}

#[test]
fn only_owner_checks_the_queried_owner() {
    assert_eq!(only_owner(Ok(SENDER.to_string()), &SENDER.to_string()).unwrap(), SENDER);
    assert_eq!(
        only_owner(Ok(OTHER.to_string()), &SENDER.to_string()).unwrap_err(),
        ContractError::UnauthorizedSender {}
    );
    assert_eq!(
        only_owner(Err(StdError::generic_err("x")), &SENDER.to_string()).unwrap_err(),
        ContractError::Std(StdError::generic_err("x"))
    );
}

#[test]
fn transfer_nfts_appends_in_order() {
    let mut res = Response::new();
    transfer_nfts(&PEER.to_string(), vec![token(COLL_A, 1), token(COLL_B, 2)], &mut res).unwrap();
    assert_eq!(res.messages.len(), 2);
    let expected = cosmwasm_std::to_json_binary(&cw721::Cw721ExecuteMsg::TransferNft {
        recipient: PEER.to_string(),
        token_id: "2".to_string(),
    })
    .unwrap();
    assert_eq!(res.messages[1].msg, expected.to_vec());
    assert_eq!(
        String::from_utf8(res.messages[0].msg.clone()).unwrap(),
        r#"{"transfer_nft":{"recipient":"peer","token_id":"1"}}"#
    );
    assert_eq!(res.messages[1].collection, COLL_B);
    assert_eq!(res.messages[1].token_id, 2);
    assert_eq!(res.messages[0].recipient, PEER);
}

#[test]
fn attribute_names() {
    assert_eq!(Attribute::Action(Action::CreateOffer).key(), "action");
    assert_eq!(Attribute::OfferId(3).key(), "offer_id");
    assert_eq!(Action::CreateOffer.name(), "create_offer");
    assert_eq!(Action::RevokeOffer.name(), "revoke_offer");
    assert_eq!(Action::AcceptOffer.name(), "accept_offer");
    assert_eq!(Action::RejectOffer.name(), "reject_offer");
    assert_eq!(Action::RemoveStaleOffer.name(), "remove_stale_offer");
}

#[test]
fn query_plan_lists_the_tokens_to_ask_about() {
    let mut state = instantiated(60, 3600);
    let msg = ExecuteMsg::CreateOffer {
        offered_nfts: vec![token(COLL_A, 1), token(COLL_A, 2)],
        wanted_nfts: vec![token(COLL_B, 3)],
        peer: PEER.to_string(),
        expires_at: NOW + 120 * NANOS,
    };
    let plan = cw721_queries(&state, &env_at(NOW), &msg);
    assert_eq!(plan.spender, "trade");
    assert_eq!(plan.offered.iter().map(|t| t.token_id).collect::<Vec<_>>(), vec![1, 2]);
    assert_eq!(plan.wanted.iter().map(|t| t.token_id).collect::<Vec<_>>(), vec![3]);
    assert!(!plan.approve_wanted);

    create(&mut state, vec![token(COLL_A, 1)], vec![token(COLL_B, 3), token(COLL_B, 4)]).unwrap();
    let plan = cw721_queries(&state, &env_at(NOW), &ExecuteMsg::AcceptOffer { id: 1 });
    assert_eq!(plan.offered.len(), 1);
    assert_eq!(plan.offered[0].collection, COLL_A);
    assert_eq!(plan.wanted.iter().map(|t| t.token_id).collect::<Vec<_>>(), vec![3, 4]);
    assert!(plan.approve_wanted);

    let plan = cw721_queries(&state, &env_at(NOW), &ExecuteMsg::AcceptOffer { id: 9 });
    assert!(plan.offered.is_empty() && plan.wanted.is_empty());
    let plan = cw721_queries(&state, &env_at(NOW), &ExecuteMsg::RemoveOffer { id: 1 });
    assert!(plan.offered.is_empty() && plan.wanted.is_empty());
}
