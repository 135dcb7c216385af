use vstd::prelude::*;

use cosmwasm_std::StdError;

use crate::error::{
    not_found, offer_not_found, params_not_found, ContractError, ContractErrorView,
    ExpiryRangeError, OFFER_KIND, PARAMS_KIND,
};
use crate::helpers::ExpiryRange;
use crate::msg::{
    encode_transfer_nft, first_encoding_error, transfer_of, transfers_to, Action, Attribute,
    Cw721Answers, Env, ExecuteMsg, InstantiateMsg, MessageInfo, NftTransfer, Response,
    ResponseView,
};
use crate::state::{
    lowest_id_where, sent_offering, tokens_view, ContractState, ContractStateView, Offer,
    OfferView, SudoParams, Token, TokenView,
};

verus! {

// ---------------------------------------------------------------------------------------------
// What each message does, stated over the views
// ---------------------------------------------------------------------------------------------

/// The first failing check, from index `i` on, of the tokens a sender offers in a new offer:
/// the owner query fails; the owner is not the sender; the approval query fails; or the
/// sender already offers the token in an open offer (the one with the lowest id is named).
pub open spec fn offered_tokens_error(
    st: ContractStateView,
    sender: Seq<char>,
    tokens: Seq<TokenView>,
    owners: Seq<Result<String, StdError>>,
    approvals: Seq<Result<(), StdError>>,
    i: nat,
) -> Option<ContractErrorView>
    decreases tokens.len() - i,
{
    if i >= tokens.len() {
        None
    } else {
        match owners[i as int] {
            Err(e) => Some(ContractErrorView::Std(e)),
            Ok(owner) => if owner@ != sender {
                Some(ContractErrorView::UnauthorizedSender)
            } else {
                match approvals[i as int] {
                    Err(e) => Some(ContractErrorView::Std(e)),
                    Ok(_) => match lowest_id_where(
                        st.offers,
                        sent_offering(sender, tokens[i as int]),
                        0,
                    ) {
                        Some(id) => Some(
                            ContractErrorView::TokenAlreadyOffered {
                                collection: tokens[i as int].collection,
                                token_id: tokens[i as int].token_id,
                                offer_id: id,
                            },
                        ),
                        None => offered_tokens_error(st, sender, tokens, owners, approvals, i + 1),
                    },
                }
            },
        }
    }
}

/// The first failing check, from index `i` on, of the tokens a new offer asks for: the owner
/// query fails, or the owner is not the peer.
pub open spec fn wanted_tokens_error(
    peer: Seq<char>,
    tokens: Seq<TokenView>,
    owners: Seq<Result<String, StdError>>,
    i: nat,
) -> Option<ContractErrorView>
    decreases tokens.len() - i,
{
    if i >= tokens.len() {
        None
    } else {
        match owners[i as int] {
            Err(e) => Some(ContractErrorView::Std(e)),
            Ok(owner) => if peer != owner@ {
                Some(
                    ContractErrorView::UnauthorizedPeer {
                        collection: tokens[i as int].collection,
                        token_id: tokens[i as int].token_id,
                        peer: peer,
                    },
                )
            } else {
                wanted_tokens_error(peer, tokens, owners, i + 1)
            },
        }
    }
}

/// The first failing check, from index `i` on, of the tokens the accepting peer gives: the
/// owner query fails; the owner is not the accepting peer; or the approval query fails.
pub open spec fn accepted_wanted_error(
    accepter: Seq<char>,
    tokens: Seq<TokenView>,
    owners: Seq<Result<String, StdError>>,
    approvals: Seq<Result<(), StdError>>,
    i: nat,
) -> Option<ContractErrorView>
    decreases tokens.len() - i,
{
    if i >= tokens.len() {
        None
    } else {
        match owners[i as int] {
            Err(e) => Some(ContractErrorView::Std(e)),
            Ok(owner) => if owner@ != accepter {
                Some(ContractErrorView::UnauthorizedSender)
            } else {
                match approvals[i as int] {
                    Err(e) => Some(ContractErrorView::Std(e)),
                    Ok(_) => accepted_wanted_error(accepter, tokens, owners, approvals, i + 1),
                }
            },
        }
    }
}

/// The first failing check, from index `i` on, of the tokens the offerer gives when the offer
/// is accepted: the owner query fails; the owner is not the offerer; or the approval query
/// fails.
pub open spec fn accepted_offered_error(
    offerer: Seq<char>,
    tokens: Seq<TokenView>,
    owners: Seq<Result<String, StdError>>,
    approvals: Seq<Result<(), StdError>>,
    i: nat,
) -> Option<ContractErrorView>
    decreases tokens.len() - i,
{
    if i >= tokens.len() {
        None
    } else {
        match owners[i as int] {
            Err(e) => Some(ContractErrorView::Std(e)),
            Ok(owner) => if offerer != owner@ {
                Some(
                    ContractErrorView::UnauthorizedPeer {
                        collection: tokens[i as int].collection,
                        token_id: tokens[i as int].token_id,
                        peer: offerer,
                    },
                )
            } else {
                match approvals[i as int] {
                    Err(e) => Some(ContractErrorView::Std(e)),
                    Ok(_) => accepted_offered_error(offerer, tokens, owners, approvals, i + 1),
                }
            },
        }
    }
}

/// The error a new offer meets, if any: first the offered tokens, then the wanted tokens,
/// then the parameters must be stored, then the expiry must lie in the allowed range.
pub open spec fn create_offer_error(
    st: ContractStateView,
    now: u64,
    sender: Seq<char>,
    offered: Seq<TokenView>,
    wanted: Seq<TokenView>,
    peer: Seq<char>,
    expires_at: u64,
    answers: Cw721Answers,
) -> Option<ContractErrorView> {
    let offered_error = offered_tokens_error(
        st,
        sender,
        offered,
        answers.offered_owners@,
        answers.offered_approvals@,
        0,
    );
    let wanted_error = wanted_tokens_error(peer, wanted, answers.wanted_owners@, 0);
    if offered_error is Some {
        offered_error
    } else if wanted_error is Some {
        wanted_error
    } else {
        match st.params {
            None => Some(ContractErrorView::Std(params_not_found())),
            Some(p) => if p.offer_expiry.admits(now, expires_at) {
                None
            } else {
                Some(ContractErrorView::ExpiryRange(ExpiryRangeError::InvalidExpirationRange {  }))
            },
        }
    }
}

/// A new offer gets as far as its expiry check.
pub open spec fn create_offer_reaches_expiry(
    st: ContractStateView,
    sender: Seq<char>,
    offered: Seq<TokenView>,
    wanted: Seq<TokenView>,
    peer: Seq<char>,
    answers: Cw721Answers,
) -> bool {
    &&& offered_tokens_error(
        st,
        sender,
        offered,
        answers.offered_owners@,
        answers.offered_approvals@,
        0,
    ) is None
    &&& wanted_tokens_error(peer, wanted, answers.wanted_owners@, 0) is None
    &&& st.params is Some
}

/// What must hold for creating an offer not to panic: one answer per token, the expiry bounds
/// computable where they are computed, and the id counter not at its top where it is drawn.
pub open spec fn create_offer_requires(
    st: ContractStateView,
    now: u64,
    sender: Seq<char>,
    offered: Seq<TokenView>,
    wanted: Seq<TokenView>,
    peer: Seq<char>,
    expires_at: u64,
    answers: Cw721Answers,
) -> bool {
    &&& answers.offered_owners@.len() == offered.len()
    &&& answers.offered_approvals@.len() == offered.len()
    &&& answers.wanted_owners@.len() == wanted.len()
    &&& create_offer_reaches_expiry(st, sender, offered, wanted, peer, answers)
        ==> st.params->0.offer_expiry.check_fits(now, expires_at)
    &&& create_offer_error(st, now, sender, offered, wanted, peer, expires_at, answers) is None
        ==> st.offer_count < 255
}

/// The outcome of creating an offer: storage stays keyed by id; on error the state is
/// unchanged; on success the offer is stored under the next id, which the response reports.
pub open spec fn create_offer_ensures(
    old_st: ContractStateView,
    new_st: ContractStateView,
    now: u64,
    sender: Seq<char>,
    offered: Seq<TokenView>,
    wanted: Seq<TokenView>,
    peer: Seq<char>,
    expires_at: u64,
    answers: Cw721Answers,
    r: Result<Response, ContractError>,
) -> bool {
    let error = create_offer_error(old_st, now, sender, offered, wanted, peer, expires_at, answers);
    let id = (old_st.offer_count + 1) as u8;
    old_st.keyed_by_id() && new_st.keyed_by_id() && match r {
        Err(e) => error == Some(e@) && new_st == old_st,
        Ok(resp) => {
            &&& error is None
            &&& old_st.offer_count < 255
            &&& new_st == ContractStateView {
                offers: old_st.offers.insert(
                    id,
                    OfferView {
                        id,
                        offered_nfts: offered,
                        wanted_nfts: wanted,
                        sender,
                        peer,
                        expires_at,
                    },
                ),
                offer_count: id,
                ..old_st
            }
            &&& resp@ == ResponseView {
                attributes: seq![Attribute::Action(Action::CreateOffer), Attribute::OfferId(id)],
                messages: Seq::empty(),
            }
        },
    }
}

/// The outcome of a message that closes the offer under `id` with `action`, where `refusal`
/// is the error the authorization gives, if any: a missing offer is reported first, then the
/// refusal; otherwise the offer stored under the loaded offer's id is removed and its id
/// reported.
pub open spec fn close_offer_ensures(
    old_st: ContractStateView,
    new_st: ContractStateView,
    id: u8,
    removed_key: u8,
    refusal: Option<ContractErrorView>,
    action: Action,
    r: Result<Response, ContractError>,
) -> bool {
    old_st.keyed_by_id() && new_st.keyed_by_id() && match r {
        Err(e) => {
            &&& new_st == old_st
            &&& if !old_st.offers.contains_key(id) {
                e@ == ContractErrorView::Std(offer_not_found())
            } else {
                refusal == Some(e@)
            }
        },
        Ok(resp) => {
            &&& old_st.offers.contains_key(id)
            &&& refusal is None
            &&& new_st == ContractStateView { offers: old_st.offers.remove(removed_key), ..old_st }
            &&& resp@ == ResponseView {
                attributes: seq![
                    Attribute::Action(action),
                    Attribute::OfferId(old_st.offers[id].id),
                ],
                messages: Seq::empty(),
            }
        },
    }
}

/// Only the sender of an offer may withdraw it.
pub open spec fn remove_offer_refusal(o: OfferView, caller: Seq<char>) -> Option<ContractErrorView> {
    if o.sender != caller {
        Some(ContractErrorView::UnauthorizedSender)
    } else {
        None
    }
}

/// Only the peer of an offer may reject it.
pub open spec fn reject_offer_refusal(o: OfferView, caller: Seq<char>) -> Option<ContractErrorView> {
    if o.peer != caller {
        Some(ContractErrorView::UnauthorizedOperator)
    } else {
        None
    }
}

/// Removing a stale offer needs the parameters, an expiry within the allowed range, and the
/// maintainer as caller, checked in that order.
pub open spec fn remove_stale_refusal(
    st: ContractStateView,
    o: OfferView,
    now: u64,
    caller: Seq<char>,
) -> Option<ContractErrorView> {
    match st.params {
        None => Some(ContractErrorView::Std(params_not_found())),
        Some(p) => if !p.offer_expiry.admits(now, o.expires_at) {
            Some(ContractErrorView::ExpiryRange(ExpiryRangeError::InvalidExpirationRange {  }))
        } else if caller != p.maintainer {
            Some(ContractErrorView::UnauthorizedOperator)
        } else {
            None
        },
    }
}

/// What must hold for removing a stale offer not to panic.
pub open spec fn remove_stale_requires(st: ContractStateView, id: u8, now: u64) -> bool {
    st.offers.contains_key(id) && st.params is Some
        ==> st.params->0.offer_expiry.check_fits(now, st.offers[id].expires_at)
}

/// The error accepting an offer meets, after the offer was found: the parameters must be
/// stored, the caller must be the peer, the expiry must lie in the allowed range, then the
/// wanted tokens and the offered tokens are checked, and last the transfers of the offered
/// tokens to the peer and of the wanted tokens to the sender must encode.
pub open spec fn accept_offer_error(
    st: ContractStateView,
    o: OfferView,
    now: u64,
    caller: Seq<char>,
    answers: Cw721Answers,
) -> Option<ContractErrorView> {
    match st.params {
        None => Some(ContractErrorView::Std(params_not_found())),
        Some(p) => if o.peer != caller {
            Some(ContractErrorView::UnauthorizedOperator)
        } else if !p.offer_expiry.admits(now, o.expires_at) {
            Some(ContractErrorView::ExpiryRange(ExpiryRangeError::InvalidExpirationRange {  }))
        } else {
            let wanted_error = accepted_wanted_error(
                caller,
                o.wanted_nfts,
                answers.wanted_owners@,
                answers.wanted_approvals@,
                0,
            );
            let offered_error = accepted_offered_error(
                o.sender,
                o.offered_nfts,
                answers.offered_owners@,
                answers.offered_approvals@,
                0,
            );
            if wanted_error is Some {
                wanted_error
            } else if offered_error is Some {
                offered_error
            } else {
                match first_encoding_error(o.peer, o.offered_nfts, 0) {
                    Some(e) => Some(ContractErrorView::Std(e)),
                    None => match first_encoding_error(o.sender, o.wanted_nfts, 0) {
                        Some(e) => Some(ContractErrorView::Std(e)),
                        None => None,
                    },
                }
            }
        },
    }
}

/// What must hold for accepting an offer not to panic: one answer per token of the offer, and
/// the expiry bounds computable where they are computed.
pub open spec fn accept_offer_requires(
    st: ContractStateView,
    id: u8,
    now: u64,
    caller: Seq<char>,
    answers: Cw721Answers,
) -> bool {
    st.offers.contains_key(id) ==> {
        let o = st.offers[id];
        &&& answers.offered_owners@.len() == o.offered_nfts.len()
        &&& answers.offered_approvals@.len() == o.offered_nfts.len()
        &&& answers.wanted_owners@.len() == o.wanted_nfts.len()
        &&& answers.wanted_approvals@.len() == o.wanted_nfts.len()
        &&& st.params is Some && o.peer == caller ==> st.params->0.offer_expiry.check_fits(
            now,
            o.expires_at,
        )
    }
}

/// The outcome of accepting an offer: on error the state is unchanged; on success the offer
/// is removed and the response transfers the offered tokens to the peer, then the wanted
/// tokens to the sender.
pub open spec fn accept_offer_ensures(
    old_st: ContractStateView,
    new_st: ContractStateView,
    id: u8,
    now: u64,
    caller: Seq<char>,
    answers: Cw721Answers,
    r: Result<Response, ContractError>,
) -> bool {
    old_st.keyed_by_id() && new_st.keyed_by_id() && match r {
        Err(e) => {
            &&& new_st == old_st
            &&& if !old_st.offers.contains_key(id) {
                e@ == ContractErrorView::Std(offer_not_found())
            } else {
                accept_offer_error(old_st, old_st.offers[id], now, caller, answers) == Some(e@)
            }
        },
        Ok(resp) => {
            let o = old_st.offers[id];
            &&& old_st.offers.contains_key(id)
            &&& accept_offer_error(old_st, o, now, caller, answers) is None
            &&& new_st == ContractStateView { offers: old_st.offers.remove(o.id), ..old_st }
            &&& resp@ == ResponseView {
                attributes: seq![Attribute::Action(Action::AcceptOffer)],
                messages: transfers_to(o.peer, o.offered_nfts) + transfers_to(
                    o.sender,
                    o.wanted_nfts,
                ),
            }
        },
    }
}

// ---------------------------------------------------------------------------------------------
// Entry points
// ---------------------------------------------------------------------------------------------

/// Stores the parameters of the contract; the maintainer's address comes validated.
pub fn instantiate(
    state: &mut ContractState,
    env: &Env,
    info: &MessageInfo,
    msg: InstantiateMsg,
) -> (r: Result<Response, ContractError>)
    ensures
        r is Ok,
        r->Ok_0@ == (ResponseView { attributes: Seq::empty(), messages: Seq::empty() }),
        final(state)@ == (ContractStateView {
            params: Some(
                crate::state::SudoParamsView {
                    escrow_deposit_amount: msg.escrow_deposit_amount,
                    offer_expiry: msg.offer_expiry,
                    maintainer: msg.maintainer@,
                    removal_reward_bps: msg.removal_reward_bps,
                },
            ),
            ..old(state)@
        }),
{
    let params = SudoParams {
        escrow_deposit_amount: msg.escrow_deposit_amount,
        offer_expiry: msg.offer_expiry,
        maintainer: msg.maintainer,
        removal_reward_bps: msg.removal_reward_bps,
    };
    state.set_params(params);
    Ok(Response::new())
}

/// What must hold for a message not to panic.
pub open spec fn execute_requires(
    st: ContractStateView,
    env: Env,
    info: MessageInfo,
    msg: ExecuteMsg,
    answers: Cw721Answers,
) -> bool {
    match msg {
        ExecuteMsg::CreateOffer { offered_nfts, wanted_nfts, peer, expires_at } => create_offer_requires(
            st,
            env.block.time,
            info.sender@,
            tokens_view(offered_nfts@),
            tokens_view(wanted_nfts@),
            peer@,
            expires_at,
            answers,
        ),
        ExecuteMsg::AcceptOffer { id } => accept_offer_requires(
            st,
            id,
            env.block.time,
            info.sender@,
            answers,
        ),
        ExecuteMsg::RemoveStaleOffer { id } => remove_stale_requires(st, id, env.block.time),
        _ => true,
    }
}

/// The outcome of a message, by its kind.
pub open spec fn execute_ensures(
    old_st: ContractStateView,
    new_st: ContractStateView,
    env: Env,
    info: MessageInfo,
    msg: ExecuteMsg,
    answers: Cw721Answers,
    r: Result<Response, ContractError>,
) -> bool {
    let caller = info.sender@;
    let now = env.block.time;
    match msg {
        ExecuteMsg::CreateOffer { offered_nfts, wanted_nfts, peer, expires_at } => create_offer_ensures(
            old_st,
            new_st,
            now,
            caller,
            tokens_view(offered_nfts@),
            tokens_view(wanted_nfts@),
            peer@,
            expires_at,
            answers,
            r,
        ),
        ExecuteMsg::RemoveOffer { id } => close_offer_ensures(
            old_st,
            new_st,
            id,
            old_st.offers[id].id,
            remove_offer_refusal(old_st.offers[id], caller),
            Action::RevokeOffer,
            r,
        ),
        ExecuteMsg::AcceptOffer { id } => accept_offer_ensures(
            old_st,
            new_st,
            id,
            now,
            caller,
            answers,
            r,
        ),
        ExecuteMsg::RejectOffer { id } => close_offer_ensures(
            old_st,
            new_st,
            id,
            old_st.offers[id].id,
            reject_offer_refusal(old_st.offers[id], caller),
            Action::RejectOffer,
            r,
        ),
        ExecuteMsg::RemoveStaleOffer { id } => close_offer_ensures(
            old_st,
            new_st,
            id,
            id,
            remove_stale_refusal(old_st, old_st.offers[id], now, caller),
            Action::RemoveStaleOffer,
            r,
        ),
    }
}

/// Executes a message. The answers of the cw721 collections are those about the tokens of
/// the message (for a new offer) or of the stored offer (for an accepted one).
pub fn execute(
    state: &mut ContractState,
    env: &Env,
    info: &MessageInfo,
    msg: ExecuteMsg,
    answers: Cw721Answers,
) -> (r: Result<Response, ContractError>)
    requires
        execute_requires(old(state)@, *env, *info, msg, answers),
    ensures
        execute_ensures(old(state)@, final(state)@, *env, *info, msg, answers, r),
{
    match msg {
        ExecuteMsg::CreateOffer { offered_nfts, wanted_nfts, peer, expires_at } => execute_create_offer(
            state,
            env,
            info,
            offered_nfts,
            wanted_nfts,
            peer,
            expires_at,
            answers,
        ),
        ExecuteMsg::RemoveOffer { id } => execute_remove_offer(state, info, id),
        ExecuteMsg::AcceptOffer { id } => execute_accept_offer(state, env, info, id, answers),
        ExecuteMsg::RejectOffer { id } => execute_reject_offer(state, info, id),
        ExecuteMsg::RemoveStaleOffer { id } => execute_remove_stale_offer(state, env, info, id),
    }
}

/// Checks the tokens offered in a new offer, in order (see [`offered_tokens_error`]).
fn check_offered_tokens(
    state: &ContractState,
    sender: &String,
    tokens: &Vec<Token>,
    owners: Vec<Result<String, StdError>>,
    approvals: Vec<Result<(), StdError>>,
) -> (r: Result<(), ContractError>)
    requires
        owners@.len() == tokens@.len(),
        approvals@.len() == tokens@.len(),
    ensures
        match r {
            Ok(_) => offered_tokens_error(
                state@,
                sender@,
                tokens_view(tokens@),
                owners@,
                approvals@,
                0,
            ) is None,
            Err(e) => offered_tokens_error(
                state@,
                sender@,
                tokens_view(tokens@),
                owners@,
                approvals@,
                0,
            ) == Some(e@),
        },
{
    let mut owner_list = owners;
    let mut approval_list = approvals;
    let mut i: usize = 0;
    while i < tokens.len()
        invariant
            i <= tokens.len(),
            owner_list@ == owners@,
            owners@.len() == tokens@.len(),
            approval_list@ == approvals@,
            approvals@.len() == tokens@.len(),
            offered_tokens_error(state@, sender@, tokens_view(tokens@), owners@, approvals@, 0)
                == offered_tokens_error(state@, sender@, tokens_view(tokens@), owners@, approvals@, i as nat),
        decreases tokens.len() - i,
    {
        assert(tokens_view(tokens@)[i as int] == tokens@[i as int]@);
        if owner_list[i].is_err() {
            let e = owner_list.remove(i).unwrap_err();
            return Err(ContractError::Std(e));
        }
        let owner_is_sender = match &owner_list[i] {
            Ok(owner) => *owner == *sender,
            Err(_) => false,
        };
        if !owner_is_sender {
            return Err(ContractError::UnauthorizedSender {  });
        }
        if approval_list[i].is_err() {
            let e = approval_list.remove(i).unwrap_err();
            return Err(ContractError::Std(e));
        }
        match state.sender_offer_with_token(sender, &tokens[i]) {
            Some(offer_id) => {
                return Err(
                    ContractError::TokenAlreadyOffered {
                        collection: tokens[i].collection.clone(),
                        token_id: tokens[i].token_id,
                        offer_id,
                    },
                );
            },
            None => {},
        }
        i = i + 1;
    }
    Ok(())
}

/// Checks the tokens a new offer asks for, in order (see [`wanted_tokens_error`]).
fn check_wanted_tokens(peer: &String, tokens: &Vec<Token>, owners: Vec<Result<String, StdError>>) -> (r:
    Result<(), ContractError>)
    requires
        owners@.len() == tokens@.len(),
    ensures
        match r {
            Ok(_) => wanted_tokens_error(peer@, tokens_view(tokens@), owners@, 0) is None,
            Err(e) => wanted_tokens_error(peer@, tokens_view(tokens@), owners@, 0) == Some(e@),
        },
{
    let mut owner_list = owners;
    let mut i: usize = 0;
    while i < tokens.len()
        invariant
            i <= tokens.len(),
            owner_list@ == owners@,
            owners@.len() == tokens@.len(),
            wanted_tokens_error(peer@, tokens_view(tokens@), owners@, 0)
                == wanted_tokens_error(peer@, tokens_view(tokens@), owners@, i as nat),
        decreases tokens.len() - i,
    {
        assert(tokens_view(tokens@)[i as int] == tokens@[i as int]@);
        if owner_list[i].is_err() {
            let e = owner_list.remove(i).unwrap_err();
            return Err(ContractError::Std(e));
        }
        let owner_is_peer = match &owner_list[i] {
            Ok(owner) => *peer == *owner,
            Err(_) => false,
        };
        if !owner_is_peer {
            return Err(
                ContractError::UnauthorizedPeer {
                    collection: tokens[i].collection.clone(),
                    token_id: tokens[i].token_id,
                    peer: peer.clone(),
                },
            );
        }
        i = i + 1;
    }
    Ok(())
}

/// Only the owner of a token may offer it: passes the owner the query gave when it is the
/// caller.
pub fn only_owner(owner: Result<String, StdError>, caller: &String) -> (r: Result<
    String,
    ContractError,
>)
    ensures
        match owner {
            Err(e) => r == Err::<String, ContractError>(ContractError::Std(e)),
            Ok(o) => if o@ == caller@ {
                r is Ok && r->Ok_0@ == o@
            } else {
                r == Err::<String, ContractError>(ContractError::UnauthorizedSender {  })
            },
        },
{
    match owner {
        Err(e) => Err(ContractError::Std(e)),
        Ok(o) => {
            if o != *caller {
                return Err(ContractError::UnauthorizedSender {  });
            }
            Ok(o)
        },
    }
}

/// Checks the tokens the accepting peer gives, in order (see [`accepted_wanted_error`]).
fn check_accepted_wanted(
    accepter: &String,
    tokens: &Vec<Token>,
    owners: Vec<Result<String, StdError>>,
    approvals: Vec<Result<(), StdError>>,
) -> (r: Result<(), ContractError>)
    requires
        owners@.len() == tokens@.len(),
        approvals@.len() == tokens@.len(),
    ensures
        match r {
            Ok(_) => accepted_wanted_error(
                accepter@,
                tokens_view(tokens@),
                owners@,
                approvals@,
                0,
            ) is None,
            Err(e) => accepted_wanted_error(
                accepter@,
                tokens_view(tokens@),
                owners@,
                approvals@,
                0,
            ) == Some(e@),
        },
{
    let mut owner_list = owners;
    let mut approval_list = approvals;
    let mut i: usize = 0;
    while i < tokens.len()
        invariant
            i <= tokens.len(),
            owner_list@ == owners@.subrange(i as int, owners@.len() as int),
            owners@.len() == tokens@.len(),
            approval_list@ == approvals@,
            approvals@.len() == tokens@.len(),
            accepted_wanted_error(accepter@, tokens_view(tokens@), owners@, approvals@, 0)
                == accepted_wanted_error(accepter@, tokens_view(tokens@), owners@, approvals@, i as nat),
        decreases tokens.len() - i,
    {
        assert(tokens_view(tokens@)[i as int] == tokens@[i as int]@);
        let owner = owner_list.remove(0);
        match only_owner(owner, accepter) {
            Err(e) => {
                return Err(e);
            },
            Ok(_) => {},
        }
        if approval_list[i].is_err() {
            let e = approval_list.remove(i).unwrap_err();
            return Err(ContractError::Std(e));
        }
        i = i + 1;
        assert(owner_list@ =~= owners@.subrange(i as int, owners@.len() as int));
    }
    Ok(())
}

/// Checks the tokens the offerer gives when the offer is accepted, in order (see
/// [`accepted_offered_error`]).
fn check_accepted_offered(
    offerer: &String,
    tokens: &Vec<Token>,
    owners: Vec<Result<String, StdError>>,
    approvals: Vec<Result<(), StdError>>,
) -> (r: Result<(), ContractError>)
    requires
        owners@.len() == tokens@.len(),
        approvals@.len() == tokens@.len(),
    ensures
        match r {
            Ok(_) => accepted_offered_error(
                offerer@,
                tokens_view(tokens@),
                owners@,
                approvals@,
                0,
            ) is None,
            Err(e) => accepted_offered_error(
                offerer@,
                tokens_view(tokens@),
                owners@,
                approvals@,
                0,
            ) == Some(e@),
        },
{
    let mut owner_list = owners;
    let mut approval_list = approvals;
    let mut i: usize = 0;
    while i < tokens.len()
        invariant
            i <= tokens.len(),
            owner_list@ == owners@,
            owners@.len() == tokens@.len(),
            approval_list@ == approvals@,
            approvals@.len() == tokens@.len(),
            accepted_offered_error(offerer@, tokens_view(tokens@), owners@, approvals@, 0)
                == accepted_offered_error(offerer@, tokens_view(tokens@), owners@, approvals@, i as nat),
        decreases tokens.len() - i,
    {
        assert(tokens_view(tokens@)[i as int] == tokens@[i as int]@);
        if owner_list[i].is_err() {
            let e = owner_list.remove(i).unwrap_err();
            return Err(ContractError::Std(e));
        }
        let owner_is_offerer = match &owner_list[i] {
            Ok(owner) => *offerer == *owner,
            Err(_) => false,
        };
        if !owner_is_offerer {
            return Err(
                ContractError::UnauthorizedPeer {
                    collection: tokens[i].collection.clone(),
                    token_id: tokens[i].token_id,
                    peer: offerer.clone(),
                },
            );
        }
        if approval_list[i].is_err() {
            let e = approval_list.remove(i).unwrap_err();
            return Err(ContractError::Std(e));
        }
        i = i + 1;
    }
    Ok(())
}

/// Creates an offer from the message's sender to `peer` (see [`create_offer_ensures`]).
pub fn execute_create_offer(
    state: &mut ContractState,
    env: &Env,
    info: &MessageInfo,
    offered_tokens: Vec<Token>,
    wanted_tokens: Vec<Token>,
    peer: String,
    expires_at: u64,
    answers: Cw721Answers,
) -> (r: Result<Response, ContractError>)
    requires
        create_offer_requires(
            old(state)@,
            env.block.time,
            info.sender@,
            tokens_view(offered_tokens@),
            tokens_view(wanted_tokens@),
            peer@,
            expires_at,
            answers,
        ),
    ensures
        create_offer_ensures(
            old(state)@,
            final(state)@,
            env.block.time,
            info.sender@,
            tokens_view(offered_tokens@),
            tokens_view(wanted_tokens@),
            peer@,
            expires_at,
            answers,
            r,
        ),
{
    proof {
        use_type_invariant(&*state);
        state.lemma_keyed_by_id();
    }
    let Cw721Answers { offered_owners, offered_approvals, wanted_owners, wanted_approvals: _ } =
        answers;
    match check_offered_tokens(state, &info.sender, &offered_tokens, offered_owners, offered_approvals) {
        Err(e) => {
            return Err(e);
        },
        Ok(_) => {},
    }
    match check_wanted_tokens(&peer, &wanted_tokens, wanted_owners) {
        Err(e) => {
            return Err(e);
        },
        Ok(_) => {},
    }
    match state.params() {
        None => {
            return Err(ContractError::Std(not_found(PARAMS_KIND)));
        },
        Some(params) => match params.offer_expiry.is_valid(&env.block, expires_at) {
            Err(e) => {
                return Err(ContractError::ExpiryRange(e));
            },
            Ok(_) => {},
        },
    }
    let id = state.next_offer_id();
    let ghost offered_view = tokens_view(offered_tokens@);
    let ghost wanted_view = tokens_view(wanted_tokens@);
    let offer = Offer {
        id,
        offered_nfts: offered_tokens,
        wanted_nfts: wanted_tokens,
        sender: info.sender.clone(),
        peer,
        expires_at,
    };
    state.save_offer(offer);
    let res = Response::new().add_attribute(Attribute::Action(Action::CreateOffer)).add_attribute(
        Attribute::OfferId(id),
    );
    assert(res@.attributes =~= seq![Attribute::Action(Action::CreateOffer), Attribute::OfferId(id)]);
    Ok(res)
}

/// Withdraws an offer; only its sender may.
pub fn execute_remove_offer(state: &mut ContractState, info: &MessageInfo, id: u8) -> (r: Result<
    Response,
    ContractError,
>)
    ensures
        close_offer_ensures(
            old(state)@,
            final(state)@,
            id,
            old(state)@.offers[id].id,
            remove_offer_refusal(old(state)@.offers[id], info.sender@),
            Action::RevokeOffer,
            r,
        ),
{
    proof {
        use_type_invariant(&*state);
        state.lemma_keyed_by_id();
    }
    let offer_id = match state.offer(id) {
        None => {
            return Err(ContractError::Std(not_found(OFFER_KIND)));
        },
        Some(offer) => {
            if offer.sender != info.sender {
                return Err(ContractError::UnauthorizedSender {  });
            }
            offer.id
        },
    };
    let _ = state.remove_offer(offer_id);
    let res = Response::new().add_attribute(Attribute::Action(Action::RevokeOffer)).add_attribute(
        Attribute::OfferId(offer_id),
    );
    assert(res@.attributes =~= seq![
        Attribute::Action(Action::RevokeOffer),
        Attribute::OfferId(offer_id),
    ]);
    Ok(res)
}

/// Rejects an offer; only its peer may.
pub fn execute_reject_offer(state: &mut ContractState, info: &MessageInfo, id: u8) -> (r: Result<
    Response,
    ContractError,
>)
    ensures
        close_offer_ensures(
            old(state)@,
            final(state)@,
            id,
            old(state)@.offers[id].id,
            reject_offer_refusal(old(state)@.offers[id], info.sender@),
            Action::RejectOffer,
            r,
        ),
{
    proof {
        use_type_invariant(&*state);
        state.lemma_keyed_by_id();
    }
    let offer_id = match state.offer(id) {
        None => {
            return Err(ContractError::Std(not_found(OFFER_KIND)));
        },
        Some(offer) => {
            if offer.peer != info.sender {
                return Err(ContractError::UnauthorizedOperator {  });
            }
            offer.id
        },
    };
    let _ = state.remove_offer(offer_id);
    let res = Response::new().add_attribute(Attribute::Action(Action::RejectOffer)).add_attribute(
        Attribute::OfferId(offer_id),
    );
    assert(res@.attributes =~= seq![
        Attribute::Action(Action::RejectOffer),
        Attribute::OfferId(offer_id),
    ]);
    Ok(res)
}

/// Removes an offer on behalf of the maintainer, after the expiry check.
pub fn execute_remove_stale_offer(
    state: &mut ContractState,
    env: &Env,
    info: &MessageInfo,
    id: u8,
) -> (r: Result<Response, ContractError>)
    requires
        remove_stale_requires(old(state)@, id, env.block.time),
    ensures
        close_offer_ensures(
            old(state)@,
            final(state)@,
            id,
            id,
            remove_stale_refusal(old(state)@, old(state)@.offers[id], env.block.time, info.sender@),
            Action::RemoveStaleOffer,
            r,
        ),
{
    proof {
        use_type_invariant(&*state);
        state.lemma_keyed_by_id();
    }
    let offer_id = match state.offer(id) {
        None => {
            return Err(ContractError::Std(not_found(OFFER_KIND)));
        },
        Some(offer) => {
            match state.params() {
                None => {
                    return Err(ContractError::Std(not_found(PARAMS_KIND)));
                },
                Some(params) => {
                    match params.offer_expiry.is_valid(&env.block, offer.expires_at) {
                        Err(e) => {
                            return Err(ContractError::ExpiryRange(e));
                        },
                        Ok(_) => {},
                    }
                    if info.sender != params.maintainer {
                        return Err(ContractError::UnauthorizedOperator {  });
                    }
                },
            }
            offer.id
        },
    };
    let _ = state.remove_offer(id);
    let res = Response::new().add_attribute(Attribute::Action(Action::RemoveStaleOffer)).add_attribute(
        Attribute::OfferId(offer_id),
    );
    assert(res@.attributes =~= seq![
        Attribute::Action(Action::RemoveStaleOffer),
        Attribute::OfferId(offer_id),
    ]);
    Ok(res)
}

/// Appends to `res` a transfer of each of `nfts`, in order, to `recipient`; where one of the
/// transfers cannot be encoded, fails with that encoding error and leaves `res` as it was.
pub fn transfer_nfts(recipient: &String, nfts: Vec<Token>, res: &mut Response) -> (r: Result<
    (),
    ContractError,
>)
    ensures
        match first_encoding_error(recipient@, tokens_view(nfts@), 0) {
            None => r is Ok && final(res)@ == (ResponseView {
                messages: old(res)@.messages + transfers_to(recipient@, tokens_view(nfts@)),
                ..old(res)@
            }),
            Some(e) => r == Err::<(), ContractError>(ContractError::Std(e)) && final(res)@ == old(
                res,
            )@,
        },
{
    let mut batch: Vec<NftTransfer> = Vec::new();
    let mut i: usize = 0;
    while i < nfts.len()
        invariant
            i <= nfts.len(),
            batch@.map_values(|m: NftTransfer| m@) == transfers_to(
                recipient@,
                tokens_view(nfts@).subrange(0, i as int),
            ),
            first_encoding_error(recipient@, tokens_view(nfts@), 0) == first_encoding_error(
                recipient@,
                tokens_view(nfts@),
                i as nat,
            ),
        decreases nfts.len() - i,
    {
        let ghost before = batch@.map_values(|m: NftTransfer| m@);
        assert(tokens_view(nfts@)[i as int] == nfts@[i as int]@);
        let msg = match encode_transfer_nft(recipient, nfts[i].token_id) {
            Ok(bytes) => bytes,
            Err(e) => {
                return Err(ContractError::Std(e));
            },
        };
        batch.push(
            NftTransfer {
                collection: nfts[i].collection.clone(),
                recipient: recipient.clone(),
                token_id: nfts[i].token_id,
                msg,
            },
        );
        assert(batch@.map_values(|m: NftTransfer| m@) =~= before.push(
            transfer_of(recipient@, nfts@[i as int]@),
        ));
        i = i + 1;
        assert(transfers_to(recipient@, tokens_view(nfts@).subrange(0, i as int)) =~= transfers_to(
            recipient@,
            tokens_view(nfts@).subrange(0, i - 1 as int),
        ).push(transfer_of(recipient@, nfts@[i - 1]@)));
    }
    assert(tokens_view(nfts@).subrange(0, nfts@.len() as int) =~= tokens_view(nfts@));
    let ghost start = res@.messages;
    let ghost added = batch@.map_values(|m: NftTransfer| m@);
    res.messages.append(&mut batch);
    assert(res@.messages =~= start + added);
    Ok(())
}

/// Accepts an offer; only its peer may, and every token must be owned by its giver and
/// approved for this contract (see [`accept_offer_ensures`]).
pub fn execute_accept_offer(
    state: &mut ContractState,
    env: &Env,
    info: &MessageInfo,
    id: u8,
    answers: Cw721Answers,
) -> (r: Result<Response, ContractError>)
    requires
        accept_offer_requires(old(state)@, id, env.block.time, info.sender@, answers),
    ensures
        accept_offer_ensures(
            old(state)@,
            final(state)@,
            id,
            env.block.time,
            info.sender@,
            answers,
            r,
        ),
{
    proof {
        use_type_invariant(&*state);
        state.lemma_keyed_by_id();
    }
    let offer = match state.offer(id) {
        None => {
            return Err(ContractError::Std(not_found(OFFER_KIND)));
        },
        Some(o) => o.duplicate(),
    };
    match state.params() {
        None => {
            return Err(ContractError::Std(not_found(PARAMS_KIND)));
        },
        Some(params) => {
            if offer.peer != info.sender {
                return Err(ContractError::UnauthorizedOperator {  });
            }
            match params.offer_expiry.is_valid(&env.block, offer.expires_at) {
                Err(e) => {
                    return Err(ContractError::ExpiryRange(e));
                },
                Ok(_) => {},
            }
        },
    }
    let Cw721Answers { offered_owners, offered_approvals, wanted_owners, wanted_approvals } =
        answers;
    match check_accepted_wanted(&info.sender, &offer.wanted_nfts, wanted_owners, wanted_approvals) {
        Err(e) => {
            return Err(e);
        },
        Ok(_) => {},
    }
    match check_accepted_offered(&offer.sender, &offer.offered_nfts, offered_owners, offered_approvals) {
        Err(e) => {
            return Err(e);
        },
        Ok(_) => {},
    }
    // The transfers are encoded before the offer is removed, so that a failure leaves the
    // storage as it was, as the chain's rollback of a failed message does.
    let Offer { id: offer_id, offered_nfts, wanted_nfts, sender, peer, expires_at: _ } = offer;
    let mut res = Response::new();
    match transfer_nfts(&peer, offered_nfts, &mut res) {
        Err(e) => {
            return Err(e);
        },
        Ok(_) => {},
    }
    match transfer_nfts(&sender, wanted_nfts, &mut res) {
        Err(e) => {
            return Err(e);
        },
        Ok(_) => {},
    }
    let _ = state.remove_offer(offer_id);
    let res = res.add_attribute(Attribute::Action(Action::AcceptOffer));
    assert(res@.attributes =~= seq![Attribute::Action(Action::AcceptOffer)]);
    Ok(res)
}

// ---------------------------------------------------------------------------------------------
// Guarded execution
// ---------------------------------------------------------------------------------------------

/// Whether the offered tokens of a new offer pass their checks.
fn offered_tokens_pass(
    state: &ContractState,
    sender: &String,
    tokens: &Vec<Token>,
    owners: &Vec<Result<String, StdError>>,
    approvals: &Vec<Result<(), StdError>>,
) -> (b: bool)
    requires
        owners@.len() == tokens@.len(),
        approvals@.len() == tokens@.len(),
    ensures
        b == (offered_tokens_error(state@, sender@, tokens_view(tokens@), owners@, approvals@, 0)
            is None),
{
    let mut i: usize = 0;
    while i < tokens.len()
        invariant
            i <= tokens.len(),
            owners@.len() == tokens@.len(),
            approvals@.len() == tokens@.len(),
            offered_tokens_error(state@, sender@, tokens_view(tokens@), owners@, approvals@, 0)
                == offered_tokens_error(
                state@,
                sender@,
                tokens_view(tokens@),
                owners@,
                approvals@,
                i as nat,
            ),
        decreases tokens.len() - i,
    {
        assert(tokens_view(tokens@)[i as int] == tokens@[i as int]@);
        match &owners[i] {
            Err(_) => {
                return false;
            },
            Ok(owner) => {
                if *owner != *sender {
                    return false;
                }
            },
        }
        if approvals[i].is_err() {
            return false;
        }
        if state.sender_offer_with_token(sender, &tokens[i]).is_some() {
            return false;
        }
        i = i + 1;
    }
    true
}

/// Whether the wanted tokens of a new offer pass their checks.
fn wanted_tokens_pass(peer: &String, tokens: &Vec<Token>, owners: &Vec<Result<String, StdError>>) -> (b:
    bool)
    requires
        owners@.len() == tokens@.len(),
    ensures
        b == (wanted_tokens_error(peer@, tokens_view(tokens@), owners@, 0) is None),
{
    let mut i: usize = 0;
    while i < tokens.len()
        invariant
            i <= tokens.len(),
            owners@.len() == tokens@.len(),
            wanted_tokens_error(peer@, tokens_view(tokens@), owners@, 0) == wanted_tokens_error(
                peer@,
                tokens_view(tokens@),
                owners@,
                i as nat,
            ),
        decreases tokens.len() - i,
    {
        assert(tokens_view(tokens@)[i as int] == tokens@[i as int]@);
        match &owners[i] {
            Err(_) => {
                return false;
            },
            Ok(owner) => {
                if *peer != *owner {
                    return false;
                }
            },
        }
        i = i + 1;
    }
    true
}

/// Whether the expiry check of `range` computes both of its bounds without overflow.
fn expiry_check_fits(range: &ExpiryRange, now: u64, expires: u64) -> (b: bool)
    ensures
        b == range.check_fits(now, expires),
{
    let max: u128 = 0xffff_ffff_ffff_ffffu128;
    let lower: u128 = now as u128 + range.min as u128 * 1_000_000_000u128;
    let upper: u128 = now as u128 + range.max as u128 * 1_000_000_000u128;
    lower <= max && (!(lower < expires as u128) || upper <= max)
}

/// Executes a message where [`execute`] would not panic; returns `None`, changing nothing,
/// exactly where it would (the expiry bounds or the next offer id overflow) or where the
/// answers do not match the tokens one for one.
pub fn try_execute(
    state: &mut ContractState,
    env: &Env,
    info: &MessageInfo,
    msg: ExecuteMsg,
    answers: Cw721Answers,
) -> (r: Option<Result<Response, ContractError>>)
    ensures
        match r {
            None => !execute_requires(old(state)@, *env, *info, msg, answers) && final(state)@ == old(
                state,
            )@,
            Some(res) => execute_requires(old(state)@, *env, *info, msg, answers) && execute_ensures(
                old(state)@,
                final(state)@,
                *env,
                *info,
                msg,
                answers,
                res,
            ),
        },
{
    let now = env.block.time;
    let acceptable = match &msg {
        ExecuteMsg::CreateOffer { offered_nfts, wanted_nfts, peer, expires_at } => {
            if answers.offered_owners.len() != offered_nfts.len() || answers.offered_approvals.len()
                != offered_nfts.len() || answers.wanted_owners.len() != wanted_nfts.len() {
                false
            } else {
                let tokens_pass = offered_tokens_pass(
                    state,
                    &info.sender,
                    offered_nfts,
                    &answers.offered_owners,
                    &answers.offered_approvals,
                ) && wanted_tokens_pass(peer, wanted_nfts, &answers.wanted_owners);
                match state.params() {
                    None => true,
                    Some(params) => {
                        if !tokens_pass {
                            true
                        } else if !expiry_check_fits(&params.offer_expiry, now, *expires_at) {
                            false
                        } else {
                            let lower = now + params.offer_expiry.min * 1_000_000_000;
                            let in_range = lower < *expires_at && *expires_at <= now
                                + params.offer_expiry.max * 1_000_000_000;
                            !in_range || state.offer_count() < 255
                        }
                    },
                }
            }
        },
        ExecuteMsg::AcceptOffer { id } => match state.offer(*id) {
            None => true,
            Some(offer) => {
                if answers.offered_owners.len() != offer.offered_nfts.len()
                    || answers.offered_approvals.len() != offer.offered_nfts.len()
                    || answers.wanted_owners.len() != offer.wanted_nfts.len()
                    || answers.wanted_approvals.len() != offer.wanted_nfts.len() {
                    false
                } else {
                    match state.params() {
                        None => true,
                        Some(params) => offer.peer != info.sender || expiry_check_fits(
                            &params.offer_expiry,
                            now,
                            offer.expires_at,
                        ),
                    }
                }
            },
        },
        ExecuteMsg::RemoveStaleOffer { id } => match state.offer(*id) {
            None => true,
            Some(offer) => match state.params() {
                None => true,
                Some(params) => expiry_check_fits(&params.offer_expiry, now, offer.expires_at),
            },
        },
        _ => true,
    };
    if !acceptable {
        return None;
    }
    Some(execute(state, env, info, msg, answers))
}

// ---------------------------------------------------------------------------------------------
// The cw721 queries a message needs
// ---------------------------------------------------------------------------------------------

/// The queries to the cw721 collections that a message needs, in the order of the answers in
/// [`Cw721Answers`]: the owner of each offered and each wanted token, whether `spender` is
/// approved for each offered token, and for each wanted token where `approve_wanted` holds.
pub struct QueryPlan {
    pub offered: Vec<Token>,
    pub wanted: Vec<Token>,
    pub spender: String,
    pub approve_wanted: bool,
}

/// The queries that `msg` needs in state `state`: for a new offer, those about the message's
/// tokens (no approvals of the wanted ones); for an accepted offer, those about the stored
/// offer's tokens; none otherwise. This contract is the spender.
pub fn cw721_queries(state: &ContractState, env: &Env, msg: &ExecuteMsg) -> (plan: QueryPlan)
    ensures
        plan.spender@ == env.contract.address@,
        match *msg {
            ExecuteMsg::CreateOffer { offered_nfts, wanted_nfts, .. } => {
                &&& plan.offered@ == offered_nfts@
                &&& plan.wanted@ == wanted_nfts@
                &&& !plan.approve_wanted
            },
            ExecuteMsg::AcceptOffer { id } => if state@.offers.contains_key(id) {
                &&& tokens_view(plan.offered@) == state@.offers[id].offered_nfts
                &&& tokens_view(plan.wanted@) == state@.offers[id].wanted_nfts
                &&& plan.approve_wanted
            } else {
                plan.offered@.len() == 0 && plan.wanted@.len() == 0
            },
            _ => plan.offered@.len() == 0 && plan.wanted@.len() == 0,
        },
{
    let spender = env.contract.address.clone();
    match msg {
        ExecuteMsg::CreateOffer { offered_nfts, wanted_nfts, .. } => QueryPlan {
            offered: crate::state::copy_tokens(offered_nfts),
            wanted: crate::state::copy_tokens(wanted_nfts),
            spender,
            approve_wanted: false,
        },
        ExecuteMsg::AcceptOffer { id } => match state.offer(*id) {
            Some(offer) => QueryPlan {
                offered: crate::state::copy_tokens(&offer.offered_nfts),
                wanted: crate::state::copy_tokens(&offer.wanted_nfts),
                spender,
                approve_wanted: true,
            },
            None => QueryPlan {
                offered: Vec::new(),
                wanted: Vec::new(),
                spender,
                approve_wanted: false,
            },
        },
        _ => QueryPlan { offered: Vec::new(), wanted: Vec::new(), spender, approve_wanted: false },
    }
}

} // verus!
