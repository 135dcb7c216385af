use vstd::prelude::*;

use cosmwasm_std::StdError;

use crate::error::{
    offer_not_found, params_not_found, ContractError, ContractErrorView, ExpiryRangeError,
};
use crate::execute::{
    accept_offer_ensures, accepted_offered_error, accepted_wanted_error, create_offer_ensures,
    execute_ensures, offered_tokens_error, wanted_tokens_error,
};
use crate::laws::{lemma_lowest_none, lemma_lowest_some};
use crate::msg::{
    first_encoding_error, transfer_nft_encoding, Action, Attribute, Cw721Answers, Env, ExecuteMsg,
    MessageInfo, Response,
};
use crate::state::{lowest_id_where, sent_offering, ContractStateView, OfferView, TokenView};

verus! {

// What each message achieves, stated directly over its inputs and its results.

// ---------------------------------------------------------------------------------------------
// Lemmas on the checks, token by token
// ---------------------------------------------------------------------------------------------

/// The offered tokens of a new offer pass their checks from `i` on exactly when each of them
/// is owned by the sender, approved, and in none of the sender's open offers.
pub proof fn lemma_offered_checks(
    st: ContractStateView,
    sender: Seq<char>,
    tokens: Seq<TokenView>,
    owners: Seq<Result<String, StdError>>,
    approvals: Seq<Result<(), StdError>>,
    i: nat,
)
    ensures
        offered_tokens_error(st, sender, tokens, owners, approvals, i) is None <==> forall|j: int|
            i <= j < tokens.len() ==> {
                &&& #[trigger] owners[j] is Ok
                &&& owners[j]->Ok_0@ == sender
                &&& approvals[j] is Ok
                &&& forall|k: u8|
                    #[trigger] st.offers.contains_key(k) && st.offers[k].sender == sender
                        ==> !st.offers[k].offered_nfts.contains(tokens[j])
            },
    decreases tokens.len() - i,
{
    if i < tokens.len() {
        lemma_offered_checks(st, sender, tokens, owners, approvals, i + 1);
        lemma_lowest_none(st.offers, sent_offering(sender, tokens[i as int]), 0);
        if offered_tokens_error(st, sender, tokens, owners, approvals, i) is None {
            assert forall|j: int| i <= j < tokens.len() implies {
                &&& #[trigger] owners[j] is Ok
                &&& owners[j]->Ok_0@ == sender
                &&& approvals[j] is Ok
                &&& forall|k: u8|
                    #[trigger] st.offers.contains_key(k) && st.offers[k].sender == sender
                        ==> !st.offers[k].offered_nfts.contains(tokens[j])
            } by {
                if j == i {
                    assert forall|k: u8|
                        #[trigger] st.offers.contains_key(k) && st.offers[k].sender
                            == sender implies !st.offers[k].offered_nfts.contains(tokens[j]) by {
                        assert(!sent_offering(sender, tokens[i as int])(st.offers[k]));
                    }
                }
            }
        } else if forall|j: int|
            i <= j < tokens.len() ==> {
                &&& #[trigger] owners[j] is Ok
                &&& owners[j]->Ok_0@ == sender
                &&& approvals[j] is Ok
                &&& forall|k: u8|
                    #[trigger] st.offers.contains_key(k) && st.offers[k].sender == sender
                        ==> !st.offers[k].offered_nfts.contains(tokens[j])
            } {
            assert(owners[i as int] is Ok);
            assert forall|k: u8| 0 <= k && #[trigger] st.offers.contains_key(k) implies !sent_offering(
                sender,
                tokens[i as int],
            )(st.offers[k]) by {
                if st.offers[k].sender == sender {
                    assert(!st.offers[k].offered_nfts.contains(tokens[i as int]));
                }
            }
        }
    }
}

/// A `TokenAlreadyOffered` refusal of the offered tokens names one of them and the lowest id
/// of a sender's open offer holding it.
pub proof fn lemma_offered_already(
    st: ContractStateView,
    sender: Seq<char>,
    tokens: Seq<TokenView>,
    owners: Seq<Result<String, StdError>>,
    approvals: Seq<Result<(), StdError>>,
    i: nat,
    collection: Seq<char>,
    token_id: u32,
    offer_id: u8,
)
    requires
        offered_tokens_error(st, sender, tokens, owners, approvals, i) == Some(
            ContractErrorView::TokenAlreadyOffered { collection, token_id, offer_id },
        ),
    ensures
        exists|j: int|
            i <= j < tokens.len() && #[trigger] tokens[j] == (TokenView { collection, token_id })
                && lowest_id_where(st.offers, sent_offering(sender, tokens[j]), 0) == Some(
                offer_id,
            ),
    decreases tokens.len() - i,
{
    if i < tokens.len() {
        if lowest_id_where(st.offers, sent_offering(sender, tokens[i as int]), 0) is Some
            && owners[i as int] is Ok && owners[i as int]->Ok_0@ == sender && approvals[i as int] is Ok {
            assert(tokens[i as int] == (TokenView { collection, token_id }));
        } else {
            lemma_offered_already(
                st,
                sender,
                tokens,
                owners,
                approvals,
                i + 1,
                collection,
                token_id,
                offer_id,
            );
        }
    }
}

/// The wanted tokens of a new offer pass their checks from `i` on exactly when the peer owns
/// each of them.
pub proof fn lemma_wanted_checks(
    peer: Seq<char>,
    tokens: Seq<TokenView>,
    owners: Seq<Result<String, StdError>>,
    i: nat,
)
    ensures
        wanted_tokens_error(peer, tokens, owners, i) is None <==> forall|j: int|
            i <= j < tokens.len() ==> #[trigger] owners[j] is Ok && owners[j]->Ok_0@ == peer,
    decreases tokens.len() - i,
{
    if i < tokens.len() {
        lemma_wanted_checks(peer, tokens, owners, i + 1);
    }
}

/// The checks of the wanted tokens never refuse a token as already on offer.
pub proof fn lemma_wanted_never_already_offered(
    peer: Seq<char>,
    tokens: Seq<TokenView>,
    owners: Seq<Result<String, StdError>>,
    i: nat,
)
    ensures
        !(wanted_tokens_error(peer, tokens, owners, i) matches Some(
            ContractErrorView::TokenAlreadyOffered { .. },
        )),
    decreases tokens.len() - i,
{
    if i < tokens.len() {
        lemma_wanted_never_already_offered(peer, tokens, owners, i + 1);
    }
}

/// The tokens the accepting peer gives pass their checks from `i` on exactly when the peer
/// owns each of them and each is approved.
pub proof fn lemma_accepted_wanted_checks(
    accepter: Seq<char>,
    tokens: Seq<TokenView>,
    owners: Seq<Result<String, StdError>>,
    approvals: Seq<Result<(), StdError>>,
    i: nat,
)
    ensures
        accepted_wanted_error(accepter, tokens, owners, approvals, i) is None <==> forall|j: int|
            i <= j < tokens.len() ==> #[trigger] owners[j] is Ok && owners[j]->Ok_0@ == accepter
                && approvals[j] is Ok,
    decreases tokens.len() - i,
{
    if i < tokens.len() {
        lemma_accepted_wanted_checks(accepter, tokens, owners, approvals, i + 1);
    }
}

/// The tokens the offerer gives pass their checks from `i` on exactly when the offerer still
/// owns each of them and each is approved.
pub proof fn lemma_accepted_offered_checks(
    offerer: Seq<char>,
    tokens: Seq<TokenView>,
    owners: Seq<Result<String, StdError>>,
    approvals: Seq<Result<(), StdError>>,
    i: nat,
)
    ensures
        accepted_offered_error(offerer, tokens, owners, approvals, i) is None <==> forall|j: int|
            i <= j < tokens.len() ==> #[trigger] owners[j] is Ok && owners[j]->Ok_0@ == offerer
                && approvals[j] is Ok,
    decreases tokens.len() - i,
{
    if i < tokens.len() {
        lemma_accepted_offered_checks(offerer, tokens, owners, approvals, i + 1);
    }
}

/// Where the offerer owns every token and the approvals before `j` succeed, a failed approval
/// at `j` is the error of the offerer's tokens.
pub proof fn lemma_accepted_offered_first_approval(
    offerer: Seq<char>,
    tokens: Seq<TokenView>,
    owners: Seq<Result<String, StdError>>,
    approvals: Seq<Result<(), StdError>>,
    i: nat,
    j: int,
)
    requires
        i <= j < tokens.len(),
        forall|k: int| i <= k < tokens.len() ==> #[trigger] owners[k] is Ok && owners[k]->Ok_0@ == offerer,
        forall|k: int| i <= k < j ==> #[trigger] approvals[k] is Ok,
        approvals[j] is Err,
    ensures
        accepted_offered_error(offerer, tokens, owners, approvals, i) == Some(
            ContractErrorView::Std(approvals[j]->Err_0),
        ),
    decreases j - i,
{
    assert(owners[i as int] is Ok);
    if i < j {
        assert(approvals[i as int] is Ok);
        lemma_accepted_offered_first_approval(offerer, tokens, owners, approvals, i + 1, j);
    }
}

/// The transfers from `i` on encode exactly when each of their encodings succeeds.
pub proof fn lemma_encodings(recipient: Seq<char>, tokens: Seq<TokenView>, i: nat)
    ensures
        first_encoding_error(recipient, tokens, i) is None <==> forall|j: int|
            i <= j < tokens.len() ==> transfer_nft_encoding(recipient, #[trigger] tokens[j].token_id)
                is Ok,
    decreases tokens.len() - i,
{
    if i < tokens.len() {
        lemma_encodings(recipient, tokens, i + 1);
    }
}

/// Every refusal of the offered tokens of a new offer has its reason among those tokens: a
/// failed query, or an owner other than the sender (a token already on offer is the subject of
/// [`lemma_offered_already`]).
pub proof fn lemma_offered_refusal_reason(
    st: ContractStateView,
    sender: Seq<char>,
    tokens: Seq<TokenView>,
    owners: Seq<Result<String, StdError>>,
    approvals: Seq<Result<(), StdError>>,
    i: nat,
)
    ensures
        match offered_tokens_error(st, sender, tokens, owners, approvals, i) {
            Some(ContractErrorView::Std(x)) => exists|j: int|
                i <= j < tokens.len() && (#[trigger] owners[j] == Err::<String, StdError>(x)
                    || approvals[j] == Err::<(), StdError>(x)),
            Some(ContractErrorView::UnauthorizedSender) => exists|j: int|
                i <= j < tokens.len() && #[trigger] owners[j] is Ok && owners[j]->Ok_0@ != sender,
            Some(ContractErrorView::TokenAlreadyOffered { .. }) => true,
            Some(_) => false,
            None => true,
        },
    decreases tokens.len() - i,
{
    if i < tokens.len() {
        lemma_offered_refusal_reason(st, sender, tokens, owners, approvals, i + 1);
        let j = i as int;
        assert(i <= j < tokens.len() && owners[j] == owners[j]);
    }
}

/// Every refusal of the wanted tokens of a new offer has its reason among those tokens: a
/// failed query, or a token the peer does not own.
pub proof fn lemma_wanted_refusal_reason(
    peer: Seq<char>,
    tokens: Seq<TokenView>,
    owners: Seq<Result<String, StdError>>,
    i: nat,
)
    ensures
        match wanted_tokens_error(peer, tokens, owners, i) {
            Some(ContractErrorView::Std(x)) => exists|j: int|
                i <= j < tokens.len() && #[trigger] owners[j] == Err::<String, StdError>(x),
            Some(ContractErrorView::UnauthorizedPeer { collection, token_id, peer: p }) => {
                &&& p == peer
                &&& exists|j: int|
                    i <= j < tokens.len() && #[trigger] tokens[j] == (TokenView {
                        collection,
                        token_id,
                    }) && owners[j] is Ok && owners[j]->Ok_0@ != peer
            },
            Some(_) => false,
            None => true,
        },
    decreases tokens.len() - i,
{
    if i < tokens.len() {
        lemma_wanted_refusal_reason(peer, tokens, owners, i + 1);
        let j = i as int;
        assert(tokens[j] == tokens[j] && owners[j] == owners[j]);
    }
}

/// Every refusal of the tokens the accepting peer gives has its reason among them: a failed
/// query, or a token the peer does not own.
pub proof fn lemma_accepted_wanted_refusal_reason(
    accepter: Seq<char>,
    tokens: Seq<TokenView>,
    owners: Seq<Result<String, StdError>>,
    approvals: Seq<Result<(), StdError>>,
    i: nat,
)
    ensures
        match accepted_wanted_error(accepter, tokens, owners, approvals, i) {
            Some(ContractErrorView::Std(x)) => exists|j: int|
                i <= j < tokens.len() && (#[trigger] owners[j] == Err::<String, StdError>(x)
                    || approvals[j] == Err::<(), StdError>(x)),
            Some(ContractErrorView::UnauthorizedSender) => exists|j: int|
                i <= j < tokens.len() && #[trigger] owners[j] is Ok && owners[j]->Ok_0@ != accepter,
            Some(_) => false,
            None => true,
        },
    decreases tokens.len() - i,
{
    if i < tokens.len() {
        lemma_accepted_wanted_refusal_reason(accepter, tokens, owners, approvals, i + 1);
        let j = i as int;
        assert(owners[j] == owners[j]);
    }
}

/// Every refusal of the tokens the offerer gives on acceptance has its reason among them: a
/// failed query, or a token the offerer no longer owns.
pub proof fn lemma_accepted_offered_refusal_reason(
    offerer: Seq<char>,
    tokens: Seq<TokenView>,
    owners: Seq<Result<String, StdError>>,
    approvals: Seq<Result<(), StdError>>,
    i: nat,
)
    ensures
        match accepted_offered_error(offerer, tokens, owners, approvals, i) {
            Some(ContractErrorView::Std(x)) => exists|j: int|
                i <= j < tokens.len() && (#[trigger] owners[j] == Err::<String, StdError>(x)
                    || approvals[j] == Err::<(), StdError>(x)),
            Some(ContractErrorView::UnauthorizedPeer { collection, token_id, peer: p }) => {
                &&& p == offerer
                &&& exists|j: int|
                    i <= j < tokens.len() && #[trigger] tokens[j] == (TokenView {
                        collection,
                        token_id,
                    }) && owners[j] is Ok && owners[j]->Ok_0@ != offerer
            },
            Some(_) => false,
            None => true,
        },
    decreases tokens.len() - i,
{
    if i < tokens.len() {
        lemma_accepted_offered_refusal_reason(offerer, tokens, owners, approvals, i + 1);
        let j = i as int;
        assert(tokens[j] == tokens[j] && owners[j] == owners[j]);
    }
}

/// A failed encoding of the transfers is the failed encoding of one of them.
pub proof fn lemma_encoding_refusal_reason(recipient: Seq<char>, tokens: Seq<TokenView>, i: nat)
    ensures
        match first_encoding_error(recipient, tokens, i) {
            Some(x) => exists|j: int|
                i <= j < tokens.len() && transfer_nft_encoding(
                    recipient,
                    #[trigger] tokens[j].token_id,
                ) == Err::<Seq<u8>, StdError>(x),
            None => true,
        },
    decreases tokens.len() - i,
{
    if i < tokens.len() {
        lemma_encoding_refusal_reason(recipient, tokens, i + 1);
        let j = i as int;
        assert(tokens[j].token_id == tokens[j].token_id);
    }
}

// ---------------------------------------------------------------------------------------------
// What each message achieves
// ---------------------------------------------------------------------------------------------

/// A new offer is refused as offering a token already on offer only when that very NFT (same
/// collection and same token id) is among the offered ones and is held by the named open
/// offer of the same sender.
pub proof fn create_refuses_only_a_token_already_on_offer(
    old_st: ContractStateView,
    new_st: ContractStateView,
    env: Env,
    info: MessageInfo,
    offered: Seq<TokenView>,
    wanted: Seq<TokenView>,
    peer: Seq<char>,
    expires_at: u64,
    answers: Cw721Answers,
    r: Result<Response, ContractError>,
)
    requires
        create_offer_ensures(
            old_st,
            new_st,
            env.block.time,
            info.sender@,
            offered,
            wanted,
            peer,
            expires_at,
            answers,
            r,
        ),
    ensures
        match r {
            Err(e) => match e@ {
                ContractErrorView::TokenAlreadyOffered { collection, token_id, offer_id } => {
                    &&& offered.contains(TokenView { collection, token_id })
                    &&& old_st.offers.contains_key(offer_id)
                    &&& old_st.offers[offer_id].sender == info.sender@
                    &&& old_st.offers[offer_id].offered_nfts.contains(
                        TokenView { collection, token_id },
                    )
                },
                _ => true,
            },
            Ok(_) => true,
        },
{
    if r is Err {
        let e = r->Err_0@;
        if e is TokenAlreadyOffered {
            let collection = e->TokenAlreadyOffered_collection;
            let token_id = e->TokenAlreadyOffered_token_id;
            let offer_id = e->TokenAlreadyOffered_offer_id;
            lemma_wanted_never_already_offered(peer, wanted, answers.wanted_owners@, 0);
            lemma_offered_already(
                old_st,
                info.sender@,
                offered,
                answers.offered_owners@,
                answers.offered_approvals@,
                0,
                collection,
                token_id,
                offer_id,
            );
            let j = choose|j: int|
                0 <= j < offered.len() && #[trigger] offered[j] == (TokenView {
                    collection,
                    token_id,
                }) && lowest_id_where(old_st.offers, sent_offering(info.sender@, offered[j]), 0)
                    == Some(offer_id);
            lemma_lowest_some(old_st.offers, sent_offering(info.sender@, offered[j]), 0);
            assert(offered.contains(offered[j]));
        }
    }
}

/// A new offer whose offered tokens are all owned by the sender, approved, and in none of the
/// sender's open offers, whose wanted tokens are all owned by the peer, made after
/// instantiation with an expiry more than the minimum and at most the maximum number of
/// seconds ahead, is created: it is stored under the id one above the old counter.
pub proof fn create_succeeds_when_every_check_passes(
    old_st: ContractStateView,
    new_st: ContractStateView,
    env: Env,
    info: MessageInfo,
    offered: Seq<TokenView>,
    wanted: Seq<TokenView>,
    peer: Seq<char>,
    expires_at: u64,
    answers: Cw721Answers,
    r: Result<Response, ContractError>,
)
    requires
        create_offer_ensures(
            old_st,
            new_st,
            env.block.time,
            info.sender@,
            offered,
            wanted,
            peer,
            expires_at,
            answers,
            r,
        ),
        forall|j: int|
            0 <= j < offered.len() ==> #[trigger] answers.offered_owners@[j] is Ok
                && answers.offered_owners@[j]->Ok_0@ == info.sender@
                && answers.offered_approvals@[j] is Ok,
        forall|k: u8, j: int|
            #[trigger] old_st.offers.contains_key(k) && old_st.offers[k].sender == info.sender@ && 0
                <= j < offered.len() ==> !old_st.offers[k].offered_nfts.contains(
                #[trigger] offered[j],
            ),
        forall|j: int|
            0 <= j < wanted.len() ==> #[trigger] answers.wanted_owners@[j] is Ok
                && answers.wanted_owners@[j]->Ok_0@ == peer,
        old_st.params is Some,
        env.block.time + old_st.params->0.offer_expiry.min * 1_000_000_000 < expires_at,
        expires_at <= env.block.time + old_st.params->0.offer_expiry.max * 1_000_000_000,
    ensures
        r is Ok,
        new_st.offers == old_st.offers.insert(
            (old_st.offer_count + 1) as u8,
            OfferView {
                id: (old_st.offer_count + 1) as u8,
                offered_nfts: offered,
                wanted_nfts: wanted,
                sender: info.sender@,
                peer,
                expires_at,
            },
        ),
        r->Ok_0@.attributes == seq![
            Attribute::Action(Action::CreateOffer),
            Attribute::OfferId((old_st.offer_count + 1) as u8),
        ],
{
    lemma_offered_checks(
        old_st,
        info.sender@,
        offered,
        answers.offered_owners@,
        answers.offered_approvals@,
        0,
    );
    assert forall|j: int| 0 <= j < offered.len() implies {
        &&& #[trigger] answers.offered_owners@[j] is Ok
        &&& answers.offered_owners@[j]->Ok_0@ == info.sender@
        &&& answers.offered_approvals@[j] is Ok
        &&& forall|k: u8|
            #[trigger] old_st.offers.contains_key(k) && old_st.offers[k].sender == info.sender@
                ==> !old_st.offers[k].offered_nfts.contains(offered[j])
    } by {
        assert forall|k: u8|
            #[trigger] old_st.offers.contains_key(k) && old_st.offers[k].sender
                == info.sender@ implies !old_st.offers[k].offered_nfts.contains(offered[j]) by {
            assert(!old_st.offers[k].offered_nfts.contains(offered[j]));
        }
    }
    lemma_wanted_checks(peer, wanted, answers.wanted_owners@, 0);
}

/// Every refusal of a new offer has a true reason, and changes nothing: a failed query names
/// its error; the sender does not own an offered token; the peer does not own the named
/// wanted token; the contract was not instantiated; or the expiry is not more than the
/// minimum and at most the maximum number of seconds ahead.
pub proof fn create_refusal_has_a_reason(
    old_st: ContractStateView,
    new_st: ContractStateView,
    env: Env,
    info: MessageInfo,
    offered: Seq<TokenView>,
    wanted: Seq<TokenView>,
    peer: Seq<char>,
    expires_at: u64,
    answers: Cw721Answers,
    r: Result<Response, ContractError>,
)
    requires
        create_offer_ensures(
            old_st,
            new_st,
            env.block.time,
            info.sender@,
            offered,
            wanted,
            peer,
            expires_at,
            answers,
            r,
        ),
        r is Err,
    ensures
        new_st == old_st,
        match r->Err_0@ {
            ContractErrorView::Std(x) => {
                ||| exists|j: int|
                    0 <= j < offered.len() && (#[trigger] answers.offered_owners@[j] == Err::<
                        String,
                        StdError,
                    >(x) || answers.offered_approvals@[j] == Err::<(), StdError>(x))
                ||| exists|j: int|
                    0 <= j < wanted.len() && #[trigger] answers.wanted_owners@[j] == Err::<
                        String,
                        StdError,
                    >(x)
                ||| old_st.params is None && x == params_not_found()
            },
            ContractErrorView::UnauthorizedSender => exists|j: int|
                0 <= j < offered.len() && #[trigger] answers.offered_owners@[j] is Ok
                    && answers.offered_owners@[j]->Ok_0@ != info.sender@,
            ContractErrorView::UnauthorizedPeer { collection, token_id, peer: p } => {
                &&& p == peer
                &&& exists|j: int|
                    0 <= j < wanted.len() && #[trigger] wanted[j] == (TokenView {
                        collection,
                        token_id,
                    }) && answers.wanted_owners@[j] is Ok && answers.wanted_owners@[j]->Ok_0@
                        != peer
            },
            ContractErrorView::TokenAlreadyOffered { collection, token_id, offer_id } => {
                &&& offered.contains(TokenView { collection, token_id })
                &&& old_st.offers.contains_key(offer_id)
                &&& old_st.offers[offer_id].sender == info.sender@
                &&& old_st.offers[offer_id].offered_nfts.contains(
                    TokenView { collection, token_id },
                )
            },
            ContractErrorView::ExpiryRange(ee) => {
                &&& ee == ExpiryRangeError::InvalidExpirationRange {  }
                &&& old_st.params is Some
                &&& !(env.block.time + old_st.params->0.offer_expiry.min * 1_000_000_000
                    < expires_at && expires_at <= env.block.time
                    + old_st.params->0.offer_expiry.max * 1_000_000_000)
            },
            _ => false,
        },
{
    lemma_offered_refusal_reason(
        old_st,
        info.sender@,
        offered,
        answers.offered_owners@,
        answers.offered_approvals@,
        0,
    );
    lemma_wanted_refusal_reason(peer, wanted, answers.wanted_owners@, 0);
    create_refuses_only_a_token_already_on_offer(
        old_st,
        new_st,
        env,
        info,
        offered,
        wanted,
        peer,
        expires_at,
        answers,
        r,
    );
}

/// Every refusal to accept an offer has a true reason, and changes nothing: no offer is
/// stored under the id; the contract was not instantiated; the caller is not the offer's peer;
/// the expiry is out of range; the caller does not own a wanted token; the offer's sender no
/// longer owns the named offered token; or a query or an encoding of a transfer failed with
/// the error given.
pub proof fn accept_refusal_has_a_reason(
    old_st: ContractStateView,
    new_st: ContractStateView,
    id: u8,
    env: Env,
    info: MessageInfo,
    answers: Cw721Answers,
    r: Result<Response, ContractError>,
)
    requires
        accept_offer_ensures(old_st, new_st, id, env.block.time, info.sender@, answers, r),
        r is Err,
    ensures
        new_st == old_st,
        !old_st.offers.contains_key(id) ==> r->Err_0@ == ContractErrorView::Std(offer_not_found()),
        old_st.offers.contains_key(id) ==> {
            let o = old_st.offers[id];
            match r->Err_0@ {
                ContractErrorView::Std(x) => {
                    ||| old_st.params is None && x == params_not_found()
                    ||| exists|j: int|
                        0 <= j < o.wanted_nfts.len() && (#[trigger] answers.wanted_owners@[j]
                            == Err::<String, StdError>(x) || answers.wanted_approvals@[j] == Err::<
                            (),
                            StdError,
                        >(x))
                    ||| exists|j: int|
                        0 <= j < o.offered_nfts.len() && (#[trigger] answers.offered_owners@[j]
                            == Err::<String, StdError>(x) || answers.offered_approvals@[j]
                            == Err::<(), StdError>(x))
                    ||| exists|j: int|
                        0 <= j < o.offered_nfts.len() && transfer_nft_encoding(
                            o.peer,
                            #[trigger] o.offered_nfts[j].token_id,
                        ) == Err::<Seq<u8>, StdError>(x)
                    ||| exists|j: int|
                        0 <= j < o.wanted_nfts.len() && transfer_nft_encoding(
                            o.sender,
                            #[trigger] o.wanted_nfts[j].token_id,
                        ) == Err::<Seq<u8>, StdError>(x)
                },
                ContractErrorView::UnauthorizedOperator => old_st.params is Some && o.peer
                    != info.sender@,
                ContractErrorView::ExpiryRange(ee) => {
                    &&& ee == ExpiryRangeError::InvalidExpirationRange {  }
                    &&& old_st.params is Some
                    &&& !(env.block.time + old_st.params->0.offer_expiry.min * 1_000_000_000
                        < o.expires_at && o.expires_at <= env.block.time
                        + old_st.params->0.offer_expiry.max * 1_000_000_000)
                },
                ContractErrorView::UnauthorizedSender => exists|j: int|
                    0 <= j < o.wanted_nfts.len() && #[trigger] answers.wanted_owners@[j] is Ok
                        && answers.wanted_owners@[j]->Ok_0@ != info.sender@,
                ContractErrorView::UnauthorizedPeer { collection, token_id, peer: p } => {
                    &&& p == o.sender
                    &&& exists|j: int|
                        0 <= j < o.offered_nfts.len() && #[trigger] o.offered_nfts[j] == (
                        TokenView { collection, token_id }) && answers.offered_owners@[j] is Ok
                            && answers.offered_owners@[j]->Ok_0@ != o.sender
                },
                _ => false,
            }
        },
{
    if old_st.offers.contains_key(id) {
        let o = old_st.offers[id];
        lemma_accepted_wanted_refusal_reason(
            info.sender@,
            o.wanted_nfts,
            answers.wanted_owners@,
            answers.wanted_approvals@,
            0,
        );
        lemma_accepted_offered_refusal_reason(
            o.sender,
            o.offered_nfts,
            answers.offered_owners@,
            answers.offered_approvals@,
            0,
        );
        lemma_encoding_refusal_reason(o.peer, o.offered_nfts, 0);
        lemma_encoding_refusal_reason(o.sender, o.wanted_nfts, 0);
    }
}

/// An accepted offer was stored, made to the caller, after instantiation, with its expiry in
/// the allowed range; the caller owns and has approved every wanted token, the offer's sender
/// still owns and has approved every offered token; the offer is removed, and the response
/// transfers each offered token to the peer, then each wanted token to the sender.
pub proof fn accept_succeeds_only_when_every_check_passes(
    old_st: ContractStateView,
    new_st: ContractStateView,
    id: u8,
    env: Env,
    info: MessageInfo,
    answers: Cw721Answers,
    r: Result<Response, ContractError>,
)
    requires
        accept_offer_ensures(old_st, new_st, id, env.block.time, info.sender@, answers, r),
        r is Ok,
    ensures
        ({
            let o = old_st.offers[id];
            let now = env.block.time;
            let msgs = r->Ok_0@.messages;
            &&& old_st.offers.contains_key(id)
            &&& o.peer == info.sender@
            &&& old_st.params is Some
            &&& now + old_st.params->0.offer_expiry.min * 1_000_000_000 < o.expires_at
            &&& o.expires_at <= now + old_st.params->0.offer_expiry.max * 1_000_000_000
            &&& forall|j: int|
                0 <= j < o.wanted_nfts.len() ==> #[trigger] answers.wanted_owners@[j] is Ok
                    && answers.wanted_owners@[j]->Ok_0@ == info.sender@
                    && answers.wanted_approvals@[j] is Ok
            &&& forall|j: int|
                0 <= j < o.offered_nfts.len() ==> #[trigger] answers.offered_owners@[j] is Ok
                    && answers.offered_owners@[j]->Ok_0@ == o.sender
                    && answers.offered_approvals@[j] is Ok
            &&& new_st.offers == old_st.offers.remove(id)
            &&& !new_st.offers.contains_key(id)
            &&& msgs.len() == o.offered_nfts.len() + o.wanted_nfts.len()
            &&& forall|j: int|
                0 <= j < o.offered_nfts.len() ==> (#[trigger] msgs[j]).recipient == o.peer
                    && msgs[j].collection == o.offered_nfts[j].collection && msgs[j].token_id
                    == o.offered_nfts[j].token_id
            &&& forall|j: int|
                0 <= j < o.wanted_nfts.len() ==> (#[trigger] msgs[o.offered_nfts.len() + j]).recipient
                    == o.sender && msgs[o.offered_nfts.len() + j].collection
                    == o.wanted_nfts[j].collection && msgs[o.offered_nfts.len() + j].token_id
                    == o.wanted_nfts[j].token_id
        }),
{
    let o = old_st.offers[id];
    lemma_accepted_wanted_checks(
        info.sender@,
        o.wanted_nfts,
        answers.wanted_owners@,
        answers.wanted_approvals@,
        0,
    );
    lemma_accepted_offered_checks(
        o.sender,
        o.offered_nfts,
        answers.offered_owners@,
        answers.offered_approvals@,
        0,
    );
    let msgs = r->Ok_0@.messages;
    assert forall|j: int| 0 <= j < o.wanted_nfts.len() implies (#[trigger] msgs[o.offered_nfts.len()
        + j]).recipient == o.sender && msgs[o.offered_nfts.len() + j].collection
        == o.wanted_nfts[j].collection && msgs[o.offered_nfts.len() + j].token_id
        == o.wanted_nfts[j].token_id by {
        assert(msgs[o.offered_nfts.len() + j] == crate::msg::transfers_to(
            o.sender,
            o.wanted_nfts,
        )[j]);
    }
}

/// When an offer is stored, made to the caller, after instantiation, with its expiry in range,
/// the caller owns and has approved every wanted token and the sender still owns every offered
/// token, the first offered token whose approval query failed makes the acceptance fail with
/// that query's error, and nothing changes.
pub proof fn accept_fails_on_the_first_failed_offered_approval(
    old_st: ContractStateView,
    new_st: ContractStateView,
    id: u8,
    env: Env,
    info: MessageInfo,
    answers: Cw721Answers,
    r: Result<Response, ContractError>,
    j: int,
)
    requires
        accept_offer_ensures(old_st, new_st, id, env.block.time, info.sender@, answers, r),
        old_st.offers.contains_key(id),
        old_st.offers[id].peer == info.sender@,
        old_st.params is Some,
        env.block.time + old_st.params->0.offer_expiry.min * 1_000_000_000
            < old_st.offers[id].expires_at,
        old_st.offers[id].expires_at <= env.block.time + old_st.params->0.offer_expiry.max
            * 1_000_000_000,
        forall|k: int|
            0 <= k < old_st.offers[id].wanted_nfts.len() ==> #[trigger] answers.wanted_owners@[k]
                is Ok && answers.wanted_owners@[k]->Ok_0@ == info.sender@
                && answers.wanted_approvals@[k] is Ok,
        forall|k: int|
            0 <= k < old_st.offers[id].offered_nfts.len() ==> #[trigger] answers.offered_owners@[k]
                is Ok && answers.offered_owners@[k]->Ok_0@ == old_st.offers[id].sender,
        0 <= j < old_st.offers[id].offered_nfts.len(),
        forall|k: int| 0 <= k < j ==> #[trigger] answers.offered_approvals@[k] is Ok,
        answers.offered_approvals@[j] is Err,
    ensures
        r is Err,
        r->Err_0@ == ContractErrorView::Std(answers.offered_approvals@[j]->Err_0),
        new_st == old_st,
{
    let o = old_st.offers[id];
    lemma_accepted_wanted_checks(
        info.sender@,
        o.wanted_nfts,
        answers.wanted_owners@,
        answers.wanted_approvals@,
        0,
    );
    lemma_accepted_offered_first_approval(
        o.sender,
        o.offered_nfts,
        answers.offered_owners@,
        answers.offered_approvals@,
        0,
        j,
    );
}

/// An offer that is stored, made to the caller, after instantiation, with its expiry in
/// range, whose every token is owned and approved by its giver and whose every transfer
/// encodes, is accepted.
pub proof fn accept_succeeds_when_every_check_passes(
    old_st: ContractStateView,
    new_st: ContractStateView,
    id: u8,
    env: Env,
    info: MessageInfo,
    answers: Cw721Answers,
    r: Result<Response, ContractError>,
)
    requires
        accept_offer_ensures(old_st, new_st, id, env.block.time, info.sender@, answers, r),
        old_st.offers.contains_key(id),
        old_st.offers[id].peer == info.sender@,
        old_st.params is Some,
        env.block.time + old_st.params->0.offer_expiry.min * 1_000_000_000
            < old_st.offers[id].expires_at,
        old_st.offers[id].expires_at <= env.block.time + old_st.params->0.offer_expiry.max
            * 1_000_000_000,
        forall|k: int|
            0 <= k < old_st.offers[id].wanted_nfts.len() ==> #[trigger] answers.wanted_owners@[k]
                is Ok && answers.wanted_owners@[k]->Ok_0@ == info.sender@
                && answers.wanted_approvals@[k] is Ok,
        forall|k: int|
            0 <= k < old_st.offers[id].offered_nfts.len() ==> #[trigger] answers.offered_owners@[k]
                is Ok && answers.offered_owners@[k]->Ok_0@ == old_st.offers[id].sender
                && answers.offered_approvals@[k] is Ok,
        forall|k: int|
            0 <= k < old_st.offers[id].offered_nfts.len() ==> transfer_nft_encoding(
                old_st.offers[id].peer,
                #[trigger] old_st.offers[id].offered_nfts[k].token_id,
            ) is Ok,
        forall|k: int|
            0 <= k < old_st.offers[id].wanted_nfts.len() ==> transfer_nft_encoding(
                old_st.offers[id].sender,
                #[trigger] old_st.offers[id].wanted_nfts[k].token_id,
            ) is Ok,
    ensures
        r is Ok,
        new_st.offers == old_st.offers.remove(id),
{
    let o = old_st.offers[id];
    lemma_accepted_wanted_checks(
        info.sender@,
        o.wanted_nfts,
        answers.wanted_owners@,
        answers.wanted_approvals@,
        0,
    );
    lemma_accepted_offered_checks(
        o.sender,
        o.offered_nfts,
        answers.offered_owners@,
        answers.offered_approvals@,
        0,
    );
    lemma_encodings(o.peer, o.offered_nfts, 0);
    lemma_encodings(o.sender, o.wanted_nfts, 0);
}

/// Withdrawing a stored offer succeeds exactly when the caller is its sender; it then removes
/// that offer and reports its id.
pub proof fn withdrawal_is_for_the_sender(
    old_st: ContractStateView,
    new_st: ContractStateView,
    env: Env,
    info: MessageInfo,
    id: u8,
    msg: ExecuteMsg,
    answers: Cw721Answers,
    r: Result<Response, ContractError>,
)
    requires
        msg == (ExecuteMsg::RemoveOffer { id }),
        execute_ensures(old_st, new_st, env, info, msg, answers, r),
        old_st.offers.contains_key(id),
    ensures
        r is Ok <==> old_st.offers[id].sender == info.sender@,
        r is Ok ==> new_st.offers == old_st.offers.remove(id) && r->Ok_0@.attributes == seq![
            Attribute::Action(Action::RevokeOffer),
            Attribute::OfferId(id),
        ],
        r is Err ==> r->Err_0@ == ContractErrorView::UnauthorizedSender && new_st == old_st,
{
}

/// Rejecting a stored offer succeeds exactly when the caller is its peer; it then removes that
/// offer and reports its id.
pub proof fn rejection_is_for_the_peer(
    old_st: ContractStateView,
    new_st: ContractStateView,
    env: Env,
    info: MessageInfo,
    id: u8,
    msg: ExecuteMsg,
    answers: Cw721Answers,
    r: Result<Response, ContractError>,
)
    requires
        msg == (ExecuteMsg::RejectOffer { id }),
        execute_ensures(old_st, new_st, env, info, msg, answers, r),
        old_st.offers.contains_key(id),
    ensures
        r is Ok <==> old_st.offers[id].peer == info.sender@,
        r is Ok ==> new_st.offers == old_st.offers.remove(id) && r->Ok_0@.attributes == seq![
            Attribute::Action(Action::RejectOffer),
            Attribute::OfferId(id),
        ],
        r is Err ==> r->Err_0@ == ContractErrorView::UnauthorizedOperator && new_st == old_st,
{
}

/// Removing a stored offer as stale succeeds exactly when the contract was instantiated, the
/// offer's expiry lies more than the minimum and at most the maximum number of seconds ahead,
/// and the caller is the maintainer; it then removes that offer and reports its id.
pub proof fn stale_removal_needs_maintainer_and_expiry_in_range(
    old_st: ContractStateView,
    new_st: ContractStateView,
    env: Env,
    info: MessageInfo,
    id: u8,
    msg: ExecuteMsg,
    answers: Cw721Answers,
    r: Result<Response, ContractError>,
)
    requires
        msg == (ExecuteMsg::RemoveStaleOffer { id }),
        execute_ensures(old_st, new_st, env, info, msg, answers, r),
        old_st.offers.contains_key(id),
    ensures
        r is Ok <==> {
            &&& old_st.params is Some
            &&& env.block.time + old_st.params->0.offer_expiry.min * 1_000_000_000
                < old_st.offers[id].expires_at
            &&& old_st.offers[id].expires_at <= env.block.time
                + old_st.params->0.offer_expiry.max * 1_000_000_000
            &&& info.sender@ == old_st.params->0.maintainer
        },
        r is Ok ==> new_st.offers == old_st.offers.remove(id) && r->Ok_0@.attributes == seq![
            Attribute::Action(Action::RemoveStaleOffer),
            Attribute::OfferId(id),
        ],
        r is Err ==> new_st == old_st,
{
}

} // verus!
