use vstd::prelude::*;

use crate::error::ContractError;
use crate::execute::{
    accept_offer_ensures, accept_offer_requires, close_offer_ensures, create_offer_ensures,
    create_offer_error, create_offer_requires, execute_ensures, execute_requires,
    offered_tokens_error, reject_offer_refusal, remove_offer_refusal, remove_stale_refusal,
    remove_stale_requires,
};
use crate::msg::{Action, Cw721Answers, Env, ExecuteMsg, MessageInfo, Response};
use crate::state::{
    listed, lowest_id_where, made_to, sent_by, sent_offering, tokens_view, ContractStateView, OfferView, TokenView,
    OFFER_SLOTS,
};

verus! {

// ---------------------------------------------------------------------------------------------
// Invariants of the stored offers
// ---------------------------------------------------------------------------------------------

/// No stored offer has an id above the counter from which ids are drawn.
pub open spec fn ids_within_count(st: ContractStateView) -> bool {
    forall|k: u8| #[trigger] st.offers.contains_key(k) ==> k <= st.offer_count
}

/// No token is offered by one sender in two different open offers.
pub open spec fn offered_tokens_exclusive(st: ContractStateView) -> bool {
    forall|k1: u8, k2: u8, t: TokenView|
        k1 != k2 && #[trigger] st.offers.contains_key(k1) && #[trigger] st.offers.contains_key(k2)
            && st.offers[k1].sender == st.offers[k2].sender
            && #[trigger] st.offers[k1].offered_nfts.contains(t) ==> !st.offers[k2].offered_nfts.contains(t)
}

/// The invariants of the stored offers that every message keeps, beside their being keyed by
/// id, which the storage itself keeps.
pub open spec fn consistent(st: ContractStateView) -> bool {
    &&& ids_within_count(st)
    &&& offered_tokens_exclusive(st)
}

// ---------------------------------------------------------------------------------------------
// Lemmas on the scans over ids
// ---------------------------------------------------------------------------------------------

/// The scan from `from` finds nothing exactly when no id from `from` on holds a selected
/// offer.
pub proof fn lemma_lowest_none(m: Map<u8, OfferView>, keep: spec_fn(OfferView) -> bool, from: nat)
    ensures
        lowest_id_where(m, keep, from) is None <==> forall|k: u8|
            from <= k && #[trigger] m.contains_key(k) ==> !keep(m[k]),
    decreases OFFER_SLOTS - from,
{
    if from < OFFER_SLOTS {
        lemma_lowest_none(m, keep, from + 1);
        if lowest_id_where(m, keep, from) is None {
            assert forall|k: u8| from <= k && #[trigger] m.contains_key(k) implies !keep(m[k]) by {
                assert(k == from || from + 1 <= k);
            }
        } else {
            if !(m.contains_key(from as u8) && keep(m[from as u8])) {
                let k = choose|k: u8| from + 1 <= k && #[trigger] m.contains_key(k) && keep(m[k]);
                assert(from <= k && m.contains_key(k) && keep(m[k]));
            }
        }
    }
}

/// The scan finds the lowest selected id.
pub proof fn lemma_lowest_some(m: Map<u8, OfferView>, keep: spec_fn(OfferView) -> bool, from: nat)
    requires
        lowest_id_where(m, keep, from) is Some,
    ensures
        ({
            let k = lowest_id_where(m, keep, from)->0;
            &&& from <= k
            &&& m.contains_key(k)
            &&& keep(m[k])
            &&& forall|j: u8| from <= j < k && #[trigger] m.contains_key(j) ==> !keep(m[j])
        }),
    decreases OFFER_SLOTS - from,
{
    if from < OFFER_SLOTS && !(m.contains_key(from as u8) && keep(m[from as u8])) {
        lemma_lowest_some(m, keep, from + 1);
    }
}

/// The listed offers are exactly the selected offers under ids below `n`.
pub proof fn lemma_listed_members(m: Map<u8, OfferView>, keep: spec_fn(OfferView) -> bool, n: nat)
    requires
        n <= OFFER_SLOTS,
    ensures
        forall|x: OfferView|
            #[trigger] listed(m, keep, n).contains(x) <==> exists|k: u8|
                k < n && #[trigger] m.contains_key(k) && keep(m[k]) && m[k] == x,
    decreases n,
{
    if n > 0 {
        lemma_listed_members(m, keep, (n - 1) as nat);
        let prev = listed(m, keep, (n - 1) as nat);
        let last = (n - 1) as u8;
        assert forall|x: OfferView|
            #[trigger] listed(m, keep, n).contains(x) <==> exists|k: u8|
                k < n && #[trigger] m.contains_key(k) && keep(m[k]) && m[k] == x by {
            if m.contains_key(last) && keep(m[last]) {
                assert(listed(m, keep, n) == prev.push(m[last]));
                if listed(m, keep, n).contains(x) {
                    let i = choose|i: int| 0 <= i < listed(m, keep, n).len() && listed(m, keep, n)[i] == x;
                    if i < prev.len() {
                        assert(prev.contains(x));
                    } else {
                        assert(m.contains_key(last) && keep(m[last]) && m[last] == x);
                    }
                }
                if exists|k: u8| k < n && #[trigger] m.contains_key(k) && keep(m[k]) && m[k] == x {
                    let k = choose|k: u8| k < n && #[trigger] m.contains_key(k) && keep(m[k]) && m[k] == x;
                    if k < n - 1 {
                        assert(prev.contains(x));
                        let i = choose|i: int| 0 <= i < prev.len() && prev[i] == x;
                        assert(listed(m, keep, n)[i] == x);
                    } else {
                        assert(listed(m, keep, n)[prev.len() as int] == x);
                    }
                }
            } else {
                if exists|k: u8| k < n && #[trigger] m.contains_key(k) && keep(m[k]) && m[k] == x {
                    let k = choose|k: u8| k < n && #[trigger] m.contains_key(k) && keep(m[k]) && m[k] == x;
                    assert(k != last);
                    assert(k < n - 1);
                }
            }
        }
    }
}

/// Where offers are keyed by their id, the listed offers come in strictly ascending order of
/// id, every id below `n`.
pub proof fn lemma_listed_ascending(m: Map<u8, OfferView>, keep: spec_fn(OfferView) -> bool, n: nat)
    requires
        n <= OFFER_SLOTS,
        forall|k: u8| #[trigger] m.contains_key(k) ==> m[k].id == k,
    ensures
        forall|i: int| 0 <= i < listed(m, keep, n).len() ==> #[trigger] listed(m, keep, n)[i].id < n,
        forall|i: int, j: int|
            0 <= i < j < listed(m, keep, n).len() ==> #[trigger] listed(m, keep, n)[i].id
                < #[trigger] listed(m, keep, n)[j].id,
    decreases n,
{
    if n > 0 {
        lemma_listed_ascending(m, keep, (n - 1) as nat);
        let prev = listed(m, keep, (n - 1) as nat);
        let last = (n - 1) as u8;
        if m.contains_key(last) && keep(m[last]) {
            let s = listed(m, keep, n);
            assert(s == prev.push(m[last]));
            assert forall|i: int, j: int| 0 <= i < j < s.len() implies #[trigger] s[i].id
                < #[trigger] s[j].id by {
                if j < prev.len() {
                    assert(s[i] == prev[i] && s[j] == prev[j]);
                } else {
                    assert(s[i] == prev[i]);
                    assert(s[j] == m[last]);
                }
            }
            assert forall|i: int| 0 <= i < s.len() implies #[trigger] s[i].id < n by {
                if i < prev.len() {
                    assert(s[i] == prev[i]);
                }
            }
        }
    }
}

/// When the offered tokens of a new offer pass their checks, none of them is offered by the
/// sender in a stored offer.
pub proof fn lemma_offered_checks_pass(
    st: ContractStateView,
    sender: Seq<char>,
    tokens: Seq<TokenView>,
    owners: Seq<Result<String, cosmwasm_std::StdError>>,
    approvals: Seq<Result<(), cosmwasm_std::StdError>>,
    i: nat,
)
    requires
        offered_tokens_error(st, sender, tokens, owners, approvals, i) is None,
    ensures
        forall|j: int|
            i <= j < tokens.len() ==> lowest_id_where(
                st.offers,
                sent_offering(sender, #[trigger] tokens[j]),
                0,
            ) is None,
    decreases tokens.len() - i,
{
    if i < tokens.len() {
        lemma_offered_checks_pass(st, sender, tokens, owners, approvals, i + 1);
    }
}

// ---------------------------------------------------------------------------------------------
// Laws
// ---------------------------------------------------------------------------------------------

/// The query for the offers of one party gives exactly the offers that party holds on that
/// side, each once, in strictly ascending order of id.
pub proof fn query_lists_exactly_the_party_offers(
    st: ContractStateView,
    keep: spec_fn(OfferView) -> bool,
)
    requires
        st.keyed_by_id(),
    ensures
        forall|x: OfferView|
            #[trigger] listed(st.offers, keep, OFFER_SLOTS as nat).contains(x) <==> exists|k: u8|
                #[trigger] st.offers.contains_key(k) && keep(st.offers[k]) && st.offers[k] == x,
        forall|i: int, j: int|
            0 <= i < j < listed(st.offers, keep, OFFER_SLOTS as nat).len() ==> #[trigger] listed(
                st.offers,
                keep,
                OFFER_SLOTS as nat,
            )[i].id < #[trigger] listed(st.offers, keep, OFFER_SLOTS as nat)[j].id,
{
    lemma_listed_members(st.offers, keep, OFFER_SLOTS as nat);
    lemma_listed_ascending(st.offers, keep, OFFER_SLOTS as nat);
    assert forall|x: OfferView|
        #[trigger] listed(st.offers, keep, OFFER_SLOTS as nat).contains(x) <==> exists|k: u8|
            #[trigger] st.offers.contains_key(k) && keep(st.offers[k]) && st.offers[k] == x by {
        if exists|k: u8| #[trigger] st.offers.contains_key(k) && keep(st.offers[k]) && st.offers[k] == x {
            let k = choose|k: u8| #[trigger] st.offers.contains_key(k) && keep(st.offers[k]) && st.offers[k] == x;
            assert(k < OFFER_SLOTS);
        }
    }
}

/// A message that fails changes nothing.
pub proof fn failed_message_changes_nothing(
    old_st: ContractStateView,
    new_st: ContractStateView,
    env: Env,
    info: MessageInfo,
    msg: ExecuteMsg,
    answers: Cw721Answers,
    r: Result<Response, ContractError>,
)
    requires
        execute_ensures(old_st, new_st, env, info, msg, answers, r),
        r is Err,
    ensures
        new_st == old_st,
{
}

/// Only the sender of an offer can withdraw it, only its peer can accept or reject it, and
/// only the maintainer can remove it as stale.
pub proof fn only_the_parties_close_an_offer(
    old_st: ContractStateView,
    new_st: ContractStateView,
    env: Env,
    info: MessageInfo,
    msg: ExecuteMsg,
    answers: Cw721Answers,
    r: Result<Response, ContractError>,
)
    requires
        execute_ensures(old_st, new_st, env, info, msg, answers, r),
        r is Ok,
    ensures
        match msg {
            ExecuteMsg::RemoveOffer { id } => old_st.offers.contains_key(id)
                && old_st.offers[id].sender == info.sender@,
            ExecuteMsg::RejectOffer { id } => old_st.offers.contains_key(id)
                && old_st.offers[id].peer == info.sender@,
            ExecuteMsg::AcceptOffer { id } => old_st.offers.contains_key(id)
                && old_st.offers[id].peer == info.sender@,
            ExecuteMsg::RemoveStaleOffer { id } => old_st.offers.contains_key(id)
                && old_st.params is Some && old_st.params->0.maintainer == info.sender@,
            ExecuteMsg::CreateOffer { .. } => true,
        },
{
}

/// Whether `msg` closes the offer under `id`.
pub open spec fn closes(msg: ExecuteMsg, id: u8) -> bool {
    match msg {
        ExecuteMsg::RemoveOffer { id: i } => i == id,
        ExecuteMsg::RejectOffer { id: i } => i == id,
        ExecuteMsg::AcceptOffer { id: i } => i == id,
        ExecuteMsg::RemoveStaleOffer { id: i } => i == id,
        ExecuteMsg::CreateOffer { .. } => false,
    }
}

/// An offer that was closed (withdrawn, rejected, accepted or removed as stale) is no longer
/// stored, and every other offer, the parameters and the counter stay as they were.
pub proof fn closed_offer_is_gone(
    old_st: ContractStateView,
    new_st: ContractStateView,
    env: Env,
    info: MessageInfo,
    id: u8,
    msg: ExecuteMsg,
    answers: Cw721Answers,
    r: Result<Response, ContractError>,
)
    requires
        execute_ensures(old_st, new_st, env, info, msg, answers, r),
        r is Ok,
        closes(msg, id),
    ensures
        !new_st.offers.contains_key(id),
        new_st.offers == old_st.offers.remove(id),
        new_st.params == old_st.params,
        new_st.offer_count == old_st.offer_count,
{
}

/// A created offer is stored under a fresh id, one above the old counter, with the caller as
/// its sender and the message's tokens, peer and expiry; where no id exceeded the counter, it
/// replaces no open offer.
pub proof fn created_offer_is_stored(
    old_st: ContractStateView,
    new_st: ContractStateView,
    env: Env,
    info: MessageInfo,
    offered_nfts: Seq<TokenView>,
    wanted_nfts: Seq<TokenView>,
    peer: Seq<char>,
    expires_at: u64,
    answers: Cw721Answers,
    r: Result<Response, ContractError>,
)
    requires
        create_offer_ensures(
            old_st,
            new_st,
            env.block.time,
            info.sender@,
            offered_nfts,
            wanted_nfts,
            peer,
            expires_at,
            answers,
            r,
        ),
        r is Ok,
    ensures
        ({
            let id = (old_st.offer_count + 1) as u8;
            &&& new_st.offer_count == id
            &&& new_st.offers.contains_key(id)
            &&& new_st.offers[id] == OfferView {
                id,
                offered_nfts,
                wanted_nfts,
                sender: info.sender@,
                peer,
                expires_at,
            }
            &&& ids_within_count(old_st) ==> !old_st.offers.contains_key(id)
            &&& ids_within_count(old_st) ==> new_st.offers.dom() == old_st.offers.dom().insert(id)
        }),
{
    let id = (old_st.offer_count + 1) as u8;
    if ids_within_count(old_st) && old_st.offers.contains_key(id) {
        assert(id <= old_st.offer_count);
    }
    assert(new_st.offers.dom() =~= old_st.offers.dom().insert(id));
}

/// Creating an offer, whatever its result, keeps every sender's offered tokens exclusive to
/// one of its offers.
pub proof fn create_keeps_tokens_exclusive(
    old_st: ContractStateView,
    new_st: ContractStateView,
    env: Env,
    info: MessageInfo,
    offered_nfts: Seq<TokenView>,
    wanted_nfts: Seq<TokenView>,
    peer: Seq<char>,
    expires_at: u64,
    answers: Cw721Answers,
    r: Result<Response, ContractError>,
)
    requires
        offered_tokens_exclusive(old_st),
        create_offer_ensures(
            old_st,
            new_st,
            env.block.time,
            info.sender@,
            offered_nfts,
            wanted_nfts,
            peer,
            expires_at,
            answers,
            r,
        ),
    ensures
        offered_tokens_exclusive(new_st),
{
    if r is Ok {
        let sender = info.sender@;
        let id = (old_st.offer_count + 1) as u8;
        let new_offer = new_st.offers[id];
        assert(create_offer_error(
            old_st,
            env.block.time,
            sender,
            offered_nfts,
            wanted_nfts,
            peer,
            expires_at,
            answers,
        ) is None);
        lemma_offered_checks_pass(
            old_st,
            sender,
            offered_nfts,
            answers.offered_owners@,
            answers.offered_approvals@,
            0,
        );
        assert(new_st.offers == old_st.offers.insert(id, new_offer));
        assert(new_offer.sender == sender && new_offer.offered_nfts == offered_nfts);
        assert forall|k1: u8, k2: u8, t: TokenView|
            k1 != k2 && #[trigger] new_st.offers.contains_key(k1)
                && #[trigger] new_st.offers.contains_key(k2)
                && new_st.offers[k1].sender == new_st.offers[k2].sender
                && #[trigger] new_st.offers[k1].offered_nfts.contains(
                t,
            ) implies !new_st.offers[k2].offered_nfts.contains(t) by {
            if k1 == id || k2 == id {
                let other = if k1 == id { k2 } else { k1 };
                if new_offer.offered_nfts.contains(t) {
                    let j = choose|j: int| 0 <= j < offered_nfts.len() && offered_nfts[j] == t;
                    assert(lowest_id_where(
                        old_st.offers,
                        sent_offering(sender, offered_nfts[j]),
                        0,
                    ) is None);
                    lemma_lowest_none(old_st.offers, sent_offering(sender, t), 0);
                    assert(old_st.offers.contains_key(other));
                    assert(!sent_offering(sender, t)(old_st.offers[other]));
                }
            } else {
                assert(old_st.offers.contains_key(k1) && old_st.offers.contains_key(k2));
            }
        }
    }
}

/// Every message keeps every sender's offered tokens exclusive to one of its offers: no
/// sender has one token on offer in two of its offers.
pub proof fn messages_keep_tokens_exclusive(
    old_st: ContractStateView,
    new_st: ContractStateView,
    env: Env,
    info: MessageInfo,
    msg: ExecuteMsg,
    answers: Cw721Answers,
    r: Result<Response, ContractError>,
)
    requires
        offered_tokens_exclusive(old_st),
        execute_ensures(old_st, new_st, env, info, msg, answers, r),
    ensures
        offered_tokens_exclusive(new_st),
{
    match msg {
        ExecuteMsg::CreateOffer { offered_nfts, wanted_nfts, peer, expires_at } => {
            create_keeps_tokens_exclusive(
                old_st,
                new_st,
                env,
                info,
                tokens_view(offered_nfts@),
                tokens_view(wanted_nfts@),
                peer@,
                expires_at,
                answers,
                r,
            );
        },
        _ => {
            assert forall|k1: u8, k2: u8, t: TokenView|
                k1 != k2 && #[trigger] new_st.offers.contains_key(k1)
                    && #[trigger] new_st.offers.contains_key(k2)
                    && new_st.offers[k1].sender == new_st.offers[k2].sender
                    && #[trigger] new_st.offers[k1].offered_nfts.contains(
                    t,
                ) implies !new_st.offers[k2].offered_nfts.contains(t) by {
                assert(old_st.offers.contains_key(k1) && old_st.offers.contains_key(k2));
            }
        },
    }
}

/// Every message keeps every stored id at or below the counter from which ids are drawn.
pub proof fn messages_keep_ids_within_count(
    old_st: ContractStateView,
    new_st: ContractStateView,
    env: Env,
    info: MessageInfo,
    msg: ExecuteMsg,
    answers: Cw721Answers,
    r: Result<Response, ContractError>,
)
    requires
        ids_within_count(old_st),
        execute_ensures(old_st, new_st, env, info, msg, answers, r),
    ensures
        ids_within_count(new_st),
{
    assert forall|k: u8| #[trigger] new_st.offers.contains_key(k) implies k
        <= new_st.offer_count by {
        if !(msg is CreateOffer && r is Ok && k == (old_st.offer_count + 1) as u8) {
            assert(old_st.offers.contains_key(k));
        }
    }
}

/// Every message keeps the stored offers consistent.
pub proof fn messages_keep_offers_consistent(
    old_st: ContractStateView,
    new_st: ContractStateView,
    env: Env,
    info: MessageInfo,
    msg: ExecuteMsg,
    answers: Cw721Answers,
    r: Result<Response, ContractError>,
)
    requires
        consistent(old_st),
        execute_ensures(old_st, new_st, env, info, msg, answers, r),
    ensures
        consistent(new_st),
{
    messages_keep_tokens_exclusive(old_st, new_st, env, info, msg, answers, r);
    messages_keep_ids_within_count(old_st, new_st, env, info, msg, answers, r);
}

/// Fresh storage is consistent.
pub proof fn fresh_storage_is_consistent(st: ContractStateView)
    requires
        st.offers == Map::<u8, OfferView>::empty(),
        st.offer_count == 0,
    ensures
        consistent(st),
{
}

/// Instantiating the contract stores its parameters and leaves the offers and the counter as
/// they were, so it keeps them consistent.
pub proof fn instantiate_keeps_offers(
    old_st: ContractStateView,
    new_st: ContractStateView,
    params: crate::state::SudoParamsView,
)
    requires
        consistent(old_st),
        new_st == (ContractStateView { params: Some(params), ..old_st }),
    ensures
        consistent(new_st),
        new_st.offers == old_st.offers,
{
}

/// A created offer is listed among the offers of its sender and among those made to its peer.
pub proof fn created_offer_is_listed(
    old_st: ContractStateView,
    new_st: ContractStateView,
    env: Env,
    info: MessageInfo,
    offered_nfts: Seq<TokenView>,
    wanted_nfts: Seq<TokenView>,
    peer: Seq<char>,
    expires_at: u64,
    answers: Cw721Answers,
    r: Result<Response, ContractError>,
)
    requires
        create_offer_ensures(
            old_st,
            new_st,
            env.block.time,
            info.sender@,
            offered_nfts,
            wanted_nfts,
            peer,
            expires_at,
            answers,
            r,
        ),
        r is Ok,
    ensures
        ({
            let offer = OfferView {
                id: (old_st.offer_count + 1) as u8,
                offered_nfts,
                wanted_nfts,
                sender: info.sender@,
                peer,
                expires_at,
            };
            &&& listed(new_st.offers, sent_by(info.sender@), OFFER_SLOTS as nat).contains(offer)
            &&& listed(new_st.offers, made_to(peer), OFFER_SLOTS as nat).contains(offer)
        }),
{
    let id = (old_st.offer_count + 1) as u8;
    lemma_listed_members(new_st.offers, sent_by(info.sender@), OFFER_SLOTS as nat);
    lemma_listed_members(new_st.offers, made_to(peer), OFFER_SLOTS as nat);
    assert(new_st.offers.contains_key(id));
    assert(id < OFFER_SLOTS);
}

/// Once an offer is closed, no query for the offers of a party lists an offer with its id.
pub proof fn closed_offer_is_unlisted(
    old_st: ContractStateView,
    new_st: ContractStateView,
    env: Env,
    info: MessageInfo,
    id: u8,
    msg: ExecuteMsg,
    answers: Cw721Answers,
    r: Result<Response, ContractError>,
    keep: spec_fn(OfferView) -> bool,
)
    requires
        execute_ensures(old_st, new_st, env, info, msg, answers, r),
        r is Ok,
        closes(msg, id),
    ensures
        forall|i: int|
            0 <= i < listed(new_st.offers, keep, OFFER_SLOTS as nat).len() ==> #[trigger] listed(
                new_st.offers,
                keep,
                OFFER_SLOTS as nat,
            )[i].id != id,
{
    closed_offer_is_gone(old_st, new_st, env, info, id, msg, answers, r);
    let s = listed(new_st.offers, keep, OFFER_SLOTS as nat);
    lemma_listed_members(new_st.offers, keep, OFFER_SLOTS as nat);
    assert forall|i: int| 0 <= i < s.len() implies #[trigger] s[i].id != id by {
        assert(s.contains(s[i]));
        let k = choose|k: u8|
            k < OFFER_SLOTS && #[trigger] new_st.offers.contains_key(k) && keep(new_st.offers[k])
                && new_st.offers[k] == s[i];
        assert(old_st.offers.contains_key(k));
        assert(k != id);
    }
}

/// `execute` does, for each kind of message, exactly what the handler of that kind does with
/// the message's arguments: its precondition and its outcome are the handler's.
pub proof fn execute_is_its_handlers(
    old_st: ContractStateView,
    new_st: ContractStateView,
    env: Env,
    info: MessageInfo,
    msg: ExecuteMsg,
    answers: Cw721Answers,
    r: Result<Response, ContractError>,
)
    ensures
        execute_requires(old_st, env, info, msg, answers) == match msg {
            ExecuteMsg::CreateOffer { offered_nfts, wanted_nfts, peer, expires_at } => create_offer_requires(
                old_st,
                env.block.time,
                info.sender@,
                tokens_view(offered_nfts@),
                tokens_view(wanted_nfts@),
                peer@,
                expires_at,
                answers,
            ),
            ExecuteMsg::AcceptOffer { id } => accept_offer_requires(
                old_st,
                id,
                env.block.time,
                info.sender@,
                answers,
            ),
            ExecuteMsg::RemoveStaleOffer { id } => remove_stale_requires(old_st, id, env.block.time),
            ExecuteMsg::RemoveOffer { .. } => true,
            ExecuteMsg::RejectOffer { .. } => true,
        },
        execute_ensures(old_st, new_st, env, info, msg, answers, r) == match msg {
            ExecuteMsg::CreateOffer { offered_nfts, wanted_nfts, peer, expires_at } => create_offer_ensures(
                old_st,
                new_st,
                env.block.time,
                info.sender@,
                tokens_view(offered_nfts@),
                tokens_view(wanted_nfts@),
                peer@,
                expires_at,
                answers,
                r,
            ),
            ExecuteMsg::RemoveOffer { id } => close_offer_ensures(
                old_st,
                new_st,
                id,
                old_st.offers[id].id,
                remove_offer_refusal(old_st.offers[id], info.sender@),
                Action::RevokeOffer,
                r,
            ),
            ExecuteMsg::AcceptOffer { id } => accept_offer_ensures(
                old_st,
                new_st,
                id,
                env.block.time,
                info.sender@,
                answers,
                r,
            ),
            ExecuteMsg::RejectOffer { id } => close_offer_ensures(
                old_st,
                new_st,
                id,
                old_st.offers[id].id,
                reject_offer_refusal(old_st.offers[id], info.sender@),
                Action::RejectOffer,
                r,
            ),
            ExecuteMsg::RemoveStaleOffer { id } => close_offer_ensures(
                old_st,
                new_st,
                id,
                id,
                remove_stale_refusal(old_st, old_st.offers[id], env.block.time, info.sender@),
                Action::RemoveStaleOffer,
                r,
            ),
        },
{
}

/// The one key under which a message may change the stored offers: the new id for a new
/// offer, the key the closing handler removes otherwise.
pub open spec fn touched_key(old_st: ContractStateView, msg: ExecuteMsg) -> u8 {
    match msg {
        ExecuteMsg::CreateOffer { .. } => (old_st.offer_count + 1) as u8,
        ExecuteMsg::RemoveOffer { id } => old_st.offers[id].id,
        ExecuteMsg::AcceptOffer { id } => old_st.offers[id].id,
        ExecuteMsg::RejectOffer { id } => old_st.offers[id].id,
        ExecuteMsg::RemoveStaleOffer { id } => id,
    }
}

/// A message never changes the parameters; it changes the stored offers under one key at
/// most; only a new offer moves the counter; and only an accepted offer sends messages, which
/// are transfers.
pub proof fn message_effects(
    old_st: ContractStateView,
    new_st: ContractStateView,
    env: Env,
    info: MessageInfo,
    msg: ExecuteMsg,
    answers: Cw721Answers,
    r: Result<Response, ContractError>,
)
    requires
        execute_ensures(old_st, new_st, env, info, msg, answers, r),
    ensures
        new_st.params == old_st.params,
        forall|j: u8|
            j != touched_key(old_st, msg) ==> (#[trigger] new_st.offers.contains_key(j)
                == old_st.offers.contains_key(j) && (old_st.offers.contains_key(j)
                ==> new_st.offers[j] == old_st.offers[j])),
        !(msg is CreateOffer) ==> new_st.offer_count == old_st.offer_count,
        r is Ok && !(msg is AcceptOffer) ==> r->Ok_0@.messages.len() == 0,
{
}

} // verus!
