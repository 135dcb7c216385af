use vstd::prelude::*;

use cosmwasm_std::StdError;

use crate::laws::query_lists_exactly_the_party_offers;
use crate::msg::{opt_offer_view, OfferResponse, OffersResponse};
use crate::state::{
    listed, made_to, offers_view, sent_by, ContractState, OfferView, Party, OFFER_SLOTS,
};

verus! {

/// The offer stored under `id`, if any; storage reads here do not fail.
pub fn query_offer(state: &ContractState, id: u8) -> (r: Result<OfferResponse, StdError>)
    ensures
        r is Ok,
        opt_offer_view(r->Ok_0.offer) == (if state@.offers.contains_key(id) {
            Some(state@.offers[id])
        } else {
            None::<OfferView>
        }),
{
    let offer = match state.offer(id) {
        Some(o) => Some(o.duplicate()),
        None => None,
    };
    Ok(OfferResponse { offer })
}

/// The offers that `sender` made, in ascending order of id.
pub fn query_offers_by_sender(state: &ContractState, sender: String) -> (r: Result<
    OffersResponse,
    StdError,
>)
    ensures
        r is Ok,
        offers_view(r->Ok_0.offers@) == listed(state@.offers, sent_by(sender@), OFFER_SLOTS as nat),
        forall|x: OfferView|
            #[trigger] offers_view(r->Ok_0.offers@).contains(x) <==> exists|k: u8|
                #[trigger] state@.offers.contains_key(k) && state@.offers[k].sender == sender@
                    && state@.offers[k] == x,
        forall|i: int, j: int|
            0 <= i < j < r->Ok_0.offers@.len() ==> #[trigger] r->Ok_0.offers@[i].id
                < #[trigger] r->Ok_0.offers@[j].id,
{
    let offers = state.offers_of(Party::Sender, &sender);
    proof {
        use_type_invariant(state);
        state.lemma_keyed_by_id();
        query_lists_exactly_the_party_offers(state@, sent_by(sender@));
        assert forall|i: int, j: int| 0 <= i < j < offers@.len() implies #[trigger] offers@[i].id
            < #[trigger] offers@[j].id by {
            assert(offers_view(offers@)[i].id == offers@[i].id);
            assert(offers_view(offers@)[j].id == offers@[j].id);
        }
    }
    Ok(OffersResponse { offers })
}

/// The offers made to `peer`, in ascending order of id.
pub fn query_offers_by_peer(state: &ContractState, peer: String) -> (r: Result<
    OffersResponse,
    StdError,
>)
    ensures
        r is Ok,
        offers_view(r->Ok_0.offers@) == listed(state@.offers, made_to(peer@), OFFER_SLOTS as nat),
        forall|x: OfferView|
            #[trigger] offers_view(r->Ok_0.offers@).contains(x) <==> exists|k: u8|
                #[trigger] state@.offers.contains_key(k) && state@.offers[k].peer == peer@
                    && state@.offers[k] == x,
        forall|i: int, j: int|
            0 <= i < j < r->Ok_0.offers@.len() ==> #[trigger] r->Ok_0.offers@[i].id
                < #[trigger] r->Ok_0.offers@[j].id,
{
    let offers = state.offers_of(Party::Peer, &peer);
    proof {
        use_type_invariant(state);
        state.lemma_keyed_by_id();
        query_lists_exactly_the_party_offers(state@, made_to(peer@));
        assert forall|i: int, j: int| 0 <= i < j < offers@.len() implies #[trigger] offers@[i].id
            < #[trigger] offers@[j].id by {
            assert(offers_view(offers@)[i].id == offers@[i].id);
            assert(offers_view(offers@)[j].id == offers@[j].id);
        }
    }
    Ok(OffersResponse { offers })
}

} // verus!
