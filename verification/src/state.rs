use vstd::prelude::*;

use crate::helpers::ExpiryRange;

verus! {

/// Number of storage slots for offers: an offer is stored under the single byte of its id.
pub const OFFER_SLOTS: usize = 256;

/// An NFT: the address of its cw721 collection contract and its id there.
#[derive(Debug)]
pub struct Token {
    pub collection: String,
    pub token_id: u32,
}

/// The mathematical value of a [`Token`].
pub struct TokenView {
    pub collection: Seq<char>,
    pub token_id: u32,
}

impl View for Token {
    type V = TokenView;

    open spec fn view(&self) -> TokenView {
        TokenView { collection: self.collection@, token_id: self.token_id }
    }
}

/// The views of a sequence of tokens.
pub open spec fn tokens_view(tokens: Seq<Token>) -> Seq<TokenView> {
    tokens.map_values(|t: Token| t@)
}

impl Token {
    /// A copy of the token.
    pub fn duplicate(&self) -> (r: Token)
        ensures
            r == *self,
    {
        Token { collection: self.collection.clone(), token_id: self.token_id }
    }

    /// Whether two tokens name the same NFT (same collection, same id).
    pub fn same_as(&self, other: &Token) -> (b: bool)
        ensures
            b == (self@ == other@),
    {
        self.token_id == other.token_id && self.collection == other.collection
    }
}

/// A copy of a list of tokens.
pub fn copy_tokens(tokens: &Vec<Token>) -> (r: Vec<Token>)
    ensures
        r@ == tokens@,
{
    let mut r: Vec<Token> = Vec::new();
    let mut i: usize = 0;
    while i < tokens.len()
        invariant
            i <= tokens.len(),
            r@ == tokens@.subrange(0, i as int),
        decreases tokens.len() - i,
    {
        r.push(tokens[i].duplicate());
        i = i + 1;
        assert(r@ =~= tokens@.subrange(0, i as int));
    }
    assert(r@ =~= tokens@);
    r
}

/// Whether `tokens` holds a token with the value `t`.
pub fn contains_token(tokens: &Vec<Token>, t: &Token) -> (b: bool)
    ensures
        b == tokens_view(tokens@).contains(t@),
{
    let mut i: usize = 0;
    while i < tokens.len()
        invariant
            i <= tokens.len(),
            forall|j: int| 0 <= j < i ==> tokens@[j]@ != t@,
        decreases tokens.len() - i,
    {
        if tokens[i].same_as(t) {
            assert(tokens_view(tokens@)[i as int] == t@);
            return true;
        }
        i = i + 1;
    }
    proof {
        if tokens_view(tokens@).contains(t@) {
            let j = choose|j: int| 0 <= j < tokens_view(tokens@).len() && tokens_view(tokens@)[j] == t@;
            assert(tokens@[j]@ == t@);
        }
    }
    false
}

/// A proposed trade: `sender` gives `offered_nfts` to `peer` in exchange for `wanted_nfts`.
/// `expires_at` is a time in nanoseconds since the epoch.
#[derive(Debug)]
pub struct Offer {
    pub id: u8,
    pub offered_nfts: Vec<Token>,
    pub wanted_nfts: Vec<Token>,
    pub sender: String,
    pub peer: String,
    pub expires_at: u64,
}

/// The mathematical value of an [`Offer`].
pub struct OfferView {
    pub id: u8,
    pub offered_nfts: Seq<TokenView>,
    pub wanted_nfts: Seq<TokenView>,
    pub sender: Seq<char>,
    pub peer: Seq<char>,
    pub expires_at: u64,
}

impl View for Offer {
    type V = OfferView;

    open spec fn view(&self) -> OfferView {
        OfferView {
            id: self.id,
            offered_nfts: tokens_view(self.offered_nfts@),
            wanted_nfts: tokens_view(self.wanted_nfts@),
            sender: self.sender@,
            peer: self.peer@,
            expires_at: self.expires_at,
        }
    }
}

impl Offer {
    /// A copy of the offer.
    pub fn duplicate(&self) -> (r: Offer)
        ensures
            r@ == self@,
    {
        Offer {
            id: self.id,
            offered_nfts: copy_tokens(&self.offered_nfts),
            wanted_nfts: copy_tokens(&self.wanted_nfts),
            sender: self.sender.clone(),
            peer: self.peer.clone(),
            expires_at: self.expires_at,
        }
    }
}

/// The parameters the contract was instantiated with.
#[derive(Debug)]
pub struct SudoParams {
    pub escrow_deposit_amount: u128,
    pub offer_expiry: ExpiryRange,
    pub maintainer: String,
    pub removal_reward_bps: u64,
}

/// The mathematical value of [`SudoParams`].
pub struct SudoParamsView {
    pub escrow_deposit_amount: u128,
    pub offer_expiry: ExpiryRange,
    pub maintainer: Seq<char>,
    pub removal_reward_bps: u64,
}

impl View for SudoParams {
    type V = SudoParamsView;

    open spec fn view(&self) -> SudoParamsView {
        SudoParamsView {
            escrow_deposit_amount: self.escrow_deposit_amount,
            offer_expiry: self.offer_expiry,
            maintainer: self.maintainer@,
            removal_reward_bps: self.removal_reward_bps,
        }
    }
}

/// The contract's whole storage: its parameters (absent before instantiation), the open
/// offers keyed by their one-byte id, and the counter from which new ids are drawn.
pub struct ContractState {
    params: Option<SudoParams>,
    offers: Vec<Option<Offer>>,
    offer_count: u8,
}

/// The mathematical value of a [`ContractState`].
pub struct ContractStateView {
    pub params: Option<SudoParamsView>,
    pub offers: Map<u8, OfferView>,
    pub offer_count: u8,
}

impl ContractStateView {
    /// Every stored offer is stored under its own id.
    pub open spec fn keyed_by_id(self) -> bool {
        forall|k: u8| #[trigger] self.offers.contains_key(k) ==> self.offers[k].id == k
    }
}

/// The views of a sequence of offers.
pub open spec fn offers_view(offers: Seq<Offer>) -> Seq<OfferView> {
    offers.map_values(|o: Offer| o@)
}

/// The offers among the ids below `n` that `keep` selects, in ascending order of id.
pub open spec fn listed(m: Map<u8, OfferView>, keep: spec_fn(OfferView) -> bool, n: nat) -> Seq<
    OfferView,
>
    decreases n,
{
    if n == 0 {
        Seq::empty()
    } else {
        let k = (n - 1) as u8;
        let prev = listed(m, keep, (n - 1) as nat);
        if m.contains_key(k) && keep(m[k]) {
            prev.push(m[k])
        } else {
            prev
        }
    }
}

/// The lowest id, from `from` on, under which `m` holds an offer that `keep` selects.
pub open spec fn lowest_id_where(m: Map<u8, OfferView>, keep: spec_fn(OfferView) -> bool, from: nat) -> Option<
    u8,
>
    decreases OFFER_SLOTS - from,
{
    if from >= OFFER_SLOTS {
        None
    } else if m.contains_key(from as u8) && keep(m[from as u8]) {
        Some(from as u8)
    } else {
        lowest_id_where(m, keep, from + 1)
    }
}

/// The offers that `addr` sent.
pub open spec fn sent_by(addr: Seq<char>) -> spec_fn(OfferView) -> bool {
    |o: OfferView| o.sender == addr
}

/// The offers made to `addr`.
pub open spec fn made_to(addr: Seq<char>) -> spec_fn(OfferView) -> bool {
    |o: OfferView| o.peer == addr
}

/// The offers that `addr` sent and that offer the token `t`.
pub open spec fn sent_offering(addr: Seq<char>, t: TokenView) -> spec_fn(OfferView) -> bool {
    |o: OfferView| o.sender == addr && o.offered_nfts.contains(t)
}

/// The side of an offer by which offers are looked up.
pub enum Party {
    Sender,
    Peer,
}

impl Party {
    /// The offers whose `self` side is `addr`.
    pub open spec fn is(self, addr: Seq<char>) -> spec_fn(OfferView) -> bool {
        match self {
            Party::Sender => sent_by(addr),
            Party::Peer => made_to(addr),
        }
    }
}

pub open spec fn params_view(p: Option<SudoParams>) -> Option<SudoParamsView> {
    match p {
        Some(q) => Some(q@),
        None => None,
    }
}

impl View for ContractState {
    type V = ContractStateView;

    closed spec fn view(&self) -> ContractStateView {
        ContractStateView {
            params: params_view(self.params),
            offers: Map::new(
                |k: u8| self.offers@[k as int] is Some,
                |k: u8| self.offers@[k as int]->0@,
            ),
            offer_count: self.offer_count,
        }
    }
}

/// Puts `slot` into `slots[i]` and hands back what was there.
fn replace_slot(slots: &mut Vec<Option<Offer>>, i: usize, slot: Option<Offer>) -> (replaced: Option<
    Offer,
>)
    requires
        i < old(slots)@.len(),
    ensures
        replaced == old(slots)@[i as int],
        final(slots)@ == old(slots)@.update(i as int, slot),
    no_unwind
{
    let mut slot = slot;
    std::mem::swap(&mut slots[i], &mut slot);
    slot
}

impl ContractState {
    /// There is a slot for every one-byte id, and every offer sits in the slot of its id.
    #[verifier::type_invariant]
    pub closed spec fn well_kept(&self) -> bool {
        &&& self.offers@.len() == OFFER_SLOTS
        &&& forall|k: int|
            0 <= k < OFFER_SLOTS && (#[trigger] self.offers@[k]) is Some ==> self.offers@[k]->0.id
                == k
    }

    /// Storage that is well kept stores every offer under its own id.
    pub proof fn lemma_keyed_by_id(&self)
        requires
            self.well_kept(),
        ensures
            self@.keyed_by_id(),
    {
        assert forall|k: u8| #[trigger] self@.offers.contains_key(k) implies self@.offers[k].id
            == k by {
            assert(self.offers@[k as int] is Some);
        }
    }

    /// Empty storage: no parameters, no offers, the id counter at zero.
    pub fn new() -> (s: Self)
        ensures
            s@.params is None,
            s@.offers == Map::<u8, OfferView>::empty(),
            s@.offer_count == 0,
            s@.keyed_by_id(),
    {
        let mut slots: Vec<Option<Offer>> = Vec::new();
        let mut i: usize = 0;
        while i < OFFER_SLOTS
            invariant
                i <= OFFER_SLOTS,
                slots@.len() == i,
                forall|k: int| 0 <= k < i ==> (#[trigger] slots@[k]) is None,
            decreases OFFER_SLOTS - i,
        {
            slots.push(None);
            i = i + 1;
        }
        let s = ContractState { params: None, offers: slots, offer_count: 0 };
        assert(s@.offers =~= Map::<u8, OfferView>::empty());
        s
    }

    /// The stored parameters, if the contract was instantiated.
    pub fn params(&self) -> (p: &Option<SudoParams>)
        ensures
            params_view(*p) == self@.params,
    {
        &self.params
    }

    /// Stores the parameters.
    pub fn set_params(&mut self, params: SudoParams)
        ensures
            final(self)@ == (ContractStateView { params: Some(params@), ..old(self)@ }),
    {
        proof {
            use_type_invariant(&*self);
        }
        self.params = Some(params);
        assert(final(self)@.offers =~= old(self)@.offers);
    }

    /// The counter from which offer ids are drawn.
    pub fn offer_count(&self) -> (c: u8)
        ensures
            c == self@.offer_count,
    {
        self.offer_count
    }

    /// Stores the counter from which offer ids are drawn.
    pub fn set_offer_count(&mut self, count: u8)
        ensures
            final(self)@ == (ContractStateView { offer_count: count, ..old(self)@ }),
    {
        proof {
            use_type_invariant(&*self);
        }
        self.offer_count = count;
        assert(final(self)@.offers =~= old(self)@.offers);
    }

    /// The offer stored under `id`, if any.
    pub fn offer(&self, id: u8) -> (r: Option<&Offer>)
        ensures
            r is Some == self@.offers.contains_key(id),
            r is Some ==> r->0@ == self@.offers[id],
    {
        proof {
            use_type_invariant(self);
        }
        self.offers[id as usize].as_ref()
    }

    /// Stores `offer` under its id, replacing what was stored there.
    pub fn save_offer(&mut self, offer: Offer)
        ensures
            final(self)@ == (ContractStateView {
                offers: old(self)@.offers.insert(offer.id, offer@),
                ..old(self)@
            }),
            final(self)@.keyed_by_id(),
    {
        proof {
            use_type_invariant(&*self);
        }
        let id = offer.id;
        let _ = replace_slot(&mut self.offers, id as usize, Some(offer));
        assert(final(self)@.offers =~= old(self)@.offers.insert(id, offer@));
        proof {
            use_type_invariant(&*self);
            self.lemma_keyed_by_id();
        }
    }

    /// Takes the offer stored under `id` out of storage.
    pub fn remove_offer(&mut self, id: u8) -> (r: Option<Offer>)
        ensures
            r is Some == old(self)@.offers.contains_key(id),
            r is Some ==> r->0@ == old(self)@.offers[id],
            final(self)@ == (ContractStateView {
                offers: old(self)@.offers.remove(id),
                ..old(self)@
            }),
            final(self)@.keyed_by_id(),
    {
        proof {
            use_type_invariant(&*self);
        }
        let taken = replace_slot(&mut self.offers, id as usize, None);
        assert(final(self)@.offers =~= old(self)@.offers.remove(id));
        proof {
            use_type_invariant(&*self);
            self.lemma_keyed_by_id();
        }
        taken
    }

    /// The offers whose `party` side is `addr`, in ascending order of id.
    pub fn offers_of(&self, party: Party, addr: &String) -> (r: Vec<Offer>)
        ensures
            offers_view(r@) == listed(self@.offers, party.is(addr@), OFFER_SLOTS as nat),
    {
        proof {
            use_type_invariant(self);
        }
        let ghost keep = party.is(addr@);
        let mut r: Vec<Offer> = Vec::new();
        let mut k: usize = 0;
        while k < OFFER_SLOTS
            invariant
                k <= OFFER_SLOTS,
                self.offers@.len() == OFFER_SLOTS,
                keep == party.is(addr@),
                offers_view(r@) == listed(self@.offers, keep, k as nat),
            decreases OFFER_SLOTS - k,
        {
            let ghost before = r@;
            assert(self@.offers.contains_key(k as u8) == self.offers@[k as int] is Some);
            match &self.offers[k] {
                Some(o) => {
                    let selected = match party {
                        Party::Sender => o.sender == *addr,
                        Party::Peer => o.peer == *addr,
                    };
                    assert(selected == keep(o@));
                    if selected {
                        r.push(o.duplicate());
                        assert(offers_view(r@) =~= offers_view(before).push(o@));
                    }
                },
                None => {},
            }
            k = k + 1;
        }
        r
    }

    /// The lowest id under which `sender` has an offer that offers `token`.
    pub fn sender_offer_with_token(&self, sender: &String, token: &Token) -> (r: Option<u8>)
        ensures
            r == lowest_id_where(self@.offers, sent_offering(sender@, token@), 0),
    {
        proof {
            use_type_invariant(self);
        }
        let ghost keep = sent_offering(sender@, token@);
        let mut k: usize = 0;
        while k < OFFER_SLOTS
            invariant
                k <= OFFER_SLOTS,
                self.offers@.len() == OFFER_SLOTS,
                keep == sent_offering(sender@, token@),
                lowest_id_where(self@.offers, keep, 0) == lowest_id_where(
                    self@.offers,
                    keep,
                    k as nat,
                ),
            decreases OFFER_SLOTS - k,
        {
            assert(self@.offers.contains_key(k as u8) == self.offers@[k as int] is Some);
            match &self.offers[k] {
                Some(o) => {
                    if o.sender == *sender && contains_token(&o.offered_nfts, token) {
                        return Some(k as u8);
                    }
                },
                None => {},
            }
            k = k + 1;
        }
        None
    }

    /// Draws a fresh offer id: the counter plus one, which becomes the new counter.
    pub fn next_offer_id(&mut self) -> (id: u8)
        requires
            old(self)@.offer_count < 255,
        ensures
            id == old(self)@.offer_count + 1,
            final(self)@ == (ContractStateView { offer_count: id, ..old(self)@ }),
    {
        let id = self.offer_count + 1;
        self.set_offer_count(id);
        id
    }
}

} // verus!
