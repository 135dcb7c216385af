use vstd::prelude::*;

use cosmwasm_std::StdError;
use cw721::Cw721ExecuteMsg;

use crate::helpers::{BlockInfo, ExpiryRange};
use crate::state::{Offer, OfferView, Token, TokenView};

verus! {

/// The message that instantiates the contract; `maintainer` is a validated address.
pub struct InstantiateMsg {
    pub escrow_deposit_amount: u128,
    pub offer_expiry: ExpiryRange,
    pub maintainer: String,
    pub removal_reward_bps: u64,
}

/// The messages the contract executes. Addresses in them are validated; `expires_at` is a
/// time in nanoseconds since the epoch.
pub enum ExecuteMsg {
    CreateOffer {
        offered_nfts: Vec<Token>,
        wanted_nfts: Vec<Token>,
        peer: String,
        expires_at: u64,
    },
    RemoveOffer { id: u8 },
    AcceptOffer { id: u8 },
    RejectOffer { id: u8 },
    RemoveStaleOffer { id: u8 },
}

/// Who sent the message.
pub struct MessageInfo {
    pub sender: String,
}

/// The address of this contract.
pub struct ContractInfo {
    pub address: String,
}

/// The environment a message is executed in.
pub struct Env {
    pub block: BlockInfo,
    pub contract: ContractInfo,
}

/// What the cw721 collections answered about the tokens of an offer, one entry per token, in
/// the order of the offer's lists: the owner each `owner_of` query gave, and whether each
/// `approval` query (for this contract as spender) succeeded.
pub struct Cw721Answers {
    pub offered_owners: Vec<Result<String, StdError>>,
    pub offered_approvals: Vec<Result<(), StdError>>,
    pub wanted_owners: Vec<Result<String, StdError>>,
    pub wanted_approvals: Vec<Result<(), StdError>>,
}

/// The `action` attribute of a response.
#[derive(Clone, Copy, Debug, PartialEq, Eq)]
pub enum Action {
    CreateOffer,
    RevokeOffer,
    AcceptOffer,
    RejectOffer,
    RemoveStaleOffer,
}

/// The name an action is reported under.
pub open spec fn action_name(a: Action) -> Seq<char> {
    match a {
        Action::CreateOffer => "create_offer"@,
        Action::RevokeOffer => "revoke_offer"@,
        Action::AcceptOffer => "accept_offer"@,
        Action::RejectOffer => "reject_offer"@,
        Action::RemoveStaleOffer => "remove_stale_offer"@,
    }
}

impl Action {
    /// The name the action is reported under.
    pub fn name(&self) -> (s: &'static str)
        ensures
            s@ == action_name(*self),
    {
        match self {
            Action::CreateOffer => "create_offer",
            Action::RevokeOffer => "revoke_offer",
            Action::AcceptOffer => "accept_offer",
            Action::RejectOffer => "reject_offer",
            Action::RemoveStaleOffer => "remove_stale_offer",
        }
    }
}

/// An attribute of a response: the action taken, or the id of the offer concerned.
#[derive(Clone, Copy, Debug, PartialEq, Eq)]
pub enum Attribute {
    Action(Action),
    OfferId(u8),
}

/// The key an attribute is reported under.
pub open spec fn attribute_key(a: Attribute) -> Seq<char> {
    match a {
        Attribute::Action(_) => "action"@,
        Attribute::OfferId(_) => "offer_id"@,
    }
}

impl Attribute {
    /// The key the attribute is reported under.
    pub fn key(&self) -> (s: &'static str)
        ensures
            s@ == attribute_key(*self),
    {
        match self {
            Attribute::Action(_) => "action",
            Attribute::OfferId(_) => "offer_id",
        }
    }
}

/// What `cosmwasm_std::to_json_binary` gives for the cw721 message that transfers the token
/// `token_id` (written in decimal) to `recipient`: its JSON bytes, or the error of encoding it.
pub uninterp spec fn transfer_nft_encoding(recipient: Seq<char>, token_id: u32) -> Result<
    Seq<u8>,
    StdError,
>;

/// Calls `cosmwasm_std::to_json_binary` (what the deprecated `to_binary` forwards to) on
/// `cw721::Cw721ExecuteMsg::TransferNft` with `recipient` and the decimal digits of
/// `token_id`; the result, bytes or error, is named by [`transfer_nft_encoding`] and depends
/// on the arguments alone.
#[verifier::external_body]
pub(crate) fn encode_transfer_nft(recipient: &String, token_id: u32) -> (r: Result<
    Vec<u8>,
    StdError,
>)
    ensures
        match r {
            Ok(bytes) => transfer_nft_encoding(recipient@, token_id) == Ok::<Seq<u8>, StdError>(
                bytes@,
            ),
            Err(e) => transfer_nft_encoding(recipient@, token_id) == Err::<Seq<u8>, StdError>(e),
        },
{
    let msg = Cw721ExecuteMsg::TransferNft {
        recipient: recipient.clone(),
        token_id: token_id.to_string(),
    };
    cosmwasm_std::to_json_binary(&msg).map(|binary| binary.0)
}

/// A message to the cw721 contract `collection`: transfer `token_id` to `recipient`, with
/// `msg` the encoded cw721 message that does so.
#[derive(Debug)]
pub struct NftTransfer {
    pub collection: String,
    pub recipient: String,
    pub token_id: u32,
    pub msg: Vec<u8>,
}

/// The mathematical value of an [`NftTransfer`].
pub struct NftTransferView {
    pub collection: Seq<char>,
    pub recipient: Seq<char>,
    pub token_id: u32,
    pub msg: Seq<u8>,
}

impl View for NftTransfer {
    type V = NftTransferView;

    open spec fn view(&self) -> NftTransferView {
        NftTransferView {
            collection: self.collection@,
            recipient: self.recipient@,
            token_id: self.token_id,
            msg: self.msg@,
        }
    }
}

/// The transfer of the token `t` to `recipient`.
pub open spec fn transfer_of(recipient: Seq<char>, t: TokenView) -> NftTransferView {
    NftTransferView {
        collection: t.collection,
        recipient: recipient,
        token_id: t.token_id,
        msg: transfer_nft_encoding(recipient, t.token_id)->Ok_0,
    }
}

/// The transfers of `tokens`, in order, each to `recipient`.
pub open spec fn transfers_to(recipient: Seq<char>, tokens: Seq<TokenView>) -> Seq<NftTransferView> {
    tokens.map_values(|t: TokenView| transfer_of(recipient, t))
}

/// The error of encoding the first of the transfers of `tokens` from index `i` on to
/// `recipient` that cannot be encoded, if any.
pub open spec fn first_encoding_error(recipient: Seq<char>, tokens: Seq<TokenView>, i: nat) -> Option<
    StdError,
>
    decreases tokens.len() - i,
{
    if i >= tokens.len() {
        None
    } else {
        match transfer_nft_encoding(recipient, tokens[i as int].token_id) {
            Err(e) => Some(e),
            Ok(_) => first_encoding_error(recipient, tokens, i + 1),
        }
    }
}

/// The response of a successful message: its attributes, and the messages it sends.
#[derive(Debug)]
pub struct Response {
    pub attributes: Vec<Attribute>,
    pub messages: Vec<NftTransfer>,
}

/// The mathematical value of a [`Response`].
pub struct ResponseView {
    pub attributes: Seq<Attribute>,
    pub messages: Seq<NftTransferView>,
}

impl View for Response {
    type V = ResponseView;

    open spec fn view(&self) -> ResponseView {
        ResponseView {
            attributes: self.attributes@,
            messages: self.messages@.map_values(|m: NftTransfer| m@),
        }
    }
}

impl Response {
    /// A response with no attributes and no messages.
    pub fn new() -> (r: Response)
        ensures
            r@.attributes == Seq::<Attribute>::empty(),
            r@.messages == Seq::<NftTransferView>::empty(),
    {
        let r = Response { attributes: Vec::new(), messages: Vec::new() };
        assert(r@.messages =~= Seq::<NftTransferView>::empty());
        r
    }

    /// Appends an attribute.
    pub fn add_attribute(self, attribute: Attribute) -> (r: Response)
        ensures
            r@.attributes == self@.attributes.push(attribute),
            r@.messages == self@.messages,
    {
        let mut r = self;
        r.attributes.push(attribute);
        r
    }
}

/// The answer to a query for one offer.
pub struct OfferResponse {
    pub offer: Option<Offer>,
}

/// The answer to a query for several offers.
pub struct OffersResponse {
    pub offers: Vec<Offer>,
}

/// The view of an optional offer.
pub open spec fn opt_offer_view(o: Option<Offer>) -> Option<OfferView> {
    match o {
        Some(x) => Some(x@),
        None => None,
    }
}

} // verus!
