use vstd::prelude::*;

use cosmwasm_std::StdError;

verus! {

/// cosmwasm's standard error, carried through unchanged where a query or a storage read fails.
#[verifier::external_type_specification]
#[verifier::external_body]
pub struct ExStdError(cosmwasm_std::StdError);

/// The error that `StdError::not_found(kind)` builds.
pub uninterp spec fn not_found_error(kind: Seq<char>) -> StdError;

/// Calls `cosmwasm_std::StdError::not_found`, which builds the `NotFound` error for an item of
/// type `kind` that storage does not hold; the result is named by [`not_found_error`] and
/// depends on `kind` alone.
#[verifier::external_body]
pub(crate) fn not_found(kind: &str) -> (e: StdError)
    ensures
        e == not_found_error(kind@),
{
    StdError::not_found(kind)
}

/// The name under which a missing offer is reported.
pub const OFFER_KIND: &'static str = "sg_p2p_nft_trade::state::Offer";

/// The name under which missing parameters are reported.
pub const PARAMS_KIND: &'static str = "sg_p2p_nft_trade::state::SudoParams";

/// The error reported when no offer is stored under the requested id.
pub open spec fn offer_not_found() -> StdError {
    not_found_error(OFFER_KIND@)
}

/// The error reported when the contract holds no parameters.
pub open spec fn params_not_found() -> StdError {
    not_found_error(PARAMS_KIND@)
}

/// An error of the expiry checks.
#[derive(Debug, PartialEq)]
pub enum ExpiryRangeError {
    Std(StdError),
    InvalidExpirationRange {},
    InvalidExpiry {},
}

/// An error of the contract.
#[derive(Debug, PartialEq)]
pub enum ContractError {
    Std(StdError),
    EmptyTokenVector {},
    UnauthorizedSender {},
    AlreadyOwned {},
    Unauthorized { collection: String, token_id: u32 },
    TokenAlreadyOffered { collection: String, token_id: u32, offer_id: u8 },
    UnauthorizedPeer { collection: String, token_id: u32, peer: String },
    UnauthorizedOperator {},
    MaxOffers { addr: String, max_offers: u64 },
    ExpiryRange(ExpiryRangeError),
}

/// The mathematical value of a [`ContractError`]: its strings taken as character sequences.
pub enum ContractErrorView {
    Std(StdError),
    EmptyTokenVector,
    UnauthorizedSender,
    AlreadyOwned,
    Unauthorized { collection: Seq<char>, token_id: u32 },
    TokenAlreadyOffered { collection: Seq<char>, token_id: u32, offer_id: u8 },
    UnauthorizedPeer { collection: Seq<char>, token_id: u32, peer: Seq<char> },
    UnauthorizedOperator,
    MaxOffers { addr: Seq<char>, max_offers: u64 },
    ExpiryRange(ExpiryRangeError),
}

impl View for ContractError {
    type V = ContractErrorView;

    open spec fn view(&self) -> ContractErrorView {
        match self {
            ContractError::Std(e) => ContractErrorView::Std(*e),
            ContractError::EmptyTokenVector {  } => ContractErrorView::EmptyTokenVector,
            ContractError::UnauthorizedSender {  } => ContractErrorView::UnauthorizedSender,
            ContractError::AlreadyOwned {  } => ContractErrorView::AlreadyOwned,
            ContractError::Unauthorized { collection, token_id } => ContractErrorView::Unauthorized {
                collection: collection@,
                token_id: *token_id,
            },
            ContractError::TokenAlreadyOffered {
                collection,
                token_id,
                offer_id,
            } => ContractErrorView::TokenAlreadyOffered {
                collection: collection@,
                token_id: *token_id,
                offer_id: *offer_id,
            },
            ContractError::UnauthorizedPeer {
                collection,
                token_id,
                peer,
            } => ContractErrorView::UnauthorizedPeer {
                collection: collection@,
                token_id: *token_id,
                peer: peer@,
            },
            ContractError::UnauthorizedOperator {  } => ContractErrorView::UnauthorizedOperator,
            ContractError::MaxOffers { addr, max_offers } => ContractErrorView::MaxOffers {
                addr: addr@,
                max_offers: *max_offers,
            },
            ContractError::ExpiryRange(e) => ContractErrorView::ExpiryRange(*e),
        }
    }
}

} // verus!
