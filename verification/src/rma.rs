//! Return merchandise authorisations: status conversions, the create
//! rules and the CAS error mapping.

use vstd::prelude::*;

use crate::error::{bad_request, is_bad, is_conflict, is_not_found, not_found, ApiError, ErrorCode, StoreError};
use crate::ids::{uuid_hyphenated, uuid_to_string};
use crate::text::join2;
use crate::text::{seq_trim, string_from, trim};

verus! {

/// Where an RMA stands.
#[derive(Debug, Clone, Copy, PartialEq, Eq, Structural)]
pub enum RmaStatus {
    Open,
    Received,
    Diagnosed,
    Repaired,
    Replaced,
    Rejected,
    Closed,
}

/// Wire form of [`RmaStatus`].
#[derive(Debug, Clone, Copy, PartialEq, Eq, Structural)]
pub enum RmaStatusDto {
    Open,
    Received,
    Diagnosed,
    Repaired,
    Replaced,
    Rejected,
    Closed,
}

impl From<RmaStatus> for RmaStatusDto {
    fn from(s: RmaStatus) -> (r: Self) {
        match s {
            RmaStatus::Open => RmaStatusDto::Open,
            RmaStatus::Received => RmaStatusDto::Received,
            RmaStatus::Diagnosed => RmaStatusDto::Diagnosed,
            RmaStatus::Repaired => RmaStatusDto::Repaired,
            RmaStatus::Replaced => RmaStatusDto::Replaced,
            RmaStatus::Rejected => RmaStatusDto::Rejected,
            RmaStatus::Closed => RmaStatusDto::Closed,
        }
    }
}

impl vstd::std_specs::convert::FromSpecImpl<RmaStatus> for RmaStatusDto {
    open spec fn obeys_from_spec() -> bool {
        true
    }

    open spec fn from_spec(s: RmaStatus) -> RmaStatusDto {
        match s {
            RmaStatus::Open => RmaStatusDto::Open,
            RmaStatus::Received => RmaStatusDto::Received,
            RmaStatus::Diagnosed => RmaStatusDto::Diagnosed,
            RmaStatus::Repaired => RmaStatusDto::Repaired,
            RmaStatus::Replaced => RmaStatusDto::Replaced,
            RmaStatus::Rejected => RmaStatusDto::Rejected,
            RmaStatus::Closed => RmaStatusDto::Closed,
        }
    }
}

impl From<RmaStatusDto> for RmaStatus {
    fn from(s: RmaStatusDto) -> (r: Self) {
        match s {
            RmaStatusDto::Open => RmaStatus::Open,
            RmaStatusDto::Received => RmaStatus::Received,
            RmaStatusDto::Diagnosed => RmaStatus::Diagnosed,
            RmaStatusDto::Repaired => RmaStatus::Repaired,
            RmaStatusDto::Replaced => RmaStatus::Replaced,
            RmaStatusDto::Rejected => RmaStatus::Rejected,
            RmaStatusDto::Closed => RmaStatus::Closed,
        }
    }
}

impl vstd::std_specs::convert::FromSpecImpl<RmaStatusDto> for RmaStatus {
    open spec fn obeys_from_spec() -> bool {
        true
    }

    open spec fn from_spec(s: RmaStatusDto) -> RmaStatus {
        match s {
            RmaStatusDto::Open => RmaStatus::Open,
            RmaStatusDto::Received => RmaStatus::Received,
            RmaStatusDto::Diagnosed => RmaStatus::Diagnosed,
            RmaStatusDto::Repaired => RmaStatus::Repaired,
            RmaStatusDto::Replaced => RmaStatus::Replaced,
            RmaStatusDto::Rejected => RmaStatus::Rejected,
            RmaStatusDto::Closed => RmaStatus::Closed,
        }
    }
}

/// The wire form of a status.
pub open spec fn rma_status_dto(s: RmaStatus) -> RmaStatusDto {
    <RmaStatusDto as vstd::std_specs::convert::FromSpec<RmaStatus>>::from_spec(s)
}

/// The status of a wire form.
pub open spec fn rma_status_of(s: RmaStatusDto) -> RmaStatus {
    <RmaStatus as vstd::std_specs::convert::FromSpec<RmaStatusDto>>::from_spec(s)
}

/// Status and wire form convert one-for-one: each conversion undoes
/// the other.
pub proof fn lemma_rma_status_round_trip(s: RmaStatus, d: RmaStatusDto)
    ensures
        rma_status_of(rma_status_dto(s)) == s,
        rma_status_dto(rma_status_of(d)) == d,
{
}

/// `POST /rma` body.
#[derive(Debug, Clone)]
pub struct CreateRmaRequest {
    pub org_id: u128,
    pub product_id: u128,
    pub unit_id: Option<u128>,
    pub customer_id: Option<u128>,
    pub rma_number: String,
    pub under_warranty: bool,
    pub reason: Option<String>,
}

/// The row a create writes.
#[derive(Debug, Clone)]
pub struct RmaCreate {
    pub org_id: u128,
    pub product_id: u128,
    pub unit_id: Option<u128>,
    pub customer_id: Option<u128>,
    pub rma_number: String,
    pub under_warranty: bool,
    pub status: RmaStatus,
    pub reason: Option<String>,
    pub created_by: Option<u128>,
}

/// A create needs a non-blank RMA number (`rma_number_required`); the
/// RMA opens with the trimmed number, created by the caller.
pub fn rma_create(body: CreateRmaRequest, actor: u128) -> (r: Result<RmaCreate, ApiError>)
    ensures
        seq_trim(body.rma_number@).len() == 0 ==> (r matches Err(e) && is_bad(
            e,
            ErrorCode::RmaNumberRequired,
            "rma_number must be non-empty"@,
        )),
        seq_trim(body.rma_number@).len() > 0 ==> (r matches Ok(c) && c.org_id == body.org_id && c.product_id
            == body.product_id && c.unit_id == body.unit_id && c.customer_id == body.customer_id && c.rma_number@
            == seq_trim(body.rma_number@) && c.under_warranty == body.under_warranty && c.status == RmaStatus::Open
            && c.reason == body.reason && c.created_by == Some(actor)),
{
    let n = trim(body.rma_number.as_str());
    if n.len() == 0 {
        return Err(bad_request(ErrorCode::RmaNumberRequired, "rma_number must be non-empty".to_owned()));
    }
    Ok(RmaCreate {
        org_id: body.org_id,
        product_id: body.product_id,
        unit_id: body.unit_id,
        customer_id: body.customer_id,
        rma_number: string_from(&n),
        under_warranty: body.under_warranty,
        status: RmaStatus::Open,
        reason: body.reason,
        created_by: Some(actor),
    })
}

/// A failed write of RMA `id` (the nil identifier for a create): a
/// missing RMA is `404 rma_not_found`, a version conflict `409
/// stale_version`, a rule violation `400 rma_invalid` (both with the
/// store's text); anything else passes through.
pub fn map_rma_cas(id: u128, err: StoreError) -> (r: ApiError)
    ensures
        match err {
            StoreError::NotFound { .. } => is_not_found(r, ErrorCode::RmaNotFound, "no rma with id "@ + uuid_hyphenated(id)),
            StoreError::Conflict(m) => is_conflict(r, ErrorCode::StaleVersion, m@),
            StoreError::Invalid(m) => is_bad(r, ErrorCode::RmaInvalid, m@),
            _ => r == ApiError::Store(err),
        },
{
    match err {
        StoreError::NotFound { .. } => not_found(ErrorCode::RmaNotFound, join2("no rma with id ", uuid_to_string(id).as_str())),
        StoreError::Conflict(m) => ApiError::Conflict { code: ErrorCode::StaleVersion, message: m },
        StoreError::Invalid(m) => ApiError::BadRequest { code: ErrorCode::RmaInvalid, message: m },
        e => ApiError::Store(e),
    }
}

} // verus!
