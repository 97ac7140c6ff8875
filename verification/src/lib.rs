//! Client-side logic of a confidential asset-transfer protocol: blinded
//! invoices, allocation planning, transfer assembly and the acceptance of
//! consignments.

pub mod consignment;
pub mod error;
pub mod invoice;
pub mod issue;
pub mod json;
pub mod ledger;
pub mod planner;
pub mod seal;
pub mod text;
pub mod transfer;
