//! The records that the store holds and the arguments that the user interface sends.
use vstd::prelude::*;

verus! {

/// A member of one or more cooperatives.
#[derive(Clone, Debug)]
pub struct Member {
    pub id: i64,
    /// National identity number, unique among members.
    pub tc_number: String,
    pub full_name: String,
    pub phone_1: String,
    pub phone_2: Option<String>,
    pub registration_date: String,
    pub created_at: Option<String>,
}

/// The fields of a member to create or update.
#[derive(Clone, Debug)]
pub struct CreateMemberArgs {
    pub tc_number: String,
    pub full_name: String,
    pub phone_1: String,
    pub phone_2: Option<String>,
    pub registration_date: String,
}

/// A cooperative.
#[derive(Clone, Debug)]
pub struct Cooperative {
    pub id: i64,
    pub name: String,
    pub start_date: String,
    pub created_at: Option<String>,
}

/// The fields of a cooperative to create.
#[derive(Clone, Debug)]
pub struct CreateCoopArgs {
    pub name: String,
    pub start_date: String,
}

/// Members to link to a cooperative, all with the same entry date.
#[derive(Clone, Debug)]
pub struct AddMemberToCoopArgs {
    pub coop_id: i64,
    pub member_ids: Vec<i64>,
    pub entry_date: String,
}

/// A member as seen from one of its memberships.
#[derive(Clone, Debug)]
pub struct CoopMember {
    /// The membership's id.
    pub id: i64,
    pub member_id: i64,
    pub full_name: String,
    pub tc_number: String,
    pub phone_1: String,
    pub entry_date: String,
}

/// A payment to record against a due; the amount is in cents.
#[derive(Clone, Debug)]
pub struct PayDueArgs {
    pub due_id: i64,
    pub amount: u64,
    pub payment_date: String,
}

/// What a payment receipt shows about a membership.
#[derive(Clone, Debug)]
pub struct ReceiptInfo {
    pub coop_name: String,
    pub member_full_name: String,
    pub member_tc: String,
    pub member_phone: String,
}

} // verus!
