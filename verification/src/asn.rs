//! Advanced shipping notices: which states allow deleting, editing and
//! removing items, and how an edit changes the notice.
use vstd::prelude::*;
use crate::agentic::model::clone_opt;
use crate::text::{concat3, owned};

verus! {

/// Where a notice stands, as far as edits go: a draft, submitted, or in a
/// later state (named as the notice's status prints).
#[derive(Debug, Clone)]
pub enum AsnStage {
    Draft,
    Submitted,
    Other(String),
}

#[derive(Debug, Clone)]
pub enum AsnError {
    NotFound(String),
    ValidationError(String),
    InvalidOperation(String),
}

/// The fields of a notice that an edit reads or changes; times are
/// milliseconds since the Unix epoch.
#[derive(Debug, Clone)]
pub struct AsnRecord {
    pub id: String,
    pub version: i32,
    pub stage: AsnStage,
    pub expected_delivery_date: Option<i64>,
    pub shipping_address: String,
    pub tracking_number: Option<String>,
    pub notes: Option<String>,
    pub updated_at: i64,
}

/// The changes an edit asks for; absent ones leave the field as it is.
#[derive(Debug, Clone)]
pub struct AsnChanges {
    pub expected_delivery_date: Option<i64>,
    pub shipping_address: Option<String>,
    pub tracking_number: Option<String>,
    pub notes: Option<String>,
}

pub open spec fn stage_name(s: AsnStage) -> Seq<char> {
    match s {
        AsnStage::Draft => "Draft"@,
        AsnStage::Submitted => "Submitted"@,
        AsnStage::Other(n) => n@,
    }
}

/// Drafts and submitted notices can still be edited.
pub open spec fn editable(s: AsnStage) -> bool {
    s is Draft || s is Submitted
}

/// `ASN <id> not found`.
pub fn asn_not_found(asn_id: &str) -> (e: AsnError)
    ensures
        e matches AsnError::NotFound(m) && m@ == "ASN "@ + asn_id@ + " not found"@,
{
    AsnError::NotFound(concat3("ASN ", asn_id, " not found"))
}

/// `Item <item> not found in ASN <id>`.
pub fn asn_item_not_found(asn_id: &str, item_id: &str) -> (e: AsnError)
    ensures
        e matches AsnError::NotFound(m) && m@ == "Item "@ + item_id@ + " not found in ASN "@ + asn_id@,
{
    let head = concat3("Item ", item_id, " not found in ASN ");
    let mut m = head;
    crate::text::push_str(&mut m, asn_id);
    AsnError::NotFound(m)
}

fn stage_text(s: &AsnStage) -> (t: String)
    ensures
        t@ == stage_name(*s),
{
    match s {
        AsnStage::Draft => owned("Draft"),
        AsnStage::Submitted => owned("Submitted"),
        AsnStage::Other(n) => n.clone(),
    }
}

/// Only drafts can be deleted.
pub fn check_deletable(stage: &AsnStage) -> (r: Result<(), AsnError>)
    ensures
        r is Ok <==> *stage is Draft,
        r matches Err(AsnError::ValidationError(m)) ==> m@ == "Only draft ASNs can be deleted"@,
        r is Err ==> r matches Err(AsnError::ValidationError(_)),
{
    match stage {
        AsnStage::Draft => Ok(()),
        _ => Err(AsnError::ValidationError(owned("Only draft ASNs can be deleted"))),
    }
}

/// Items can be removed from drafts and submitted notices only.
pub fn check_items_removable(stage: &AsnStage) -> (r: Result<(), AsnError>)
    ensures
        r is Ok <==> editable(*stage),
        r is Err ==> (r matches Err(AsnError::InvalidOperation(m)) && m@ == "Cannot remove items from ASN in "@ + stage_name(*stage) + " status"@),
{
    if editable_stage(stage) {
        Ok(())
    } else {
        let name = stage_text(stage);
        Err(AsnError::InvalidOperation(concat3("Cannot remove items from ASN in ", name.as_str(), " status")))
    }
}

fn editable_stage(stage: &AsnStage) -> (b: bool)
    ensures
        b == editable(*stage),
{
    match stage {
        AsnStage::Draft => true,
        AsnStage::Submitted => true,
        AsnStage::Other(_) => false,
    }
}

pub open spec fn or_keep<T>(new: Option<T>, old: T) -> T {
    match new {
        Some(v) => v,
        None => old,
    }
}

pub open spec fn or_keep_opt<T>(new: Option<T>, old: Option<T>) -> Option<T> {
    match new {
        Some(v) => Some(v),
        None => old,
    }
}

/// An edit of a notice at `now`. It is refused when the caller's version is
/// not the notice's (another edit came first), or when the notice is past
/// the submitted stage; otherwise the version goes up by one, the time of
/// the change is recorded and each given field replaces the old one.
pub fn apply_asn_update(asn: &AsnRecord, version: i32, changes: AsnChanges, now: i64) -> (r: Result<AsnRecord, AsnError>)
    requires
        asn.version == version ==> version < i32::MAX,
    ensures
        asn.version != version ==> (r matches Err(AsnError::InvalidOperation(m))
            && m@ == "Concurrent modification detected. Please refresh and try again."@),
        asn.version == version && !editable(asn.stage) ==> (r matches Err(AsnError::InvalidOperation(m))
            && m@ == "Cannot update ASN in "@ + stage_name(asn.stage) + " status"@),
        asn.version == version && editable(asn.stage) ==> (r matches Ok(u) && {
            &&& u.id == asn.id
            &&& u.version == version + 1
            &&& u.stage == asn.stage
            &&& u.updated_at == now
            &&& u.expected_delivery_date == or_keep_opt(changes.expected_delivery_date, asn.expected_delivery_date)
            &&& u.shipping_address == or_keep(changes.shipping_address, asn.shipping_address)
            &&& u.tracking_number == or_keep_opt(changes.tracking_number, asn.tracking_number)
            &&& u.notes == or_keep_opt(changes.notes, asn.notes)
        }),
{
    if asn.version != version {
        return Err(AsnError::InvalidOperation(owned("Concurrent modification detected. Please refresh and try again.")));
    }
    if !editable_stage(&asn.stage) {
        let name = stage_text(&asn.stage);
        return Err(AsnError::InvalidOperation(concat3("Cannot update ASN in ", name.as_str(), " status")));
    }
    let expected_delivery_date = match changes.expected_delivery_date {
        Some(d) => Some(d),
        None => asn.expected_delivery_date,
    };
    let shipping_address = match changes.shipping_address {
        Some(a) => a,
        None => asn.shipping_address.clone(),
    };
    let tracking_number = match changes.tracking_number {
        Some(t) => Some(t),
        None => clone_opt(&asn.tracking_number),
    };
    let notes = match changes.notes {
        Some(n) => Some(n),
        None => clone_opt(&asn.notes),
    };
    let stage = match &asn.stage {
        AsnStage::Draft => AsnStage::Draft,
        AsnStage::Submitted => AsnStage::Submitted,
        AsnStage::Other(n) => AsnStage::Other(n.clone()),
    };
    Ok(AsnRecord {
        id: asn.id.clone(),
        version: version + 1,
        stage,
        expected_delivery_date,
        shipping_address,
        tracking_number,
        notes,
        updated_at: now,
    })
}

} // verus!
