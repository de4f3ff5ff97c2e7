//! The data the handler reads and writes: the client's request and the stored
//! credential record.
use vstd::prelude::*;

verus! {

/// What a client posts: its key and its secret in plain text.
pub struct UpdateRequest {
    pub key: String,
    pub secret: String,
}

/// One attribute of a stored item as the credential store returned it.
pub enum StoredField {
    /// The attribute is absent.
    Missing,
    /// The attribute holds a string.
    Text(String),
    /// The attribute holds a value of another kind.
    NotText,
}

/// A stored item as fetched by key, before its attributes are checked.
pub struct StoredItem {
    pub secret: StoredField,
    pub domain: StoredField,
    pub zone_id: StoredField,
    pub last_set: StoredField,
}

/// The persisted state of one client key.
pub struct CredentialRecord {
    pub key: String,
    /// Lower-case hex SHA-512 digest of the expected secret.
    pub secret_hash: String,
    /// The DNS record name to manage.
    pub domain: String,
    /// The DNS zone that holds `domain`.
    pub zone_id: String,
    /// The address last written to DNS.
    pub last_set_address: String,
}

pub open spec fn text_of(f: StoredField) -> Option<String> {
    match f {
        StoredField::Text(s) => Some(s),
        _ => None,
    }
}

/// The record an item holds under `key`, when each of its attributes is text.
pub open spec fn record_of_item(key: String, item: StoredItem) -> Option<CredentialRecord> {
    if text_of(item.secret) is Some && text_of(item.domain) is Some && text_of(item.zone_id) is Some
        && text_of(item.last_set) is Some {
        Some(
            CredentialRecord {
                key,
                secret_hash: text_of(item.secret)->0,
                domain: text_of(item.domain)->0,
                zone_id: text_of(item.zone_id)->0,
                last_set_address: text_of(item.last_set)->0,
            },
        )
    } else {
        None
    }
}

/// The item under which a record is stored: every attribute as text.
pub open spec fn item_of_record(r: CredentialRecord) -> StoredItem {
    StoredItem {
        secret: StoredField::Text(r.secret_hash),
        domain: StoredField::Text(r.domain),
        zone_id: StoredField::Text(r.zone_id),
        last_set: StoredField::Text(r.last_set_address),
    }
}

fn field_text(f: &StoredField) -> (r: Option<String>)
    ensures
        r == text_of(*f),
{
    match f {
        StoredField::Text(s) => Some(s.clone()),
        _ => None,
    }
}

/// Reads the credential record out of an item fetched under `key`;
/// `None` when an attribute is missing or not text.
pub fn credential_from_item(key: &String, item: &StoredItem) -> (r: Option<CredentialRecord>)
    ensures
        r == record_of_item(*key, *item),
{
    let secret_hash = match field_text(&item.secret) {
        Some(s) => s,
        None => return None,
    };
    let domain = match field_text(&item.domain) {
        Some(s) => s,
        None => return None,
    };
    let zone_id = match field_text(&item.zone_id) {
        Some(s) => s,
        None => return None,
    };
    let last_set_address = match field_text(&item.last_set) {
        Some(s) => s,
        None => return None,
    };
    Some(CredentialRecord { key: key.clone(), secret_hash, domain, zone_id, last_set_address })
}

/// The item to write for `record`.
pub fn item_for_record(record: &CredentialRecord) -> (r: StoredItem)
    ensures
        r == item_of_record(*record),
{
    StoredItem {
        secret: StoredField::Text(record.secret_hash.clone()),
        domain: StoredField::Text(record.domain.clone()),
        zone_id: StoredField::Text(record.zone_id.clone()),
        last_set: StoredField::Text(record.last_set_address.clone()),
    }
}

} // verus!
