//! The update handler as a state machine: each call of [`advance`] takes the
//! current phase and what the caller observed, and returns the next phase and
//! the one piece of outside work to do next (or the reply).
use vstd::prelude::*;
use crate::address::{ipv4_pattern_match, record_type_for, record_type_of, regex_verdict, RecordType, IPV4_PATTERN};
use crate::digest::{same_text, secret_digest, secret_digest_text};
use crate::record::{credential_from_item, record_of_item, CredentialRecord, StoredItem, UpdateRequest};

verus! {

/// Time-to-live of every record written, in seconds.
pub const DNS_TTL: u32 = 60;

/// Why a request was rejected.
#[derive(Clone, Copy, Debug, PartialEq, Eq, Structural)]
pub enum HandlerError {
    /// Malformed body, missing or unusable source address.
    Validation,
    /// Unknown key or wrong secret; the two are not told apart.
    Auth,
    /// Store, DNS or configuration failure.
    Internal,
}

/// A successful request either changed the record or found nothing to change.
#[derive(Clone, Copy, Debug, PartialEq, Eq, Structural)]
pub enum Outcome {
    Updated,
    Unchanged,
}

/// An upsert of one record set holding a single value.
pub struct DnsChange {
    pub zone_id: String,
    pub domain: String,
    pub record_type: RecordType,
    pub value: String,
    pub ttl: u32,
}

/// What the caller reports to the handler.
pub enum Event {
    /// A request came in. `configured` says whether the store is configured;
    /// `request` is the decoded body, `None` when it could not be decoded;
    /// `source` is the client's address as the transport saw it.
    Received { configured: bool, request: Option<UpdateRequest>, source: Option<String> },
    /// The store answered the lookup: the item under the key, if any.
    Fetched(Option<StoredItem>),
    /// The DNS change was applied.
    DnsApplied,
    /// The record was written.
    Stored,
    /// The outside work last asked for failed.
    Failed,
}

/// What the caller must do next.
pub enum Action {
    /// Look up the item stored under this key.
    FetchRecord(String),
    /// Submit this DNS change.
    ApplyDns(DnsChange),
    /// Overwrite the stored item with this record.
    StoreRecord(CredentialRecord),
    /// Answer the client; the request is over.
    Respond(Result<Outcome, HandlerError>),
}

/// Where one request stands.
pub enum Phase {
    /// Nothing received yet.
    Idle,
    /// Waiting for the store's lookup of `request.key`.
    Fetching { request: UpdateRequest, source: String },
    /// Waiting for the DNS change; `record` is what to store once it succeeds.
    Applying { record: CredentialRecord },
    /// Waiting for the store write.
    Storing,
    /// The reply was given.
    Done,
}

pub open spec fn respond(reply: Result<Outcome, HandlerError>) -> (Phase, Action) {
    (Phase::Done, Action::Respond(reply))
}

/// `record` with `address` as its last applied address.
pub open spec fn with_address(record: CredentialRecord, address: String) -> CredentialRecord {
    CredentialRecord {
        key: record.key,
        secret_hash: record.secret_hash,
        domain: record.domain,
        zone_id: record.zone_id,
        last_set_address: address,
    }
}

/// The change that points `record`'s domain at `address`.
pub open spec fn change_for(record: CredentialRecord, t: RecordType, address: String) -> DnsChange {
    DnsChange {
        zone_id: record.zone_id,
        domain: record.domain,
        record_type: t,
        value: address,
        ttl: DNS_TTL,
    }
}

/// The decision once the record is known: authenticate, then either stop with
/// "unchanged" or ask for the DNS change.
pub open spec fn decide(
    record: CredentialRecord,
    source: String,
    presented: Seq<char>,
    ipv4: Option<bool>,
) -> (Phase, Action) {
    if presented != record.secret_hash@ {
        respond(Err(HandlerError::Auth))
    } else if source@ == record.last_set_address@ {
        respond(Ok(Outcome::Unchanged))
    } else {
        match record_type_of(source@, ipv4) {
            None => respond(Err(HandlerError::Internal)),
            Some(None) => respond(Err(HandlerError::Validation)),
            Some(Some(t)) => (
                Phase::Applying { record: with_address(record, source) },
                Action::ApplyDns(change_for(record, t, source)),
            ),
        }
    }
}

/// One step of the handler. `presented` is the digest text of the secret in the
/// request being looked up, and `ipv4` whether its source address matched the
/// IPv4 pattern (`None`: the pattern could not be used); other steps ignore both.
pub open spec fn transition(phase: Phase, event: Event, presented: Seq<char>, ipv4: Option<bool>) -> (Phase, Action) {
    match (phase, event) {
        (Phase::Idle, Event::Received { configured, request, source }) => {
            if !configured {
                respond(Err(HandlerError::Internal))
            } else if request is None || source is None {
                respond(Err(HandlerError::Validation))
            } else {
                (
                    Phase::Fetching { request: request->0, source: source->0 },
                    Action::FetchRecord(request->0.key),
                )
            }
        },
        (Phase::Fetching { request, source }, Event::Fetched(found)) => match found {
            None => respond(Err(HandlerError::Auth)),
            Some(item) => match record_of_item(request.key, item) {
                None => respond(Err(HandlerError::Internal)),
                Some(record) => decide(record, source, presented, ipv4),
            },
        },
        (Phase::Applying { record }, Event::DnsApplied) => (Phase::Storing, Action::StoreRecord(record)),
        (Phase::Storing, Event::Stored) => respond(Ok(Outcome::Updated)),
        _ => respond(Err(HandlerError::Internal)),
    }
}

fn reply(r: Result<Outcome, HandlerError>) -> (p: (Phase, Action))
    ensures
        p == respond(r),
{
    (Phase::Done, Action::Respond(r))
}

/// Carries out `transition` on outside results that the caller supplies.
pub fn step(phase: Phase, event: Event, presented: &Vec<char>, ipv4: Option<bool>) -> (r: (Phase, Action))
    ensures
        r == transition(phase, event, presented@, ipv4),
{
    match (phase, event) {
        (Phase::Idle, Event::Received { configured, request, source }) => {
            if !configured {
                return reply(Err(HandlerError::Internal));
            }
            match (request, source) {
                (Some(request), Some(source)) => {
                    let key = request.key.clone();
                    (Phase::Fetching { request, source }, Action::FetchRecord(key))
                },
                _ => reply(Err(HandlerError::Validation)),
            }
        },
        (Phase::Fetching { request, source }, Event::Fetched(found)) => {
            let item = match found {
                None => return reply(Err(HandlerError::Auth)),
                Some(item) => item,
            };
            let record = match credential_from_item(&request.key, &item) {
                None => return reply(Err(HandlerError::Internal)),
                Some(record) => record,
            };
            if !same_text(presented, record.secret_hash.as_str()) {
                return reply(Err(HandlerError::Auth));
            }
            if source == record.last_set_address {
                return reply(Ok(Outcome::Unchanged));
            }
            match record_type_for(source.as_str(), ipv4) {
                None => reply(Err(HandlerError::Internal)),
                Some(None) => reply(Err(HandlerError::Validation)),
                Some(Some(t)) => {
                    let change = DnsChange {
                        zone_id: record.zone_id.clone(),
                        domain: record.domain.clone(),
                        record_type: t,
                        value: source.clone(),
                        ttl: DNS_TTL,
                    };
                    let updated = CredentialRecord {
                        key: record.key,
                        secret_hash: record.secret_hash,
                        domain: record.domain,
                        zone_id: record.zone_id,
                        last_set_address: source,
                    };
                    (Phase::Applying { record: updated }, Action::ApplyDns(change))
                },
            }
        },
        (Phase::Applying { record }, Event::DnsApplied) => (Phase::Storing, Action::StoreRecord(record)),
        (Phase::Storing, Event::Stored) => reply(Ok(Outcome::Updated)),
        _ => reply(Err(HandlerError::Internal)),
    }
}

/// What the outside results handed to `transition` must be for `phase`: in a
/// lookup, the digest text of the request's secret, and the IPv4 pattern's
/// verdict on its source address.
pub open spec fn inputs_fit(phase: Phase, presented: Seq<char>, ipv4: Option<bool>) -> bool {
    match phase {
        Phase::Fetching { request, source } => {
            &&& presented == secret_digest_text(request.secret@)
            &&& ipv4 == regex_verdict(IPV4_PATTERN@, source@)
        },
        _ => true,
    }
}

/// Advances the handler by one step, computing the secret's digest and the
/// address's form where the step needs them.
pub fn advance(phase: Phase, event: Event) -> (r: (Phase, Action))
    ensures
        exists|presented: Seq<char>, ipv4: Option<bool>|
            inputs_fit(phase, presented, ipv4) && r == transition(phase, event, presented, ipv4),
{
    let (presented, ipv4) = match &phase {
        Phase::Fetching { request, source } => {
            (secret_digest(request.secret.as_str()), ipv4_pattern_match(source.as_str()))
        },
        _ => (Vec::new(), None),
    };
    let ghost (p, m) = (presented@, ipv4);
    let r = step(phase, event, &presented, ipv4);
    assert(inputs_fit(phase, p, m) && r == transition(phase, event, p, m));
    r
}

/// The HTTP status that answers `reply`.
pub open spec fn status_of(reply: Result<Outcome, HandlerError>) -> u16 {
    match reply {
        Ok(_) => 200,
        Err(HandlerError::Validation) => 400,
        Err(HandlerError::Auth) => 401,
        Err(HandlerError::Internal) => 500,
    }
}

/// The HTTP status that answers `reply`.
pub fn status_code(reply: &Result<Outcome, HandlerError>) -> (r: u16)
    ensures
        r == status_of(*reply),
{
    match reply {
        Ok(_) => 200,
        Err(HandlerError::Validation) => 400,
        Err(HandlerError::Auth) => 401,
        Err(HandlerError::Internal) => 500,
    }
}

/// The plain-text body that answers `reply`.
pub fn reply_text(reply: &Result<Outcome, HandlerError>) -> (r: String)
    ensures
        r@ == match *reply {
            Ok(Outcome::Updated) => "Record updated"@,
            Ok(Outcome::Unchanged) => "No ip change"@,
            Err(HandlerError::Validation) => "Bad Request"@,
            Err(HandlerError::Auth) => "Not authorized"@,
            Err(HandlerError::Internal) => "Internal Server Error"@,
        },
{
    match reply {
        Ok(Outcome::Updated) => String::from_str("Record updated"),
        Ok(Outcome::Unchanged) => String::from_str("No ip change"),
        Err(HandlerError::Validation) => String::from_str("Bad Request"),
        Err(HandlerError::Auth) => String::from_str("Not authorized"),
        Err(HandlerError::Internal) => String::from_str("Internal Server Error"),
    }
}

} // verus!
