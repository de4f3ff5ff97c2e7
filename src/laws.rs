//! Properties of the handler, stated over `transition` and proved.
use vstd::prelude::*;
use crate::address::{is_ipv6_text, record_type_of, RecordType};
use crate::digest::secret_digest_text;
use crate::handler::{change_for, respond, transition, with_address, Action, Event, HandlerError, Outcome, Phase};
use crate::record::{item_of_record, record_of_item, StoredItem, UpdateRequest};

verus! {

/// A known key with the right secret and a new, well-formed address: the handler
/// asks for an upsert of that address with its record type and a TTL of 60
/// seconds, then, once DNS succeeded, for the record to be stored with the new
/// address, and then answers "updated".
pub proof fn lemma_new_address_is_written(
    request: UpdateRequest,
    source: String,
    item: StoredItem,
    ipv4: Option<bool>,
    t: RecordType,
)
    requires
        record_of_item(request.key, item) is Some,
        secret_digest_text(request.secret@) == record_of_item(request.key, item)->0.secret_hash@,
        source@ != record_of_item(request.key, item)->0.last_set_address@,
        record_type_of(source@, ipv4) == Some(Some(t)),
    ensures
        ({
            let record = record_of_item(request.key, item)->0;
            let presented = secret_digest_text(request.secret@);
            let updated = with_address(record, source);
            &&& transition(Phase::Fetching { request, source }, Event::Fetched(Some(item)), presented, ipv4)
                == (Phase::Applying { record: updated }, Action::ApplyDns(change_for(record, t, source)))
            &&& change_for(record, t, source).value == source
            &&& change_for(record, t, source).record_type == t
            &&& change_for(record, t, source).ttl == 60
            &&& change_for(record, t, source).domain == record.domain
            &&& change_for(record, t, source).zone_id == record.zone_id
            &&& transition(Phase::Applying { record: updated }, Event::DnsApplied, presented, ipv4)
                == (Phase::Storing, Action::StoreRecord(updated))
            &&& updated.last_set_address == source
            &&& updated.key == request.key
            &&& transition(Phase::Storing, Event::Stored, presented, ipv4) == respond(Ok(Outcome::Updated))
        }),
{
}

/// A known key with the right secret and the address already recorded: the
/// handler answers "unchanged" at once, with neither a DNS change nor a write.
pub proof fn lemma_same_address_is_unchanged(
    request: UpdateRequest,
    source: String,
    item: StoredItem,
    ipv4: Option<bool>,
)
    requires
        record_of_item(request.key, item) is Some,
        secret_digest_text(request.secret@) == record_of_item(request.key, item)->0.secret_hash@,
        source@ == record_of_item(request.key, item)->0.last_set_address@,
    ensures
        transition(
            Phase::Fetching { request, source },
            Event::Fetched(Some(item)),
            secret_digest_text(request.secret@),
            ipv4,
        ) == respond(Ok(Outcome::Unchanged)),
{
}

/// A known key with a wrong secret is refused as unauthorized, whatever the address.
pub proof fn lemma_wrong_secret_is_refused(
    request: UpdateRequest,
    source: String,
    item: StoredItem,
    ipv4: Option<bool>,
)
    requires
        record_of_item(request.key, item) is Some,
        secret_digest_text(request.secret@) != record_of_item(request.key, item)->0.secret_hash@,
    ensures
        transition(
            Phase::Fetching { request, source },
            Event::Fetched(Some(item)),
            secret_digest_text(request.secret@),
            ipv4,
        ) == respond(Err(HandlerError::Auth)),
{
}

/// An unknown key is refused as unauthorized, with the same reply as a wrong secret.
pub proof fn lemma_unknown_key_is_refused(
    request: UpdateRequest,
    source: String,
    presented: Seq<char>,
    ipv4: Option<bool>,
)
    ensures
        transition(Phase::Fetching { request, source }, Event::Fetched(None), presented, ipv4)
            == respond(Err(HandlerError::Auth)),
{
}

/// A body that could not be decoded is a validation error (on a configured handler).
pub proof fn lemma_malformed_body_is_invalid(source: Option<String>, presented: Seq<char>, ipv4: Option<bool>)
    ensures
        transition(
            Phase::Idle,
            Event::Received { configured: true, request: None, source },
            presented,
            ipv4,
        ) == respond(Err(HandlerError::Validation)),
{
}

/// The record type follows from the address text alone: IPv4 text gives `A`,
/// IPv6 text `AAAA`; any other address is refused as invalid before any DNS change.
pub proof fn lemma_record_type_selection(
    request: UpdateRequest,
    source: String,
    item: StoredItem,
    presented: Seq<char>,
    ipv4: Option<bool>,
)
    ensures
        record_type_of(source@, Some(true)) == Some(Some(RecordType::A)),
        is_ipv6_text(source@) ==> record_type_of(source@, Some(false)) == Some(Some(RecordType::Aaaa)),
        !is_ipv6_text(source@) ==> record_type_of(source@, Some(false)) == Some(None::<RecordType>),
        record_type_of(source@, ipv4) == Some(None::<RecordType>) ==> transition(
            Phase::Fetching { request, source },
            Event::Fetched(Some(item)),
            presented,
            ipv4,
        ).1 is Respond,
{
}

/// The same successful update issued twice: the first is applied and stored, and
/// the second, against the stored record, finds nothing to change.
pub proof fn lemma_repeat_is_unchanged(
    request: UpdateRequest,
    source: String,
    item: StoredItem,
    ipv4: Option<bool>,
    ipv4_again: Option<bool>,
)
    requires
        transition(
            Phase::Fetching { request, source },
            Event::Fetched(Some(item)),
            secret_digest_text(request.secret@),
            ipv4,
        ).1 is ApplyDns,
    ensures
        ({
            let presented = secret_digest_text(request.secret@);
            let first = transition(Phase::Fetching { request, source }, Event::Fetched(Some(item)), presented, ipv4);
            let stored = transition(first.0, Event::DnsApplied, presented, ipv4);
            &&& transition(
                Phase::Idle,
                Event::Received { configured: true, request: Some(request), source: Some(source) },
                presented,
                ipv4,
            ) == (Phase::Fetching { request, source }, Action::FetchRecord(request.key))
            &&& stored.1 is StoreRecord
            &&& transition(stored.0, Event::Stored, presented, ipv4) == respond(Ok(Outcome::Updated))
            &&& transition(
                Phase::Fetching { request, source },
                Event::Fetched(Some(item_of_record(stored.1->StoreRecord_0))),
                presented,
                ipv4_again,
            ) == respond(Ok(Outcome::Unchanged))
        }),
{
    let record = record_of_item(request.key, item)->0;
    let updated = with_address(record, source);
    assert(record_of_item(request.key, item_of_record(updated)) == Some(updated));
}

} // verus!
