//! The domain operations: creation, search, booking lifecycle, and review
//! aggregation, each against the registry handed in by the caller.
//!
//! Every operation is total over well-formed registries: the contract says,
//! case by case over the inputs, which envelope comes back and how the
//! registry changes. `now` is the caller's clock reading, stamped into
//! records as their creation time.

use vstd::prelude::*;

use crate::model::{
    Booking, BookingPayload, BookingStatusEnum, Client, ClientPayload, Message, Review,
    ReviewPayload, ServiceProvider, ServiceProviderPayload,
};
use crate::registry::Registry;
use crate::store::{has_key, key_index, lemma_keys_preserved_push, value_of};
use crate::text::{contains_seq, str_contains};

verus! {

/// The date set membership test behind booking validation.
fn contains_date(dates: &Vec<u64>, date: u64) -> (r: bool)
    ensures
        r == dates@.contains(date),
{
    let n = dates.len();
    let mut i: usize = 0;
    while i < n
        invariant
            n == dates@.len(),
            i <= n,
            forall|j: int| 0 <= j < i ==> dates@[j] != date,
        decreases n - i,
    {
        if dates[i] == date {
            return true;
        }
        i = i + 1;
    }
    false
}

/// Creates a provider with the next identifier, an empty review list and a
/// zero rating, provided name, service type and contact info are all
/// non-empty; rejects the request as `InvalidPayload` otherwise.
pub fn create_service_provider(
    reg: &mut Registry,
    payload: ServiceProviderPayload,
    now: u64,
) -> (res: Result<ServiceProvider, Message>)
    requires
        old(reg).wf(),
        old(reg).counter < u64::MAX,
    ensures
        final(reg).wf(),
        old(reg).no_completed() ==> final(reg).no_completed(),
        res is Err <==> (payload.name@.len() == 0 || payload.service_type@.len() == 0
            || payload.contact_info@.len() == 0),
        res is Err ==> res->Err_0 is InvalidPayload && *final(reg) == *old(reg),
        res is Ok ==> ({
            let p = res->Ok_0;
            &&& p.id == old(reg).counter + 1
            &&& p.name == payload.name
            &&& p.service_type == payload.service_type
            &&& p.contact_info == payload.contact_info
            &&& p.created_at == now
            &&& p.rating_total == 0
            &&& p.reviews@.len() == 0
            &&& p.availability@ == payload.availability@
            &&& final(reg).counter == old(reg).counter + 1
            &&& final(reg).providers@.len() == old(reg).providers@.len() + 1
            &&& final(reg).providers@.drop_last() == old(reg).providers@
            &&& final(reg).providers@.last().0 == p.id
            &&& final(reg).providers@.last().1@ == p@
            &&& final(reg).bookings == old(reg).bookings
            &&& final(reg).clients == old(reg).clients
        }),
{
    if payload.name.as_str().is_empty() || payload.service_type.as_str().is_empty()
        || payload.contact_info.as_str().is_empty() {
        return Err(
            Message::InvalidPayload(
                "Ensure 'name', 'service_type', and 'contact_info' are provided.".to_owned(),
            ),
        );
    }
    let id = reg.next_id();
    let provider = ServiceProvider {
        id,
        name: payload.name,
        service_type: payload.service_type,
        contact_info: payload.contact_info,
        created_at: now,
        rating_total: 0,
        reviews: Vec::new(),
        availability: payload.availability,
    };
    let ret = provider.duplicate();
    proof {
        assert(!has_key(reg.providers@, id));
        lemma_keys_preserved_push(reg.providers@, (id, provider));
    }
    let ghost prior = *reg;
    let _ = reg.providers.insert(id, provider);
    proof {
        assert(reg.providers@.drop_last() =~= prior.providers@);
        assert forall|i: int| 0 <= i < reg.bookings@.len() implies has_key(
            reg.providers@,
            (#[trigger] reg.bookings@[i]).1.service_provider_id,
        ) by {
            assert(has_key(prior.providers@, reg.bookings@[i].1.service_provider_id));
        }
    }
    Ok(ret)
}

/// Creates a client with the next identifier, provided name and contact info
/// are non-empty; rejects the request as `InvalidPayload` otherwise.
pub fn create_client(reg: &mut Registry, payload: ClientPayload) -> (res: Result<Client, Message>)
    requires
        old(reg).wf(),
        old(reg).counter < u64::MAX,
    ensures
        final(reg).wf(),
        old(reg).no_completed() ==> final(reg).no_completed(),
        res is Err <==> (payload.name@.len() == 0 || payload.contact_info@.len() == 0),
        res is Err ==> res->Err_0 is InvalidPayload && *final(reg) == *old(reg),
        res is Ok ==> ({
            let c = res->Ok_0;
            &&& c == (Client {
                id: (old(reg).counter + 1) as u64,
                name: payload.name,
                contact_info: payload.contact_info,
            })
            &&& final(reg).counter == old(reg).counter + 1
            &&& final(reg).clients@ == old(reg).clients@.push((c.id, c))
            &&& final(reg).providers == old(reg).providers
            &&& final(reg).bookings == old(reg).bookings
        }),
{
    if payload.name.as_str().is_empty() || payload.contact_info.as_str().is_empty() {
        return Err(
            Message::InvalidPayload("Ensure 'name' and 'contact_info' are provided.".to_owned()),
        );
    }
    let id = reg.next_id();
    let client = Client { id, name: payload.name, contact_info: payload.contact_info };
    let ret = client.duplicate();
    proof {
        assert(!has_key(reg.clients@, id));
    }
    let ghost prior = *reg;
    let _ = reg.clients.insert(id, client);
    proof {
        assert forall|i: int| 0 <= i < reg.bookings@.len() implies has_key(
            reg.providers@,
            (#[trigger] reg.bookings@[i]).1.service_provider_id,
        ) by {
            assert(has_key(prior.providers@, reg.bookings@[i].1.service_provider_id));
        }
    }
    Ok(ret)
}

/// Books a provider's date for a client. The date must be non-zero, the
/// provider must exist, and the date must be in the provider's availability;
/// the booking starts out `Pending`. The client reference is deliberately
/// not checked, and the date is not reserved: two bookings of the same
/// provider and date both succeed.
pub fn create_booking(reg: &mut Registry, payload: BookingPayload, now: u64) -> (res: Result<
    Booking,
    Message,
>)
    requires
        old(reg).wf(),
        old(reg).counter < u64::MAX,
    ensures
        final(reg).wf(),
        old(reg).no_completed() ==> final(reg).no_completed(),
        payload.service_date == 0 ==> res is Err && res->Err_0 is InvalidPayload && *final(reg)
            == *old(reg),
        payload.service_date != 0 && !has_key(old(reg).providers@, payload.service_provider_id)
            ==> res is Err && res->Err_0 is InvalidPayload && *final(reg) == *old(reg),
        payload.service_date != 0 && has_key(old(reg).providers@, payload.service_provider_id)
            && !value_of(old(reg).providers@, payload.service_provider_id).availability@.contains(
            payload.service_date,
        ) ==> res is Err && res->Err_0 is Error && *final(reg) == *old(reg),
        payload.service_date != 0 && has_key(old(reg).providers@, payload.service_provider_id)
            && value_of(old(reg).providers@, payload.service_provider_id).availability@.contains(
            payload.service_date,
        ) ==> res is Ok && ({
            let b = res->Ok_0;
            &&& b == (Booking {
                id: (old(reg).counter + 1) as u64,
                service_provider_id: payload.service_provider_id,
                client_id: payload.client_id,
                service_date: payload.service_date,
                service_type: payload.service_type,
                status: BookingStatusEnum::Pending,
                created_at: now,
            })
            &&& final(reg).counter == old(reg).counter + 1
            &&& final(reg).bookings@ == old(reg).bookings@.push((b.id, b))
            &&& final(reg).providers == old(reg).providers
            &&& final(reg).clients == old(reg).clients
        }),
{
    if payload.service_date == 0 {
        return Err(Message::InvalidPayload("Invalid service date.".to_owned()));
    }
    match reg.providers.get(payload.service_provider_id) {
        None => {
            return Err(Message::InvalidPayload("Invalid service_provider_id provided.".to_owned()));
        },
        Some(provider) => {
            if !contains_date(&provider.availability, payload.service_date) {
                return Err(
                    Message::Error(
                        "Service provider is not available on the selected date.".to_owned(),
                    ),
                );
            }
        },
    }
    let id = reg.next_id();
    let booking = Booking {
        id,
        service_provider_id: payload.service_provider_id,
        client_id: payload.client_id,
        service_date: payload.service_date,
        service_type: payload.service_type,
        status: BookingStatusEnum::Pending,
        created_at: now,
    };
    let ret = booking.duplicate();
    proof {
        assert(!has_key(reg.bookings@, id));
        lemma_keys_preserved_push(reg.bookings@, (id, booking));
    }
    let ghost prior = *reg;
    let _ = reg.bookings.insert(id, booking);
    proof {
        assert(reg.bookings@ =~= prior.bookings@.push((id, booking)));
    }
    Ok(ret)
}

/// Marks a booking `Confirmed`. Fails with `NotFound` when the booking does
/// not exist, and with `Error` when it is already `Confirmed` — a second
/// confirmation always fails. Any other status, `Canceled` included, is
/// confirmed as the stored rules have it.
pub fn confirm_booking(reg: &mut Registry, booking_id: u64) -> (res: Result<Message, Message>)
    requires
        old(reg).wf(),
    ensures
        final(reg).wf(),
        old(reg).no_completed() ==> final(reg).no_completed(),
        !has_key(old(reg).bookings@, booking_id) ==> res is Err && res->Err_0 is NotFound && *final(reg) == *old(reg),
        has_key(old(reg).bookings@, booking_id) && value_of(old(reg).bookings@, booking_id).status
            is Confirmed ==> res is Err && res->Err_0 is Error && *final(reg) == *old(reg),
        has_key(old(reg).bookings@, booking_id) && !(value_of(
            old(reg).bookings@,
            booking_id,
        ).status is Confirmed) ==> res is Ok && res->Ok_0 is Success && ({
            let b0 = value_of(old(reg).bookings@, booking_id);
            &&& final(reg).bookings@ == old(reg).bookings@.update(
                key_index(old(reg).bookings@, booking_id),
                (booking_id, (Booking { status: BookingStatusEnum::Confirmed, ..b0 })),
            )
            &&& final(reg).counter == old(reg).counter
            &&& final(reg).providers == old(reg).providers
            &&& final(reg).clients == old(reg).clients
        }),
{
    let mut booking = match reg.bookings.get(booking_id) {
        None => {
            return Err(Message::NotFound("Booking not found".to_owned()));
        },
        Some(b) => b.duplicate(),
    };
    if booking.status == BookingStatusEnum::Confirmed {
        return Err(Message::Error("Booking is already confirmed.".to_owned()));
    }
    booking.status = BookingStatusEnum::Confirmed;
    update_booking_in_place(reg, booking_id, booking);
    Ok(Message::Success("Booking confirmed.".to_owned()))
}

/// Marks a booking `Canceled`. Fails with `NotFound` when the booking does
/// not exist, and with `Error` when it is already `Canceled`; any other
/// status, `Confirmed` included, may be canceled.
pub fn cancel_booking(reg: &mut Registry, booking_id: u64) -> (res: Result<Message, Message>)
    requires
        old(reg).wf(),
    ensures
        final(reg).wf(),
        old(reg).no_completed() ==> final(reg).no_completed(),
        !has_key(old(reg).bookings@, booking_id) ==> res is Err && res->Err_0 is NotFound && *final(reg) == *old(reg),
        has_key(old(reg).bookings@, booking_id) && value_of(old(reg).bookings@, booking_id).status
            is Canceled ==> res is Err && res->Err_0 is Error && *final(reg) == *old(reg),
        has_key(old(reg).bookings@, booking_id) && !(value_of(
            old(reg).bookings@,
            booking_id,
        ).status is Canceled) ==> res is Ok && res->Ok_0 is Success && ({
            let b0 = value_of(old(reg).bookings@, booking_id);
            &&& final(reg).bookings@ == old(reg).bookings@.update(
                key_index(old(reg).bookings@, booking_id),
                (booking_id, (Booking { status: BookingStatusEnum::Canceled, ..b0 })),
            )
            &&& final(reg).counter == old(reg).counter
            &&& final(reg).providers == old(reg).providers
            &&& final(reg).clients == old(reg).clients
        }),
{
    let mut booking = match reg.bookings.get(booking_id) {
        None => {
            return Err(Message::NotFound("Booking not found".to_owned()));
        },
        Some(b) => b.duplicate(),
    };
    if booking.status == BookingStatusEnum::Canceled {
        return Err(Message::Error("Booking is already canceled.".to_owned()));
    }
    booking.status = BookingStatusEnum::Canceled;
    update_booking_in_place(reg, booking_id, booking);
    Ok(Message::Success("Booking canceled.".to_owned()))
}

/// Moves a booking to a new date. Only a `Pending` booking may move — a
/// `Confirmed` or `Canceled` one is refused with `Error` whatever the new
/// date — and the new date must be in the provider's availability.
pub fn reschedule_booking(reg: &mut Registry, booking_id: u64, new_date: u64) -> (res: Result<
    Message,
    Message,
>)
    requires
        old(reg).wf(),
    ensures
        final(reg).wf(),
        old(reg).no_completed() ==> final(reg).no_completed(),
        !has_key(old(reg).bookings@, booking_id) ==> res is Err && res->Err_0 is NotFound && *final(reg) == *old(reg),
        has_key(old(reg).bookings@, booking_id) && !(value_of(
            old(reg).bookings@,
            booking_id,
        ).status is Pending) ==> res is Err && res->Err_0 is Error && *final(reg) == *old(reg),
        has_key(old(reg).bookings@, booking_id) && value_of(old(reg).bookings@, booking_id).status
            is Pending && !value_of(
            old(reg).providers@,
            value_of(old(reg).bookings@, booking_id).service_provider_id,
        ).availability@.contains(new_date) ==> res is Err && res->Err_0 is Error && *final(reg)
            == *old(reg),
        has_key(old(reg).bookings@, booking_id) && value_of(old(reg).bookings@, booking_id).status
            is Pending && value_of(
            old(reg).providers@,
            value_of(old(reg).bookings@, booking_id).service_provider_id,
        ).availability@.contains(new_date) ==> res is Ok && res->Ok_0 is Success && ({
            let b0 = value_of(old(reg).bookings@, booking_id);
            &&& final(reg).bookings@ == old(reg).bookings@.update(
                key_index(old(reg).bookings@, booking_id),
                (booking_id, (Booking { service_date: new_date, ..b0 })),
            )
            &&& final(reg).counter == old(reg).counter
            &&& final(reg).providers == old(reg).providers
            &&& final(reg).clients == old(reg).clients
        }),
{
    let mut booking = match reg.bookings.get(booking_id) {
        None => {
            return Err(Message::NotFound("Booking not found".to_owned()));
        },
        Some(b) => b.duplicate(),
    };
    if !(booking.status == BookingStatusEnum::Pending) {
        return Err(Message::Error("Only pending bookings can be rescheduled.".to_owned()));
    }
    match reg.providers.get(booking.service_provider_id) {
        None => {
            return Err(Message::NotFound("Service provider not found".to_owned()));
        },
        Some(provider) => {
            if !contains_date(&provider.availability, new_date) {
                return Err(
                    Message::Error(
                        "Service provider is not available on the new date.".to_owned(),
                    ),
                );
            }
        },
    }
    booking.service_date = new_date;
    update_booking_in_place(reg, booking_id, booking);
    Ok(Message::Success("Booking rescheduled.".to_owned()))
}

/// Appends a review to the provider behind a booking and recomputes that
/// provider's rating total. The booking must exist and be `Completed`; since
/// no operation ever assigns `Completed`, no review can be added through the
/// operation set, and under `no_completed` this always returns an error.
pub fn add_review(reg: &mut Registry, payload: ReviewPayload, now: u64) -> (res: Result<
    Message,
    Message,
>)
    requires
        old(reg).wf(),
    ensures
        final(reg).wf(),
        old(reg).no_completed() ==> final(reg).no_completed(),
        old(reg).no_completed() ==> res is Err && *final(reg) == *old(reg),
        !has_key(old(reg).bookings@, payload.booking_id) ==> res is Err && res->Err_0 is NotFound
            && *final(reg) == *old(reg),
        has_key(old(reg).bookings@, payload.booking_id) && !(value_of(
            old(reg).bookings@,
            payload.booking_id,
        ).status is Completed) ==> res is Err && res->Err_0 is Error && *final(reg) == *old(reg),
        has_key(old(reg).bookings@, payload.booking_id) && value_of(
            old(reg).bookings@,
            payload.booking_id,
        ).status is Completed ==> res is Ok && res->Ok_0 is Success && ({
            let b = value_of(old(reg).bookings@, payload.booking_id);
            let i = key_index(old(reg).providers@, b.service_provider_id);
            let p0 = value_of(old(reg).providers@, b.service_provider_id);
            let p1 = final(reg).providers@[i].1;
            &&& final(reg).providers@.len() == old(reg).providers@.len()
            &&& (forall|j: int|
                0 <= j < old(reg).providers@.len() && j != i ==> #[trigger] final(reg).providers@[j]
                    == old(reg).providers@[j])
            &&& final(reg).providers@[i].0 == b.service_provider_id
            &&& p1.reviews@ == p0.reviews@.push(
                (Review {
                    client_id: b.client_id,
                    rating: payload.rating,
                    comment: payload.comment,
                    created_at: now,
                }),
            )
            &&& p1.rating_total as int == p0.rating_total as int + payload.rating
            &&& p1.id == p0.id
            &&& p1.name == p0.name
            &&& p1.service_type == p0.service_type
            &&& p1.contact_info == p0.contact_info
            &&& p1.created_at == p0.created_at
            &&& p1.availability@ == p0.availability@
            &&& final(reg).bookings == old(reg).bookings
            &&& final(reg).clients == old(reg).clients
            &&& final(reg).counter == old(reg).counter
        }),
{
    let booking = match reg.bookings.get(payload.booking_id) {
        None => {
            return Err(Message::NotFound("Booking not found.".to_owned()));
        },
        Some(b) => b.duplicate(),
    };
    if !(booking.status == BookingStatusEnum::Completed) {
        return Err(Message::Error("Only completed bookings can be reviewed.".to_owned()));
    }
    let review = Review {
        client_id: booking.client_id,
        rating: payload.rating,
        comment: payload.comment,
        created_at: now,
    };
    let ghost prior = *reg;
    match reg.providers.get(booking.service_provider_id) {
        None => {
            // Unreachable under the registry invariant: every booking's
            // provider reference resolves.
            return Ok(Message::Success("Review added.".to_owned()));
        },
        Some(stored) => {
            let mut provider = stored.duplicate();
            proof {
                crate::store::lemma_key_index_is(
                    prior.providers@,
                    booking.service_provider_id,
                    key_index(prior.providers@, booking.service_provider_id),
                );
            }
            provider.push_review(review);
            let provider_id = provider.id;
            proof {
                assert(provider_id == booking.service_provider_id);
            }
            let ghost psnap = provider;
            let _ = reg.providers.insert(provider_id, provider);
            proof {
                let ghost idx = key_index(prior.providers@, provider_id);
                crate::store::lemma_keys_preserved_update(
                    prior.providers@,
                    idx,
                    (provider_id, psnap),
                );
                assert forall|i: int| 0 <= i < reg.bookings@.len() implies has_key(
                    reg.providers@,
                    (#[trigger] reg.bookings@[i]).1.service_provider_id,
                ) by {
                    assert(has_key(prior.providers@, reg.bookings@[i].1.service_provider_id));
                }
            }
        },
    }
    Ok(Message::Success("Review added.".to_owned()))
}

/// Overwrites a stored booking with a version that kept its identifier and
/// provider reference, and shows the registry invariant preserved.
fn update_booking_in_place(reg: &mut Registry, booking_id: u64, booking: Booking)
    requires
        old(reg).wf(),
        has_key(old(reg).bookings@, booking_id),
        booking.id == value_of(old(reg).bookings@, booking_id).id,
        booking.service_provider_id == value_of(
            old(reg).bookings@,
            booking_id,
        ).service_provider_id,
    ensures
        final(reg).wf(),
        !(booking.status is Completed) && old(reg).no_completed() ==> final(reg).no_completed(),
        final(reg).bookings@ == old(reg).bookings@.update(
            key_index(old(reg).bookings@, booking_id),
            (booking_id, booking),
        ),
        final(reg).counter == old(reg).counter,
        final(reg).providers == old(reg).providers,
        final(reg).clients == old(reg).clients,
{
    let ghost prior = *reg;
    let ghost idx = key_index(prior.bookings@, booking_id);
    let _ = reg.bookings.insert(booking_id, booking);
    proof {
        assert forall|i: int| 0 <= i < reg.bookings@.len() implies {
            &&& (#[trigger] reg.bookings@[i]).1.id == reg.bookings@[i].0
            &&& has_key(reg.providers@, reg.bookings@[i].1.service_provider_id)
        } by {
            if i != idx {
                assert(reg.bookings@[i] == prior.bookings@[i]);
            }
            assert(has_key(prior.providers@, reg.bookings@[i].1.service_provider_id));
        }
    }
}

/// Confirmation is idempotent-failing. `confirm_booking`'s contract says a
/// first call on a booking that is not `Confirmed` succeeds and stores the
/// booking with status `Confirmed`; this lemma shows that in the state it
/// leaves behind the same booking is found stored as `Confirmed` — exactly
/// the case in which `confirm_booking` returns `Error`. So a second call on
/// the same booking fails.
pub proof fn lemma_confirm_idempotent_failing(pre: Registry, post: Registry, booking_id: u64)
    requires
        pre.wf(),
        has_key(pre.bookings@, booking_id),
        !(value_of(pre.bookings@, booking_id).status is Confirmed),
        post.bookings@ == pre.bookings@.update(
            key_index(pre.bookings@, booking_id),
            (
                booking_id,
                (Booking {
                    status: BookingStatusEnum::Confirmed,
                    ..value_of(pre.bookings@, booking_id)
                }),
            ),
        ),
    ensures
        has_key(post.bookings@, booking_id),
        value_of(post.bookings@, booking_id).status is Confirmed,
{
    let idx = key_index(pre.bookings@, booking_id);
    assert(0 <= idx < pre.bookings@.len() && pre.bookings@[idx].0 == booking_id);
    crate::store::lemma_keys_preserved_update(
        pre.bookings@,
        idx,
        (
            booking_id,
            (Booking { status: BookingStatusEnum::Confirmed, ..value_of(pre.bookings@, booking_id) }),
        ),
    );
    assert(post.bookings@[idx].0 == booking_id);
    crate::store::lemma_key_index_is(post.bookings@, booking_id, idx);
}

/// A provider matches a search when the query occurs in its name, service
/// type or contact info, and the filter, when given, occurs in its service
/// type.
pub open spec fn provider_matches(p: ServiceProvider, query: Seq<char>, filter: Option<
    String,
>) -> bool {
    &&& (contains_seq(p.name@, query) || contains_seq(p.service_type@, query) || contains_seq(
        p.contact_info@,
        query,
    ))
    &&& (filter matches Some(f) ==> contains_seq(p.service_type@, f@))
}

/// The matching providers of a store walk, in key order, as mathematical
/// provider values.
pub open spec fn matching_providers(
    s: Seq<(u64, ServiceProvider)>,
    query: Seq<char>,
    filter: Option<String>,
) -> Seq<crate::model::ProviderView>
    decreases s.len(),
{
    if s.len() == 0 {
        Seq::empty()
    } else {
        let rest = matching_providers(s.drop_last(), query, filter);
        if provider_matches(s.last().1, query, filter) {
            rest.push(s.last().1@)
        } else {
            rest
        }
    }
}

/// Linear scan over all providers in key order: keeps those the query and
/// filter match, `NotFound` when none does.
pub fn search_service_providers(reg: &Registry, query: String, filter: Option<String>) -> (res:
    Result<Vec<ServiceProvider>, Message>)
    ensures
        res is Ok <==> matching_providers(reg.providers@, query@, filter).len() != 0,
        res is Err ==> res->Err_0 is NotFound,
        res is Ok ==> res->Ok_0@.map_values(|p: ServiceProvider| p@) == matching_providers(
            reg.providers@,
            query@,
            filter,
        ),
{
    let mut out: Vec<ServiceProvider> = Vec::new();
    let n = reg.providers.len();
    let mut i: usize = 0;
    while i < n
        invariant
            n == reg.providers@.len(),
            i <= n,
            out@.map_values(|p: ServiceProvider| p@) == matching_providers(
                reg.providers@.subrange(0, i as int),
                query@,
                filter,
            ),
        decreases n - i,
    {
        let entry = reg.providers.entry_at(i);
        let hit = str_contains(entry.1.name.as_str(), query.as_str()) || str_contains(
            entry.1.service_type.as_str(),
            query.as_str(),
        ) || str_contains(entry.1.contact_info.as_str(), query.as_str());
        let kept = hit && (match &filter {
            Some(f) => str_contains(entry.1.service_type.as_str(), f.as_str()),
            None => true,
        });
        let ghost out_before = out@;
        if kept {
            out.push(entry.1.duplicate());
        }
        i = i + 1;
        proof {
            let pre = reg.providers@.subrange(0, i - 1);
            let cur = reg.providers@.subrange(0, i as int);
            assert(cur.drop_last() =~= pre);
            assert(cur.last() == reg.providers@[i - 1]);
            if kept {
                assert(out@.map_values(|p: ServiceProvider| p@) =~= out_before.map_values(
                    |p: ServiceProvider| p@,
                ).push(reg.providers@[i - 1].1@));
            }
        }
    }
    proof {
        assert(reg.providers@.subrange(0, n as int) =~= reg.providers@);
    }
    if out.is_empty() {
        proof {
            assert(matching_providers(reg.providers@, query@, filter).len() == out@.map_values(
                |p: ServiceProvider| p@,
            ).len());
        }
        Err(Message::NotFound("No service providers found".to_owned()))
    } else {
        Ok(out)
    }
}

/// The bookings that name the client, in key order.
pub open spec fn bookings_of_client(s: Seq<(u64, Booking)>, client_id: u64) -> Seq<Booking>
    decreases s.len(),
{
    if s.len() == 0 {
        Seq::empty()
    } else {
        let rest = bookings_of_client(s.drop_last(), client_id);
        if s.last().1.client_id == client_id {
            rest.push(s.last().1)
        } else {
            rest
        }
    }
}

/// The bookings that name the provider, in key order.
pub open spec fn bookings_of_provider(s: Seq<(u64, Booking)>, provider_id: u64) -> Seq<Booking>
    decreases s.len(),
{
    if s.len() == 0 {
        Seq::empty()
    } else {
        let rest = bookings_of_provider(s.drop_last(), provider_id);
        if s.last().1.service_provider_id == provider_id {
            rest.push(s.last().1)
        } else {
            rest
        }
    }
}

/// All bookings of one client, in key order; `NotFound` when there is none.
pub fn get_client_bookings(reg: &Registry, client_id: u64) -> (res: Result<Vec<Booking>, Message>)
    ensures
        res is Ok <==> bookings_of_client(reg.bookings@, client_id).len() != 0,
        res is Err ==> res->Err_0 is NotFound,
        res is Ok ==> res->Ok_0@ == bookings_of_client(reg.bookings@, client_id),
{
    let mut out: Vec<Booking> = Vec::new();
    let n = reg.bookings.len();
    let mut i: usize = 0;
    while i < n
        invariant
            n == reg.bookings@.len(),
            i <= n,
            out@ == bookings_of_client(reg.bookings@.subrange(0, i as int), client_id),
        decreases n - i,
    {
        let entry = reg.bookings.entry_at(i);
        if entry.1.client_id == client_id {
            out.push(entry.1.duplicate());
        }
        i = i + 1;
        proof {
            let pre = reg.bookings@.subrange(0, i - 1);
            let cur = reg.bookings@.subrange(0, i as int);
            assert(cur.drop_last() =~= pre);
            assert(cur.last() == reg.bookings@[i - 1]);
        }
    }
    proof {
        assert(reg.bookings@.subrange(0, n as int) =~= reg.bookings@);
    }
    if out.is_empty() {
        Err(Message::NotFound("No bookings found for this client.".to_owned()))
    } else {
        Ok(out)
    }
}

/// All bookings of one provider, in key order; `NotFound` when there is
/// none.
pub fn get_service_provider_history(reg: &Registry, service_provider_id: u64) -> (res: Result<
    Vec<Booking>,
    Message,
>)
    ensures
        res is Ok <==> bookings_of_provider(reg.bookings@, service_provider_id).len() != 0,
        res is Err ==> res->Err_0 is NotFound,
        res is Ok ==> res->Ok_0@ == bookings_of_provider(reg.bookings@, service_provider_id),
{
    let mut out: Vec<Booking> = Vec::new();
    let n = reg.bookings.len();
    let mut i: usize = 0;
    while i < n
        invariant
            n == reg.bookings@.len(),
            i <= n,
            out@ == bookings_of_provider(reg.bookings@.subrange(0, i as int), service_provider_id),
        decreases n - i,
    {
        let entry = reg.bookings.entry_at(i);
        if entry.1.service_provider_id == service_provider_id {
            out.push(entry.1.duplicate());
        }
        i = i + 1;
        proof {
            let pre = reg.bookings@.subrange(0, i - 1);
            let cur = reg.bookings@.subrange(0, i as int);
            assert(cur.drop_last() =~= pre);
            assert(cur.last() == reg.bookings@[i - 1]);
        }
    }
    proof {
        assert(reg.bookings@.subrange(0, n as int) =~= reg.bookings@);
    }
    if out.is_empty() {
        Err(Message::NotFound("No bookings found for this service provider.".to_owned()))
    } else {
        Ok(out)
    }
}

} // verus!
