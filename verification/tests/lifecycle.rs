//! Booking lifecycle: creation, confirmation, cancellation, rescheduling.

use service_booking::model::{BookingPayload, Message, ServiceProviderPayload};
use service_booking::ops::{
    cancel_booking, confirm_booking, create_booking, create_service_provider, reschedule_booking,
};
use service_booking::registry::Registry;

fn provider_payload(name: &str, service_type: &str, contact: &str, dates: &[u64]) -> ServiceProviderPayload {
    ServiceProviderPayload {
        name: name.to_owned(),
        service_type: service_type.to_owned(),
        contact_info: contact.to_owned(),
        availability: dates.to_vec(),
    }
}

fn booking_payload(provider: u64, client: u64, date: u64) -> BookingPayload {
    BookingPayload {
        service_provider_id: provider,
        client_id: client,
        service_date: date,
        service_type: "cleaning".to_owned(),
    }
}

/// A registry with one provider (id 1, availability {100, 200}) and one
/// pending booking (id 2, client 5, date 100).
fn seeded() -> Registry {
    let mut reg = Registry::new();
    create_service_provider(&mut reg, provider_payload("Alice", "cleaning", "a@x.com", &[100, 200]), 1)
        .ok()
        .unwrap();
    create_booking(&mut reg, booking_payload(1, 5, 100), 2).ok().unwrap();
    reg
}

#[test]
fn scenario_double_booking_allowed() {
    let mut reg = Registry::new();
    let provider = create_service_provider(
        &mut reg,
        provider_payload("Alice", "cleaning", "a@x.com", &[100]),
        1,
    )
    .ok()
    .unwrap();
    assert_eq!(provider.id, 1);
    let (total, count) = provider.average_rating_parts();
    assert_eq!(total, 0);
    assert_eq!(count, 0);

    let first = create_booking(&mut reg, booking_payload(1, 5, 100), 2).ok().unwrap();
    assert_eq!(first.id, 2);
    assert!(matches!(
        first.status,
        service_booking::model::BookingStatusEnum::Pending
    ));

    // No conflict detection: the same provider and date book again.
    let second = create_booking(&mut reg, booking_payload(1, 6, 100), 3).ok().unwrap();
    assert_eq!(second.id, 3);
    assert!(matches!(
        second.status,
        service_booking::model::BookingStatusEnum::Pending
    ));
}

#[test]
fn create_booking_rejects_zero_date() {
    let mut reg = seeded();
    let res = create_booking(&mut reg, booking_payload(1, 5, 0), 9);
    assert!(matches!(res, Err(Message::InvalidPayload(_))));
}

#[test]
fn create_booking_rejects_unknown_provider() {
    let mut reg = seeded();
    let res = create_booking(&mut reg, booking_payload(77, 5, 100), 9);
    assert!(matches!(res, Err(Message::InvalidPayload(_))));
}

#[test]
fn create_booking_rejects_unavailable_date() {
    let mut reg = seeded();
    let res = create_booking(&mut reg, booking_payload(1, 5, 150), 9);
    assert!(matches!(res, Err(Message::Error(_))));
}

#[test]
fn create_booking_succeeds_on_available_date() {
    let mut reg = seeded();
    let booking = create_booking(&mut reg, booking_payload(1, 5, 200), 9).ok().unwrap();
    assert!(matches!(
        booking.status,
        service_booking::model::BookingStatusEnum::Pending
    ));
    assert_eq!(booking.service_date, 200);
}

#[test]
fn confirm_twice_fails_second_time() {
    let mut reg = seeded();
    let first = confirm_booking(&mut reg, 2);
    assert!(matches!(first, Ok(Message::Success(_))));
    let second = confirm_booking(&mut reg, 2);
    assert!(matches!(second, Err(Message::Error(_))));
}

#[test]
fn confirm_missing_booking_not_found() {
    let mut reg = seeded();
    assert!(matches!(confirm_booking(&mut reg, 42), Err(Message::NotFound(_))));
}

#[test]
fn cancel_twice_fails_second_time() {
    let mut reg = seeded();
    assert!(matches!(cancel_booking(&mut reg, 2), Ok(Message::Success(_))));
    assert!(matches!(cancel_booking(&mut reg, 2), Err(Message::Error(_))));
}

#[test]
fn cancel_missing_booking_not_found() {
    let mut reg = seeded();
    assert!(matches!(cancel_booking(&mut reg, 42), Err(Message::NotFound(_))));
}

#[test]
fn confirm_after_cancel_is_allowed() {
    // The stored rules let a canceled booking be confirmed; nothing guards it.
    let mut reg = seeded();
    assert!(matches!(cancel_booking(&mut reg, 2), Ok(Message::Success(_))));
    assert!(matches!(confirm_booking(&mut reg, 2), Ok(Message::Success(_))));
}

#[test]
fn cancel_after_confirm_is_allowed() {
    let mut reg = seeded();
    assert!(matches!(confirm_booking(&mut reg, 2), Ok(Message::Success(_))));
    assert!(matches!(cancel_booking(&mut reg, 2), Ok(Message::Success(_))));
}

#[test]
fn reschedule_pending_to_available_date() {
    let mut reg = seeded();
    assert!(matches!(reschedule_booking(&mut reg, 2, 200), Ok(Message::Success(_))));
    let bookings = service_booking::ops::get_client_bookings(&reg, 5).ok().unwrap();
    assert_eq!(bookings.len(), 1);
    assert_eq!(bookings[0].service_date, 200);
}

#[test]
fn reschedule_rejects_unavailable_date() {
    let mut reg = seeded();
    assert!(matches!(reschedule_booking(&mut reg, 2, 150), Err(Message::Error(_))));
}

#[test]
fn reschedule_missing_booking_not_found() {
    let mut reg = seeded();
    assert!(matches!(reschedule_booking(&mut reg, 42, 200), Err(Message::NotFound(_))));
}

#[test]
fn reschedule_confirmed_fails_even_for_valid_date() {
    let mut reg = seeded();
    confirm_booking(&mut reg, 2).ok().unwrap();
    assert!(matches!(reschedule_booking(&mut reg, 2, 200), Err(Message::Error(_))));
}

#[test]
fn reschedule_canceled_fails_even_for_valid_date() {
    let mut reg = seeded();
    cancel_booking(&mut reg, 2).ok().unwrap();
    assert!(matches!(reschedule_booking(&mut reg, 2, 200), Err(Message::Error(_))));
}
