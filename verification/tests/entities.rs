//! Entity creation, identifier allocation, reviews and rating aggregation.

use service_booking::model::{
    BookingStatusEnum, ClientPayload, Message, Review, ReviewPayload, ServiceProviderPayload,
};
use service_booking::ops::{
    add_review, cancel_booking, confirm_booking, create_booking, create_client,
    create_service_provider,
};
use service_booking::registry::Registry;

fn provider_payload(name: &str, dates: &[u64]) -> ServiceProviderPayload {
    ServiceProviderPayload {
        name: name.to_owned(),
        service_type: "cleaning".to_owned(),
        contact_info: "a@x.com".to_owned(),
        availability: dates.to_vec(),
    }
}

#[test]
fn ids_increase_across_entity_kinds() {
    let mut reg = Registry::new();
    let p = create_service_provider(&mut reg, provider_payload("Alice", &[100]), 1).ok().unwrap();
    let c = create_client(
        &mut reg,
        ClientPayload { name: "Bob".to_owned(), contact_info: "b@x.com".to_owned() },
    )
    .ok()
    .unwrap();
    let b = create_booking(
        &mut reg,
        service_booking::model::BookingPayload {
            service_provider_id: p.id,
            client_id: c.id,
            service_date: 100,
            service_type: "cleaning".to_owned(),
        },
        2,
    )
    .ok()
    .unwrap();
    let p2 = create_service_provider(&mut reg, provider_payload("Ann", &[5]), 3).ok().unwrap();
    assert_eq!(p.id, 1);
    assert_eq!(c.id, 2);
    assert_eq!(b.id, 3);
    assert_eq!(p2.id, 4);
}

#[test]
fn provider_creation_rejects_empty_fields() {
    let mut reg = Registry::new();
    let empty_name = ServiceProviderPayload {
        name: String::new(),
        service_type: "cleaning".to_owned(),
        contact_info: "a@x.com".to_owned(),
        availability: vec![100],
    };
    assert!(matches!(
        create_service_provider(&mut reg, empty_name, 1),
        Err(Message::InvalidPayload(_))
    ));
    let empty_type = ServiceProviderPayload {
        name: "Alice".to_owned(),
        service_type: String::new(),
        contact_info: "a@x.com".to_owned(),
        availability: vec![100],
    };
    assert!(matches!(
        create_service_provider(&mut reg, empty_type, 1),
        Err(Message::InvalidPayload(_))
    ));
    let empty_contact = ServiceProviderPayload {
        name: "Alice".to_owned(),
        service_type: "cleaning".to_owned(),
        contact_info: String::new(),
        availability: vec![100],
    };
    assert!(matches!(
        create_service_provider(&mut reg, empty_contact, 1),
        Err(Message::InvalidPayload(_))
    ));
}

#[test]
fn provider_creation_stamps_fields() {
    let mut reg = Registry::new();
    let p = create_service_provider(&mut reg, provider_payload("Alice", &[100, 200]), 77)
        .ok()
        .unwrap();
    assert_eq!(p.name, "Alice");
    assert_eq!(p.service_type, "cleaning");
    assert_eq!(p.contact_info, "a@x.com");
    assert_eq!(p.created_at, 77);
    assert_eq!(p.availability, vec![100, 200]);
    assert!(p.reviews.is_empty());
}

#[test]
fn client_creation_rejects_empty_fields() {
    let mut reg = Registry::new();
    assert!(matches!(
        create_client(
            &mut reg,
            ClientPayload { name: String::new(), contact_info: "b@x.com".to_owned() }
        ),
        Err(Message::InvalidPayload(_))
    ));
    assert!(matches!(
        create_client(
            &mut reg,
            ClientPayload { name: "Bob".to_owned(), contact_info: String::new() }
        ),
        Err(Message::InvalidPayload(_))
    ));
    let c = create_client(
        &mut reg,
        ClientPayload { name: "Bob".to_owned(), contact_info: "b@x.com".to_owned() },
    )
    .ok()
    .unwrap();
    assert_eq!(c.id, 1);
    assert_eq!(c.name, "Bob");
    assert_eq!(c.contact_info, "b@x.com");
}

#[test]
fn review_missing_booking_not_found() {
    let mut reg = Registry::new();
    let res = add_review(
        &mut reg,
        ReviewPayload { booking_id: 9, rating: 4, comment: "fine".to_owned() },
        1,
    );
    assert!(matches!(res, Err(Message::NotFound(_))));
}

#[test]
fn review_never_succeeds_through_operations() {
    // No operation assigns the Completed status, so reviewing fails on every
    // booking whatever sequence of operations ran before.
    let mut reg = Registry::new();
    create_service_provider(&mut reg, provider_payload("Alice", &[100, 200]), 1).ok().unwrap();
    for date in [100, 100, 200] {
        create_booking(
            &mut reg,
            service_booking::model::BookingPayload {
                service_provider_id: 1,
                client_id: 5,
                service_date: date,
                service_type: "cleaning".to_owned(),
            },
            2,
        )
        .ok()
        .unwrap();
    }
    confirm_booking(&mut reg, 2).ok().unwrap();
    cancel_booking(&mut reg, 3).ok().unwrap();
    for booking_id in [2, 3, 4] {
        let res = add_review(
            &mut reg,
            ReviewPayload { booking_id, rating: 4, comment: "fine".to_owned() },
            9,
        );
        assert!(matches!(res, Err(Message::Error(_))));
    }
}

#[test]
fn average_rating_of_four_and_two_is_three() {
    let mut reg = Registry::new();
    let mut provider =
        create_service_provider(&mut reg, provider_payload("Alice", &[100]), 1).ok().unwrap();
    provider.push_review(Review { client_id: 5, rating: 4, comment: "good".to_owned(), created_at: 2 });
    provider.push_review(Review { client_id: 6, rating: 2, comment: "meh".to_owned(), created_at: 3 });
    let (total, count) = provider.average_rating_parts();
    assert_eq!(total, 6);
    assert_eq!(count, 2);
    let average = total as f32 / count as f32;
    assert_eq!(average, 3.0);
}

#[test]
fn rating_total_recomputes_on_each_insertion() {
    let mut reg = Registry::new();
    let mut provider =
        create_service_provider(&mut reg, provider_payload("Alice", &[100]), 1).ok().unwrap();
    let (total0, count0) = provider.average_rating_parts();
    assert_eq!((total0, count0), (0, 0));
    provider.push_review(Review {
        client_id: 5,
        rating: 255,
        comment: "unclamped".to_owned(),
        created_at: 2,
    });
    let (total1, count1) = provider.average_rating_parts();
    assert_eq!((total1, count1), (255, 1));
}

#[test]
fn status_labels() {
    assert_eq!(BookingStatusEnum::Pending.label(), "Pending");
    assert_eq!(BookingStatusEnum::Confirmed.label(), "Confirmed");
    assert_eq!(BookingStatusEnum::Canceled.label(), "Canceled");
    assert_eq!(BookingStatusEnum::Completed.label(), "Completed");
}
