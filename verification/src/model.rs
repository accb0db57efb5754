//! The entity records, the request payloads, and the result envelope.

use vstd::prelude::*;

verus! {

/// Lifecycle tag on a booking. `Completed` is checked by the review rule but
/// no operation ever assigns it.
#[derive(Clone, Copy, PartialEq, Eq, Structural, Debug)]
pub enum BookingStatusEnum {
    Pending,
    Confirmed,
    Canceled,
    Completed,
}

impl BookingStatusEnum {
    /// The tag spelled out, for callers that render it.
    pub fn label(&self) -> (r: &'static str)
        ensures
            *self is Pending ==> r@ == "Pending"@,
            *self is Confirmed ==> r@ == "Confirmed"@,
            *self is Canceled ==> r@ == "Canceled"@,
            *self is Completed ==> r@ == "Completed"@,
    {
        match self {
            BookingStatusEnum::Pending => "Pending",
            BookingStatusEnum::Confirmed => "Confirmed",
            BookingStatusEnum::Canceled => "Canceled",
            BookingStatusEnum::Completed => "Completed",
        }
    }
}

/// One review, embedded in the provider it rates.
pub struct Review {
    pub client_id: u64,
    pub rating: u8,
    pub comment: String,
    pub created_at: u64,
}

impl Review {
    pub fn duplicate(&self) -> (r: Self)
        ensures
            r == *self,
    {
        Review {
            client_id: self.client_id,
            rating: self.rating,
            comment: self.comment.clone(),
            created_at: self.created_at,
        }
    }
}

/// Sum of the ratings of a review sequence.
pub open spec fn rating_sum(reviews: Seq<Review>) -> int
    decreases reviews.len(),
{
    if reviews.len() == 0 {
        0
    } else {
        rating_sum(reviews.drop_last()) + reviews.last().rating
    }
}

pub proof fn lemma_rating_sum_bounds(reviews: Seq<Review>)
    ensures
        0 <= rating_sum(reviews) <= 255 * reviews.len(),
    decreases reviews.len(),
{
    if reviews.len() > 0 {
        lemma_rating_sum_bounds(reviews.drop_last());
    }
}

/// A service provider, with its embedded reviews and its set of bookable
/// dates. `rating_total` is the derived sum of all review ratings; the mean
/// rating is `rating_total / reviews.len()`, taken as zero when no reviews
/// exist.
pub struct ServiceProvider {
    pub id: u64,
    pub name: String,
    pub service_type: String,
    pub contact_info: String,
    pub created_at: u64,
    pub rating_total: u128,
    pub reviews: Vec<Review>,
    pub availability: Vec<u64>,
}

/// The mathematical value of a provider: vectors become sequences.
pub struct ProviderView {
    pub id: u64,
    pub name: String,
    pub service_type: String,
    pub contact_info: String,
    pub created_at: u64,
    pub rating_total: u128,
    pub reviews: Seq<Review>,
    pub availability: Seq<u64>,
}

impl View for ServiceProvider {
    type V = ProviderView;

    open spec fn view(&self) -> ProviderView {
        ProviderView {
            id: self.id,
            name: self.name,
            service_type: self.service_type,
            contact_info: self.contact_info,
            created_at: self.created_at,
            rating_total: self.rating_total,
            reviews: self.reviews@,
            availability: self.availability@,
        }
    }
}

impl ServiceProvider {
    /// The stored rating total is exactly the sum of the embedded reviews.
    pub open spec fn wf(&self) -> bool {
        self.rating_total as int == rating_sum(self.reviews@)
    }

    pub fn duplicate(&self) -> (r: Self)
        ensures
            r@ == self@,
    {
        ServiceProvider {
            id: self.id,
            name: self.name.clone(),
            service_type: self.service_type.clone(),
            contact_info: self.contact_info.clone(),
            created_at: self.created_at,
            rating_total: self.rating_total,
            reviews: duplicate_reviews(&self.reviews),
            availability: duplicate_dates(&self.availability),
        }
    }

    /// The mean rating as an exact fraction: the rating total over the
    /// review count. Callers render it as `total / count`, taking zero for
    /// an empty review list.
    pub fn average_rating_parts(&self) -> (r: (u128, usize))
        ensures
            r.0 == self.rating_total,
            r.1 == self.reviews@.len(),
    {
        (self.rating_total, self.reviews.len())
    }

    /// Appends a review and recomputes the rating total from scratch, as the
    /// aggregation rule demands on every insertion.
    pub fn push_review(&mut self, review: Review)
        requires
            old(self).wf(),
        ensures
            final(self).wf(),
            final(self).reviews@ == old(self).reviews@.push(review),
            final(self).rating_total as int == old(self).rating_total + review.rating,
            final(self).id == old(self).id,
            final(self).name == old(self).name,
            final(self).service_type == old(self).service_type,
            final(self).contact_info == old(self).contact_info,
            final(self).created_at == old(self).created_at,
            final(self).availability == old(self).availability,
    {
        self.reviews.push(review);
        let total = sum_ratings(&self.reviews);
        proof {
            assert(self.reviews@.drop_last() =~= old(self).reviews@);
        }
        self.rating_total = total;
    }
}

fn duplicate_reviews(v: &Vec<Review>) -> (r: Vec<Review>)
    ensures
        r@ == v@,
{
    let mut out: Vec<Review> = Vec::new();
    let mut i: usize = 0;
    while i < v.len()
        invariant
            i <= v.len(),
            out@ == v@.subrange(0, i as int),
        decreases v.len() - i,
    {
        out.push(v[i].duplicate());
        i = i + 1;
        proof {
            assert(out@ =~= v@.subrange(0, i as int));
        }
    }
    proof {
        assert(v@.subrange(0, v@.len() as int) =~= v@);
    }
    out
}

fn duplicate_dates(v: &Vec<u64>) -> (r: Vec<u64>)
    ensures
        r@ == v@,
{
    let mut out: Vec<u64> = Vec::new();
    let mut i: usize = 0;
    while i < v.len()
        invariant
            i <= v.len(),
            out@ == v@.subrange(0, i as int),
        decreases v.len() - i,
    {
        out.push(v[i]);
        i = i + 1;
        proof {
            assert(out@ =~= v@.subrange(0, i as int));
        }
    }
    proof {
        assert(v@.subrange(0, v@.len() as int) =~= v@);
    }
    out
}

/// Recomputes the rating total of a review list.
fn sum_ratings(reviews: &Vec<Review>) -> (total: u128)
    ensures
        total as int == rating_sum(reviews@),
{
    let mut total: u128 = 0;
    let mut i: usize = 0;
    proof {
        lemma_rating_sum_bounds(reviews@.subrange(0, 0));
    }
    while i < reviews.len()
        invariant
            i <= reviews.len(),
            total as int == rating_sum(reviews@.subrange(0, i as int)),
            0 <= total as int <= 255 * i,
        decreases reviews.len() - i,
    {
        proof {
            assert(reviews@.subrange(0, i + 1).drop_last() =~= reviews@.subrange(0, i as int));
            assert(reviews@.subrange(0, i + 1).last() == reviews@[i as int]);
        }
        total = total + reviews[i].rating as u128;
        i = i + 1;
    }
    proof {
        assert(reviews@.subrange(0, reviews@.len() as int) =~= reviews@);
    }
    total
}

/// A booking of a provider's date by a client.
pub struct Booking {
    pub id: u64,
    pub service_provider_id: u64,
    pub client_id: u64,
    pub service_date: u64,
    pub service_type: String,
    pub status: BookingStatusEnum,
    pub created_at: u64,
}

impl Booking {
    pub fn duplicate(&self) -> (r: Self)
        ensures
            r == *self,
    {
        Booking {
            id: self.id,
            service_provider_id: self.service_provider_id,
            client_id: self.client_id,
            service_date: self.service_date,
            service_type: self.service_type.clone(),
            status: self.status,
            created_at: self.created_at,
        }
    }
}

/// A client record.
pub struct Client {
    pub id: u64,
    pub name: String,
    pub contact_info: String,
}

impl Client {
    pub fn duplicate(&self) -> (r: Self)
        ensures
            r == *self,
    {
        Client { id: self.id, name: self.name.clone(), contact_info: self.contact_info.clone() }
    }
}

/// Request to create a provider.
pub struct ServiceProviderPayload {
    pub name: String,
    pub service_type: String,
    pub contact_info: String,
    pub availability: Vec<u64>,
}

/// Request to create a booking.
pub struct BookingPayload {
    pub service_provider_id: u64,
    pub client_id: u64,
    pub service_date: u64,
    pub service_type: String,
}

/// Request to create a client.
pub struct ClientPayload {
    pub name: String,
    pub contact_info: String,
}

/// Request to review the provider behind a booking.
pub struct ReviewPayload {
    pub booking_id: u64,
    pub rating: u8,
    pub comment: String,
}

/// The result envelope: a tagged, human-readable message.
pub enum Message {
    Success(String),
    Error(String),
    NotFound(String),
    InvalidPayload(String),
}

} // verus!
