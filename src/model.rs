//! The account's entities as the client sees them. Money is held in
//! hundredths of the currency unit.

use vstd::prelude::*;

use std::collections::HashMap;

verus! {

/// Everything the account snapshot holds for a signed-in owner.
#[derive(Clone, Debug)]
pub struct AuthData {
    pub username: String,
    pub password: String,
    pub roles: Roles,
    pub company: Company,
    pub bookings: Option<Vec<Booking>>,
}

/// The people of the company, by role.
#[derive(Clone, Debug)]
pub struct Roles {
    pub owner: Vec<Person>,
    pub admin: Option<Vec<Person>>,
    pub staff: Option<Vec<Person>>,
    pub customer: Option<Vec<Customer>>,
    pub address: Option<Address>,
}

/// An ad-hoc charge line of a checkout. `value` is in hundredths.
#[derive(Clone, Debug)]
pub struct Auxiliary {
    pub name: Option<String>,
    pub value: Option<i64>,
    pub description: Option<String>,
    pub kind: Option<String>,
    pub increment: Option<bool>,
    pub decrement: Option<bool>,
}

#[derive(Clone, Debug)]
pub struct Person {
    pub id: String,
    pub personal_information: PersonalInfo,
    pub profile_image: Option<Image>,
    pub contact_method: Option<Vec<ContactMethod>>,
    pub address: Option<Address>,
}

#[derive(Clone, Debug)]
pub struct Customer {
    pub id: String,
    pub personal_information: PersonalInfo,
    pub notes: Option<String>,
    pub profile_image: Option<Image>,
    pub contact_method: Option<Vec<ContactMethod>>,
    pub address: Option<Address>,
}

#[derive(Clone, Debug)]
pub struct Address {
    pub street: Option<String>,
    pub city: Option<String>,
    pub state: Option<String>,
    pub postal_code: Option<String>,
    pub country: Option<String>,
}

#[derive(Clone, Debug)]
pub struct PersonalInfo {
    pub first_name: String,
    pub last_name: String,
    pub date_of_birth: Option<String>,
    pub gender: Option<String>,
}

#[derive(Clone, Debug)]
pub struct Image {
    pub id: String,
    pub kind: Option<String>,
    pub path: Option<String>,
}

#[derive(Clone, Debug)]
pub struct ContactMethod {
    pub id: String,
    pub kind: String,
    pub value: String,
    pub is_primary: bool,
}

#[derive(Clone, Debug)]
pub struct Company {
    pub id: String,
    pub name: String,
    pub description: String,
    pub logo: Option<Image>,
    pub profile: Option<Image>,
    pub currency: Currency,
    pub timetable: Vec<Timetable>,
    pub services_by_catalogue: Option<Vec<ServiceCatalogue>>,
    pub contact_method: Option<Vec<ContactMethod>>,
    /// Campaigns grouped under a name.
    pub campaigns: Option<HashMap<String, Vec<Campaign>>>,
    pub financial: Option<Financial>,
}

/// Revenue figures of the company. Revenue is in hundredths.
#[derive(Clone, Debug)]
pub struct Financial {
    pub daily: DailyData,
    pub weekly: PeriodData,
    pub monthly: PeriodData,
}

#[derive(Clone, Debug)]
pub struct DailyData {
    pub total_revenue: i64,
    pub total_count: i32,
    pub most_used_payment_method: Option<String>,
    pub most_used_service: Option<String>,
    pub new_customer: Option<i32>,
}

#[derive(Clone, Debug)]
pub struct PeriodData {
    pub total_revenue: i64,
    pub total_count: i32,
    pub breakdown: Option<Vec<BreakdownData>>,
}

#[derive(Clone, Debug)]
pub struct BreakdownData {
    pub date_full: Option<String>,
    pub month: Option<String>,
    pub total_revenue: i64,
    pub total_count: i32,
    pub most_used_payment_method: Option<String>,
    pub most_used_service: Option<String>,
    pub new_customer: i32,
}

#[derive(Clone, Debug)]
pub struct Campaign {
    pub id: String,
    pub name: String,
    pub description: String,
    pub trigger_frequency: i32,
    pub message_template: String,
    pub active: bool,
    pub kind: String,
    pub features: Option<Vec<Feature>>,
}

#[derive(Clone, Debug)]
pub struct Feature {
    pub feature_id: String,
    pub feature_name: String,
    pub feature_description: String,
    pub feature_cap: i32,
    pub usage: i32,
}

#[derive(Clone, Debug)]
pub struct Currency {
    pub id: String,
    pub code: String,
    pub symbol: String,
}

#[derive(Clone, Debug)]
pub struct Timetable {
    pub id: String,
    pub company_id: String,
    pub day_of_week: i32,
    pub start_time: String,
    pub end_time: String,
    pub timezone: String,
}

#[derive(Clone, Debug)]
pub struct ServiceCatalogue {
    pub catalogue: Option<Catalogue>,
    pub services: Option<Vec<Service>>,
}

#[derive(Clone, Debug)]
pub struct Catalogue {
    pub id: String,
    pub name: String,
}

/// A service offered. `price` is in hundredths.
#[derive(Clone, Debug)]
pub struct Service {
    pub id: String,
    pub name: String,
    pub description: Option<String>,
    pub duration: String,
    pub price: i64,
}

#[derive(Clone, Debug)]
pub struct BookingResponse {
    pub booking: Booking,
}

#[derive(Clone, Debug)]
pub struct Booking {
    pub id: String,
    pub customer: Customer,
    pub staff: Option<Person>,
    pub services: Option<Vec<Service>>,
    pub status: Status,
    pub start_time: String,
    pub end_time: String,
}

#[derive(Clone, Debug)]
pub struct Status {
    pub id: String,
    pub name: String,
    pub description: Option<String>,
    pub created_at: String,
}

} // verus!
