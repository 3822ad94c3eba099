//! Birthday greetings: pick the contacts whose birthday falls on a given day
//! and hand a greeting for each of them to a set of delivery channels.
pub mod announcer;
pub mod calendar;
pub mod delivery_log;
pub mod email;
pub mod friends;
pub mod greeter_service;
pub mod greetings;
pub mod message;
pub mod roster;
pub mod sms;
