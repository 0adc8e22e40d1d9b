pub mod calendar;
pub mod mail;
pub mod message;
pub mod team;
pub mod user;
