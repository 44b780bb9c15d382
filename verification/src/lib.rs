//! Verified core of the FUNKFABRIK*B teletext site.

pub mod calendar;
pub mod guestbook;
pub mod pages;
pub mod text;
pub mod weather;

