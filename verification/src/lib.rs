//! Signing in to a single-sign-on portal through its login form, and relaying
//! HTTP requests for a user interface.
//!
//! The portal offers no interface for programs, so a sign-in does what a
//! browser would do: it reads the hidden fields of the login form
//! ([`form_fields`]), posts them with the credentials ([`login`]), and reads
//! the identity claim out of the ticket in the redirect that answers
//! ([`ticket`]). What holds of every page is proved in [`form_laws`], what
//! holds of every redirect target in [`ticket_laws`].
//!
//! A request of the user interface is either sent by this process
//! ([`backend`]) or handed back to the user interface, which reports the
//! answer under the identifier of the request ([`proxy`], [`registry`]);
//! [`dispatch`] decides which. The profile of the signed-in user is brought
//! into one shape in [`user_info`].
//!
//! Nothing here reads the network, the clock or the disk: the caller fetches,
//! posts, waits and emits, and hands over what came back.

pub mod backend;
pub mod decimal;
pub mod dispatch;
pub mod form_fields;
pub mod form_laws;
pub mod login;
pub mod proxy;
pub mod registry;
pub mod text;
pub mod ticket;
pub mod ticket_laws;
pub mod user_info;
