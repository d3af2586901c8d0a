//! A token-exchange proxy for the OAuth authorization-code flow: the
//! decisions it takes on each request, as verified functions.
pub mod json;
pub mod reply;
pub mod form;
pub mod exchange;
