//! Account linking: sign-up requests, the authorisation URL, and what is
//! stored for an account that has linked.

pub mod app;
pub mod redirect;
pub mod signup;
