//! Probing of web-mail authentication front-ends: recognising how a target
//! authenticates, learning its domain from an NTLM challenge, and classifying
//! the outcome of login attempts.

pub mod text;
pub mod color;
pub mod ntlm;
pub mod owa;
pub mod sink;
