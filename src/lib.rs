//! Authentication and authorization core: password hashing and policy,
//! signed bearer tokens, the login and registration flows, and the
//! access check that admits a request only with a valid access token.

pub mod errors;
pub mod auth;
pub mod codec;
pub mod jwt;
pub mod middleware;
pub mod pagination;
pub mod password;
pub mod register;
pub mod user;
pub mod validator;
mod text;
