//! The request-translation and response-encoding core of an HTTP front end
//! for a key-value store.  An untyped JSON payload comes in; the core decides
//! single-command versus batch dispatch, normalizes the arguments into
//! ordered string lists, and re-encodes whatever the execution collaborator
//! answered into a canonical envelope, a transport status code, and a JSON
//! body, optionally transcoding string results to base64.  A shared-secret
//! check over the `Authorization` header or a query-string credential guards
//! every route.
//!
//! Normalization follows the strict policy: strings, numbers and booleans
//! map to their canonical text, a null becomes the empty string, and a
//! nested array or object rejects the whole command as `malformed_data`.

pub mod auth;
pub mod command;
pub mod encode;
pub mod envelope;
pub mod json;
pub mod laws;
pub mod text;
