//! Signed compact tokens in the JSON Web Signature model: headers and claims
//! with reserved and extension fields, HMAC and RSA signatures, and the
//! three-segment base64url wire format, with their behaviour proved by Verus.

pub mod algorithm;
pub mod claims;
pub mod error;
pub mod field_bag;
pub mod json;
pub mod jws;
pub mod jws_header;
pub mod signing;
pub mod text;
