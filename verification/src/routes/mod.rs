//! What each HTTP route computes: the status, headers and body of its
//! response, from the request's parameters.

pub mod auth;
pub mod canonical;
pub mod content;
pub mod discovery;
pub mod encoding;
pub mod headers;
pub mod js_render;
pub mod normalize;
pub mod playground;
pub mod redirect;
pub mod response;
pub mod robots;
pub mod status;
