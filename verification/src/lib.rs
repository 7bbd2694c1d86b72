//! Request construction and response classification for the CrabiPie HTTP
//! client.
//!
//! The client lets a user set up an HTTP request, sends it, and shows what
//! came back. This library holds what is decided on the way:
//!
//! - `header` reads the free-text header field, and `header_laws` states what
//!   holds of that reading;
//! - `form` encodes form fields into the parts of a multipart body;
//! - `request` builds the request that goes to the transport;
//! - `response` classifies what came back, and `json` pretty-prints it;
//! - `dispatch` follows one exchange with the transport, step by step;
//! - `icon` decodes the text form of the window icon;
//! - `state` is what the window shows and changes.
//!
//! The HTTP types, the multipart form, the JSON values and the base64
//! decoder belong to outside crates. `http_types`, `multipart`, `json` and
//! `icon` state what is taken for granted of them; everything else is proved.

pub mod dispatch;
pub mod form;
pub mod header;
pub mod header_laws;
pub mod http_types;
pub mod icon;
pub mod json;
pub mod multipart;
pub mod request;
pub mod response;
pub mod state;
pub mod text;
