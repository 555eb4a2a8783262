//! Weather report logic: the API key store's decisions, the request URL with
//! its percent-encoded city and key, clock times and the fixed eight-line
//! report.
//!
//! Nothing here reads a file, the keyboard or the network. An application
//! obtains the API key by doing what [`keystore`] asks of it, fetches the URL
//! that [`request`] gives, accepts the answer with [`response`] and prints
//! what [`report`] renders.

pub mod clock;
pub mod keystore;
pub mod percent;
pub mod report;
pub mod request;
pub mod response;
pub mod text;
