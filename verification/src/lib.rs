//! The core of a command-line dictionary client.
//!
//! The client looks a word up at a remote dictionary service and shows what
//! comes back, grouped by headword. This library is everything of it that
//! decides something; reading the command line, sending requests, printing
//! and playing sound are left to the program around it.
//!
//! - [`parser`] turns the command line's tokens into a request descriptor.
//! - [`descriptor`] holds the descriptor and the values its options range
//!   over.
//! - [`dispatch`] builds the remote calls and orders them: definitions,
//!   pronunciation, and the audio clip where one is asked for.
//! - [`decode`] reads the service's answers.
//! - [`aggregate`] groups the decoded records by headword.
//! - [`present`] lays the groups out as styled text and resolves the
//!   emphasis markers in their glosses.
//! - [`text`] and [`decimal`] hold the helpers on characters and numbers
//!   that the others share.

pub mod aggregate;
pub mod decimal;
pub mod decode;
pub mod descriptor;
pub mod dispatch;
pub mod parser;
pub mod present;
pub mod text;
