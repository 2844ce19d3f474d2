//! The engine of a spelling corrector that works with a remote spelling
//! service.
//!
//! The service finds the issues in a text; this crate decides what is asked
//! of it and applies what it answers. The crate itself neither sends nor
//! reads nor writes: a caller sends each [`OracleRequest`] and hands back
//! the [`OracleReply`].
//!
//! ```text
//! let speller = Speller::new(Config::default());
//! let correction = speller.spell_text("a texxt")?;
//! let reply = /* send correction.request(), receive */;
//! let text = correction.finish(reply)?;
//! ```

pub mod batch;
pub mod config;
pub mod correction;
pub mod diagnostic;
pub mod error;
pub mod language;
pub mod oracle;
pub mod speller;
pub mod text;

pub use batch::{BatchReport, FileOutcome, FileReport, FileStep, Found};
pub use config::{create_config, Config};
pub use diagnostic::{SpellResult, SpellResults};
pub use error::SpellerError;
pub use language::{Language, Languages};
pub use oracle::{OracleReply, OracleRequest};
pub use speller::{Correction, Page, Speller};
