//! Conversion and validation between typed values and their editable
//! textual representations, for use inside interactive text-entry controls.
//!
//! The [`Formatter`] trait is the core contract: it renders a value as text,
//! converts committed text back into a value, and classifies in-progress
//! edits as acceptable or rejected. A [`Validation`](validation::Validation)
//! is the outcome of such a classification, optionally carrying replacement
//! text and a replacement selection; a
//! [`ValidationError`](error::ValidationError) is the failure taxonomy shared
//! by partial validation and final conversion.
//!
//! [`Formatter`]: formatter::Formatter

pub mod currency;
pub mod decimal;
pub mod error;
pub mod formatter;
pub mod parse_formatter;
pub mod selection;
pub mod validation;

pub use currency::{Cents, CurrencyFormatter};
pub use decimal::ParseError;
pub use error::ValidationError;
pub use formatter::Formatter;
pub use parse_formatter::{ParseFormatter, ParseableValue};
pub use selection::Selection;
pub use validation::Validation;
