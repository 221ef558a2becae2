//! Reading and writing of scattering-event records in the HepMC2
//! `IO_GenEvent` text format.
//!
//! The format is a line-oriented ASCII interchange format: each event is a
//! sequence of typed records (`E`, `V`, `P`, `U`, `F`, `H`, `N`, `C`), one per
//! line, framed by `HepMC` banner lines.  The [`Reader`] reconstructs events
//! from such lines, the [`Writer`] renders events back into the exact record
//! grammar.
//!
//! Numeric fields that the format stores as decimal floating-point text are
//! carried verbatim as their token text (see [`event`]).  This keeps every
//! field bit-exact under a read/write round trip; turning the tokens into
//! machine floating-point values is left to the embedding application.

pub mod event;
pub mod laws;
pub mod reader;
pub mod round_trip;
pub mod tokens;
pub mod writer;

pub use crate::event::Event;
pub use crate::reader::Reader;
pub use crate::writer::Writer;
