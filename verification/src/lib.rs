//! Library for talking to SupMCU satellite subsystem modules over a shared
//! byte-oriented bus: a binary telemetry codec driven by runtime format
//! strings, a framed command/response engine with retry-on-not-ready, a
//! schema-free discovery protocol, and catalog-level helpers.
//!
//! All protocol decisions are made by verified functions on plain values;
//! the physical transport, timers and persistence are left to the caller.

use vstd::prelude::*;

pub mod cli;
pub mod supmcu;

verus! {

use crate::supmcu::parsing::{SupMCUValue, TelemetryType};

/// Errors surfaced by module and catalog operations.
#[derive(Debug)]
pub enum SupMCUError {
    /// A general I/O failure, described by the caller.
    IoError(String),
    /// The transport device could not be opened (device path, address, description).
    I2CDevError(String, u16, String),
    /// A command write to the bus failed (address, description).
    I2CCommandError(u16, String),
    /// A telemetry read from the bus failed (address, description).
    I2CTelemetryError(u16, String),
    /// The response bytes could not be decoded.
    ParsingError(ParsingError),
    /// No telemetry item exists with the given kind and index.
    TelemetryIndexError(TelemetryType, usize),
    /// The module answered with the ready flag clear (address, last command sent).
    NonReadyError(u16, String),
    /// The response footer did not match the checksum of the preceding bytes.
    ValidationError,
    /// The operation needs a module definition that has not been discovered or loaded.
    MissingDefinitionError,
    /// A concurrent unit of work failed outside the protocol, described by the caller.
    AsyncError(String),
    /// Serialized definitions could not be read or written, described by the caller.
    JSONError(String),
    /// No module matches the given definition (name, address).
    ModuleNotFound(String, u16),
    /// A response held a value of an unexpected shape (description, value).
    UnexpectedValue(String, SupMCUValue),
    /// No telemetry item has the given name.
    UnknownTelemName(String),
}

/// Errors raised while decoding raw bytes or protocol strings.
#[derive(Debug)]
pub enum ParsingError {
    /// The bytes are truncated or missing a required terminator.
    InvalidBytes(String),
    /// The format does not fit the bytes it was applied to.
    InvalidFormatString(String, Vec<u8>),
    /// A format string character is not a recognized tag.
    InvalidFormatCharacter(char),
    /// A fixed-width field could not be read.
    ByteParsingError(String),
    /// A string payload is not valid UTF-8.
    StringParsingError,
    /// A firmware version string held no command name.
    VersionParsingError(String),
    /// A command response could not be interpreted.
    CommandParsingError(String),
    /// The MCU identifier byte names no known MCU.
    McuIdParsingError(u8),
}

} // verus!
