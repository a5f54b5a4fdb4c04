use vstd::prelude::*;

verus! {

/// Where a value came from in the source text, as byte offsets.
#[derive(Debug, Clone, Copy, PartialEq, Eq, Structural)]
pub struct Span {
    pub start: usize,
    pub end: usize,
}

/// A dynamically typed value as the shell hands it over.
///
/// Scalars whose display the host decides (floats, sizes, durations, dates,
/// cell paths, errors and custom values) carry that display text; the
/// converter only chooses which text a cell gets.
pub enum DynamicValue {
    String(String),
    Bool(bool),
    Int(i64),
    /// A float, as the host displays it.
    Float(String),
    /// A length of time, as the host displays it.
    Duration(String),
    /// A size in bytes, as the host displays it.
    Filesize(String),
    Binary(Vec<u8>),
    /// A date in its full calendar form.
    Date(String),
    /// A cell path, as the host displays it.
    CellPath(String),
    /// An error value, as the host displays it.
    Error(String),
    /// A plugin-defined value, as the host displays it.
    Custom(String),
    /// Field names and values, paired by position.
    Record { cols: Vec<String>, vals: Vec<DynamicValue> },
    List(Vec<DynamicValue>),
    Nothing,
    /// Any variant that has no text form here (ranges, closures, globs), with
    /// where it came from.
    Unsupported(Span),
}

} // verus!
