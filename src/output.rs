use vstd::prelude::*;

verus! {

/// The file written when no destination is given.
pub const DEFAULT_OUTPUT: &'static str = "foo.parquet";

/// The message returned once the file has been written.
pub const SAVED_MESSAGE: &'static str = "Saved parquet file";

/// The path the columnar file is written to: the given destination, or else
/// the default file name.
pub fn output_path(file: Option<String>) -> (r: String)
    ensures
        match file {
            Some(f) => r@ == f@,
            None => r@ == DEFAULT_OUTPUT@,
        },
{
    match file {
        Some(f) => f,
        None => String::from_str(DEFAULT_OUTPUT),
    }
}

} // verus!
