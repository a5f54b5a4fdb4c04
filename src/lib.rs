//! Conversion of dynamically typed table values into delimited text, the
//! intermediate form from which a columnar file is written.
mod command;
mod delimited;
mod output;
mod render;
mod schema;
mod text;
mod value;
mod writer;

pub use command::ToParquet;
pub use delimited::to_delimited_text;
pub use output::{output_path, DEFAULT_OUTPUT, SAVED_MESSAGE};
pub use render::{
    from_value_to_delimited_string, render_rows, to_string_tagged_value, RenderError,
};
pub use schema::merge_descriptors;
pub use value::{DynamicValue, Span};
pub use writer::{advance, first_step, StepOutcome, WriteAction, WriteError, WriteStep};
