use vstd::prelude::*;

verus! {

/// The `to parquet` command: it converts its input into a columnar file.
#[derive(Clone, Copy, Debug)]
pub struct ToParquet;

impl ToParquet {
    pub fn name(&self) -> (r: &'static str)
        ensures
            r@ == "to parquet"@,
    {
        "to parquet"
    }

    pub fn usage(&self) -> (r: &'static str)
        ensures
            r@ == "Convert table into a parquet file "@,
    {
        "Convert table into a parquet file "
    }
}

} // verus!
