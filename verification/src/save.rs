//! The decisions of the writer.
//!
//! The writer receives chunks from the fetch loop and writes each as a file
//! of its own. The files are numbered from 0 in the order of the chunks. A
//! chunk without records tells the writer to stop.

use crate::text::{decimal_digits, decimal_text};
use serde_json::Value;
use vstd::prelude::*;
use vstd::string::StringExecFns;

verus! {

/// The name of the file of a number: the number in decimal between a fixed
/// front and the ending of Parquet files.
pub open spec fn file_name_of(counter: nat) -> Seq<char> {
    "my_dataframe_"@ + decimal_digits(counter) + ".parquet"@
}

/// The name of the file that the chunk of a number is written to.
pub fn chunk_file_name(counter: usize) -> (name: String)
    ensures
        name@ == file_name_of(counter as nat),
{
    let number: String = decimal_text(counter as u64);
    String::from_str("my_dataframe_").concat(number.as_str()).concat(".parquet")
}

/// What the writer does with a chunk it has received.
#[derive(Debug, PartialEq, Eq, Clone, Copy, Structural)]
pub enum WriteStep {
    /// Write the chunk as the file of this number.
    Save(usize),
    /// Stop: the stream has ended.
    Stop,
}

/// The state of the writer: the number of the next file.
#[derive(Debug, PartialEq, Eq, Clone, Copy, Structural)]
pub struct Writer {
    pub counter: usize,
}

impl Writer {
    /// A writer that has written nothing yet.
    pub fn new() -> (writer: Writer)
        ensures
            writer.counter == 0,
    {
        Writer { counter: 0 }
    }

    /// Takes a chunk from the fetch loop and says what to do with it. A chunk
    /// with records is saved under the next number, which is then used up.
    pub fn receive(&mut self, chunk: &Vec<Value>) -> (step: WriteStep)
        requires
            old(self).counter < usize::MAX,
        ensures
            chunk@.len() == 0 ==> step == WriteStep::Stop && final(self).counter == old(
                self,
            ).counter,
            chunk@.len() > 0 ==> step == WriteStep::Save(old(self).counter) && final(self).counter
                == old(self).counter + 1,
    {
        if chunk.len() == 0 {
            WriteStep::Stop
        } else {
            let number: usize = self.counter;
            self.counter = number + 1;
            WriteStep::Save(number)
        }
    }
}

} // verus!
