//! What holds of the library as a whole, said of its inputs and results.

pub mod lines;
pub mod names;
pub mod prompts;
pub mod records;
pub mod searches;
pub mod stored;
pub mod transfers;
pub mod values;
