//! What holds of the library as a whole: what its operations are for, said of their inputs and
//! results.

pub mod calls;
pub mod conversations;
pub mod documents;
pub mod drafting;
pub mod finding;
pub mod gates;
pub mod gathering;
pub mod prose;
pub mod recognition;
pub mod texts;
pub mod tiers;
pub mod writing;
