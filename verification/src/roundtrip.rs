//! Reading back what was written down: the grammar reads the text of a tree
//! as that tree.

pub mod law;
pub mod place;
pub mod reading;
pub mod writing;
