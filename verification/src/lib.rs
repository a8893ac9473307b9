//! Verified core of a global DNS propagation checker: classifying what a
//! resolver answered, normalising answer sets, and deciding what the
//! terminal view shows for each resolver and for the round as a whole.

pub mod text;
pub mod answer_set;
pub mod dns;
pub mod view;
