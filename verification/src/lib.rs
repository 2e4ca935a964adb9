//! Core of a speedrun split timer: the attempt record, the timing state
//! machine with its pace classifier, the split-file framing and the
//! layout arithmetic of the display.
pub mod timer;
pub mod parse;
pub mod layout;
