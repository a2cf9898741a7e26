//! Randomised "bogosort": searchers shuffle private copies of a sequence until one
//! of them hits the sorted order, and a write-once result slot collects the first
//! success.
pub mod order;
pub mod random;
pub mod searcher;
pub mod race;
