//! What the operations are for, said of their results alone: each law holds of every input, and
//! speaks of characters, sequences and texts rather than of the definitions that the contracts use.
pub mod strings;
pub mod options;
pub mod attributes;
pub mod urls;
pub mod arns;
pub mod names;
pub mod regions;
pub mod pages;
pub mod commands;
pub mod services;
pub mod tables;
pub mod globs;
pub mod answers;
pub mod calls;
pub mod runs;
pub mod basics;
pub mod hosts;
