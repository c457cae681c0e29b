//! Audits a source tree for test-coverage annotations.
//!
//! Every function declaration is expected to carry, on the line directly
//! above it, exactly one of the recognized annotation markers.  The library
//! scans file contents line by line, stops at the first test-module marker,
//! tallies annotation usage per file, and reports the declarations that lack
//! a label.  Reading the tree and printing the report are left to the caller.

pub mod color;
pub mod labels;
pub mod report;
pub mod scanner;
pub mod text;
