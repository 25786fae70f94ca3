//! License resolution for a dependency compliance report.
//!
//! The library decides, for each dependency of an import list, where its
//! license comes from (an operator override or a remote lookup), checks
//! declared SPDX expressions against an allow-list, and decodes license text.
//! Reading files, the network transport and printing are left to the caller.
mod outside;

pub mod coords;
pub mod decode;
pub mod expr;
pub mod license;
pub mod pipeline;
pub mod record;
pub mod text;
