//! Decisions for `no_std` crates promoted to `dylib` by the `cascade-dylib`
//! build mode: detecting a `no_std` prelude in source text, recognising the
//! toolchain's `std` artifacts, and gating the extra link arguments
//! (`--extern force:std=...`, rpaths, native re-exports) per unit.
//!
//! Reading files and directories is left to the caller, which hands the
//! library their contents.
pub mod bytes;
pub mod cascade;
pub mod libstd;
pub mod no_std_scan;
pub mod prelude_laws;

pub use cascade::{
    cascade_needs_native_reexport, cascade_rpath_args, is_no_std, unit_needs_std_link, unit_std_link_gate,
    BuildContext, CompileKind, CrateType, Package, Profile, Target, TargetKind, TargetSourcePath,
    Unit,
};
pub use libstd::{find_libstd_pair, is_dylib_extension, is_libstd_artifact, std_link_args, LibdirEntry};
pub use no_std_scan::{contains_no_std_token, is_ident_byte, scan_for_no_std};
