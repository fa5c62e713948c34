//! Build-and-launch helper for bare-metal kernels: the decisions behind
//! packing a kernel into a bootable image and running it in an emulator,
//! optionally as a test with a deadline and an exit-code contract.
//!
//! The crate decides; its caller performs. Processes, files and the clock
//! stay with the caller, which hands plain values in and acts on the plain
//! values that come back:
//!
//! - [`artifacts`] reads the executables off the output of a build,
//! - [`config`] reads the package's configuration out of its manifest, with
//!   [`document`] for the manifest as a TOML document and [`nesting`] for
//!   the depth of its text,
//! - [`image`] names the files of the bootable image,
//! - [`launch`] tells the mode of a launch and puts together the emulator's
//!   arguments,
//! - [`supervisor`] races a test run against its deadline, and
//! - [`report`] turns the end of the run into the invocation's own end.

pub mod artifacts;
pub mod config;
pub mod document;
pub mod image;
pub mod launch;
pub mod nesting;
pub mod report;
pub mod supervisor;
pub mod text;
