//! Discovery of annotated declarations in a tree of nested namespaces.
//!
//! A caller hands over the declarations of each source file together with the
//! namespace path that the file stands for. The library walks the nested
//! namespaces, classifies every function, data type and implementation block
//! by its marker annotations, and returns three ordered collections of fully
//! qualified paths: operations, models and responses.
//!
//! - [`syntax`] holds the declarations as discovery reads them, [`marker`]
//!   the names of markers and the configuration, [`path`] the qualified
//!   paths, and [`entry`] what discovery produces.
//! - [`classify`] decides what one declaration contributes, [`composite`]
//!   reads annotations that list several marker names, [`walk`] descends
//!   through nested namespaces, and [`discover`] runs over all files and folds
//!   the entries into the three collections.
//! - [`reading`] holds what the parser made of the lists of composite
//!   annotations. Nothing is known of the parser beforehand, so every
//!   contract that depends on it speaks of some reading, and every law of all
//!   readings.
//! - [`laws`] and [`nesting`] state and prove what holds of all inputs.
//!
//! Every function is verified against its contract, but for the one call into
//! `syn` that parses the list of a composite annotation.

pub mod classify;
pub mod composite;
pub mod discover;
pub mod entry;
pub mod laws;
pub mod marker;
pub mod nesting;
pub mod path;
pub mod reading;
pub mod syntax;
pub mod text;
pub mod walk;
