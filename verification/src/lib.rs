//! A personal configuration-templating manager.
//!
//! The crate keeps named profiles of configuration-file templates, renders
//! the active profile's templates by substituting `{#key}` placeholders
//! with color-scheme values and reusable text modules, and models the
//! profile/config tree so that applying and editing profiles cannot
//! corrupt the staged state.

pub mod colors;
pub mod modules;
pub mod pipeline;
pub mod render;
pub mod text;
pub mod tree;

use vstd::prelude::*;

verus! {

/// What can go wrong while loading a color scheme.
#[derive(Clone, Copy, PartialEq, Eq, Structural, Debug)]
pub enum ColorError {
    /// The color-scheme file could not be read at all.
    MissingColorFile,
    /// The file's content is not a flat string-to-string mapping.
    MalformedColorData,
    /// One of the sixteen required keys `base00`..`base0f` is absent.
    IncompleteColorScheme,
}

/// What can go wrong in the config registry.
#[derive(Clone, Copy, PartialEq, Eq, Structural, Debug)]
pub enum RegistryError {
    /// The source file to track does not exist.
    SourceMissing,
    /// The destination already holds a config of that name.
    EntryAlreadyExists,
    /// The named config was found nowhere.
    ConfigNotFound,
}

/// What can go wrong in the profile manager.
#[derive(Clone, Copy, PartialEq, Eq, Structural, Debug)]
pub enum ProfileError {
    /// No profile of the given name exists.
    ProfileNotFound,
    /// A profile of the given name already exists.
    AlreadyExists,
}

} // verus!
