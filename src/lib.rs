//! Materialises service bindings (directories of typed configuration files)
//! and the dependency-mapping binding that mirrors a buildpack's dependencies.
//!
//! The crate decides; the caller performs the filesystem and network work
//! that the decisions describe.
pub mod binding;
pub mod command;
pub mod confirm;
pub mod deps;
pub mod fetch;
pub mod manifest;
pub mod store_laws;
pub mod text;

pub use binding::{
    BindingError, BindingErrorKind, BindingOp, BindingProcessor, BindingWriter, Progress,
};
pub use command::{
    AddCommandHandler, ArgsCommandHandler, CaCertsCommandHandler, Command,
    DeleteCommandHandler, DependencyMappingCommandHandler, BT,
};
pub use confirm::BindingConfirmers;
pub use deps::{Dependency, DependencyError, DependencyErrorKind};
pub use fetch::{FetchAction, FetchConfig, FetchError, FetchErrorKind, FetchQueue};
pub use manifest::{ManifestError, ManifestErrorKind, TomlValue};
