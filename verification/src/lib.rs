//! A file-based package registry: the sharded index, the append-only ledger of
//! published versions, and the protocol that packages one unit without leaving
//! its source tree changed.

pub mod checksum;
pub mod config;
pub mod dirty;
pub mod index;
pub mod layout;
pub mod manifest;
pub mod package;
pub mod publish;
pub mod safety;
pub mod text;
pub mod tree;
pub mod workspace;

pub use config::{ConfigError, IndexConfig};
pub use dirty::{check_dirty, DirtyTreeError};
pub use index::{Dependency, IndexMeta, ParseError};
pub use layout::{pkg_path, Registry};
pub use manifest::{edit_manifest, Manifest, ManifestError};
pub use package::{DependencyKind, Feature, Package, PackageDependency, Target};
pub use publish::{Action, Event, Flow, Job, Next, Outcome, Phase, PublishError, Skip};
