//! Provenance manifest chain engine: builds manifests that describe how a
//! media asset was produced or modified, links them into a parent-child
//! lineage, and judges a manifest store when it is read back.
//!
//! The engine works on plain values. Signing, embedding and loading are
//! done by outside collaborators, which a driver calls as the engine
//! tells it to.
//!
//! - [`assertion`], [`metadata`], [`ingredient`]: the data that a
//!   manifest is made of.
//! - [`manifest`], [`chain`]: building manifests, and linking an edit to
//!   the manifest it supersedes.
//! - [`store`], [`assembly`], [`resolver`]: the manifests embedded in
//!   one asset, their order, and what loading an asset found.
//! - [`engine`]: the operations create, edit, read and active.
//! - [`dispatch`]: the order in which a manifest is signed and embedded.
//! - [`lineage`]: what holds of a store as manifests are embedded in it.
//! - [`session`], [`naming`], [`clock`], [`text`], [`error`]: planning
//!   one run of the tool, naming destinations, instants, and failures.

pub mod assembly;
pub mod assertion;
pub mod chain;
pub mod clock;
pub mod dispatch;
pub mod engine;
pub mod error;
pub mod ingredient;
pub mod lineage;
pub mod manifest;
pub mod metadata;
pub mod naming;
pub mod resolver;
pub mod session;
pub mod store;
pub mod text;
