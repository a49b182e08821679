//! A catalog that numbers things the Johnny Decimal way: areas of ten
//! categories, categories of up to a thousand items, each item known by a
//! short code `CC.III` that does not depend on where the item is kept.
//!
//! The catalog itself (`index`), the codes (`item`) and the directory names
//! (`naming`) are plain data with proved rules. The resolvers (`disk`,
//! `github`, `menmos`, brought together in `resolver`) say where an item
//! lives and which physical steps put it there; the client (`client`) joins
//! a change of the catalog with those steps. Nothing here touches a file or
//! a network: every operation returns the steps for its caller to carry
//! out, in the order given.

pub mod client;
pub mod commands;
pub mod config;
pub mod disk;
pub mod error;
pub mod github;
pub mod index;
pub mod item;
pub mod laws;
pub mod location;
pub mod mapping;
pub mod menmos;
pub mod naming;
pub mod report;
pub mod resolver;
pub mod scan;
pub mod slots;
pub mod text;
pub mod upload;
pub mod views;

pub use client::JohnnyDecimal;
pub use config::{Config, ResolverConstraint};
pub use error::Error;
pub use index::{Area, Category, Index};
pub use item::{Item, ID};
pub use location::Location;
pub use resolver::LocationResolver;
