//! Verified core of `gitless-sync`: the decisions that compare a local
//! directory with a GitHub repository tree, stated as contracts and proved.

pub mod error;
pub mod text;
pub mod timestamp;
pub mod compare;
pub mod args;
pub mod long_path;
pub mod size_gate;
pub mod gitattributes;
pub mod lfs;
pub mod graphql;
pub mod github;
pub mod normalize;
pub mod collisions;
pub mod pipeline;
pub mod hash_pass;
pub mod paths;
pub mod init;
pub mod renames;
pub mod report;
pub mod diff;
pub mod laws;
