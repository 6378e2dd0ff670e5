//! Dated-backup synchronization: the decisions that reconcile a source tree with a
//! destination, planned from what was read on disk before anything is changed; dated
//! names; a log-rotation state machine; and writers of Ninja build files.

pub mod paths;
pub mod dated;
pub mod partial;
pub mod backup;
pub mod dated_copy;
pub mod renamer;
pub mod ninja_writer;
pub mod ninja_dump;
pub mod ninja;
pub mod workspace_rules;
pub mod workspace_builds;
