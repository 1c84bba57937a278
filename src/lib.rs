//! Static analysis of file-system routed HTTP endpoints, plus the
//! production-readiness checks of the monorepo command line tool.

pub mod text;
pub mod url_path;
pub mod exports;
pub mod patterns;
pub mod analysis;
pub mod report;
pub mod env_keys;
pub mod checks;
pub mod repo;
pub mod file_tree;
