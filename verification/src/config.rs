pub mod project;
pub mod relative_paths;
pub mod system_paths;
