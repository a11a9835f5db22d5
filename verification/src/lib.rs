pub mod text;
pub mod color;
pub mod util;
pub mod ascii;
pub mod config;
pub mod module;
pub mod modules;
pub mod package_managers;
pub mod process_info;
pub mod versions;
pub mod gtk;
pub mod fetch;
pub mod segment;
pub mod syscalls;
