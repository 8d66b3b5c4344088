pub mod dirs;
pub mod spinners;
pub mod tabwriter;
