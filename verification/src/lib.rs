pub mod text;
pub mod domain;
pub mod git;
pub mod app;
pub mod laws;
pub mod json;
pub mod herdr;
pub mod github;
pub mod screen;
pub mod launch;
