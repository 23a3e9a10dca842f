pub mod text;
pub mod args;
pub mod pi;
pub mod tools;
pub mod transcript;
pub mod render;
pub mod session;
pub mod laws;
