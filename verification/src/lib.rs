pub mod camera;
pub mod laws;
pub mod light;
pub mod number;
pub mod obj_loader;
pub mod record;
pub mod support;
pub mod tokenizer;
