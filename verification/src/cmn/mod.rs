pub mod consts;
pub mod extras;
pub mod info;
pub mod laws;
pub mod model;
pub mod offset;
pub mod str_model;
pub mod text;
pub mod utf;
pub mod utils;
