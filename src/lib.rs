pub mod path_match;
pub mod walker;
pub mod findings;
pub mod trace;
pub mod analysis;
pub mod decode;
pub mod pipeline;
pub mod session;
pub mod forward;
pub mod sensitive;
