pub mod client;
pub mod cookie;
pub mod html;
pub mod model;
pub mod sign;
