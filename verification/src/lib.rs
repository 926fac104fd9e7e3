pub mod text;
pub mod release;
pub mod oauth;
pub mod order;
pub mod plugins;
