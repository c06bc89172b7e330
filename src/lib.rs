pub mod direction;
pub mod map;
pub mod instruction;
pub mod bot;
pub mod draw;
pub mod world;
pub mod tick;
pub mod level;
pub mod status;
pub mod text;
pub mod edit;
