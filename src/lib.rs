pub mod application;
pub mod bridge;
pub mod container;
pub mod control;
pub mod detach;
pub mod draw;
pub mod ids;
pub mod layout;
pub mod lookup;
pub mod splitter;
pub mod utils;
pub mod widgets;
pub mod window;
