pub mod html;
pub mod text;
pub mod tile;
pub mod world;
pub mod snapshot;
pub mod progression;
pub mod hexmap;
pub mod autopilot;
pub mod timing;
pub mod feedback;
pub mod skill_ui;
pub mod timeline;
