pub mod dmx;
pub mod fixture_manager;
pub mod paths;
pub mod pie;
pub mod project;
pub mod render;
pub mod scene;
pub mod selection;
pub mod share;
pub mod shortcuts;
pub mod text;
pub mod theme;
pub mod tools;
pub mod tree;
pub mod ui;
pub mod viewport;
pub mod windows;
pub mod workspaces;
pub mod xform;
