//! Verified core of the Stunts native editor: colour and theme tables,
//! animation ideas, motion-path data, timeline arrangement, project listing,
//! capture-source selection, authentication decisions and per-frame drawing
//! policy.

pub mod color;
pub mod text;
pub mod capture;
mod ids;
pub mod timeline;
pub mod motion;
pub mod auth;
pub mod screens;
pub mod text_properties;
pub mod themes;
pub mod visibility;
pub mod frame;
pub mod input;
pub mod ideas;
pub mod projects;
