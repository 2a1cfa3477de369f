//! Data collection and Lua export logic for the mount and toy databases of a
//! World of Warcraft collection addon.

pub mod mount;
pub mod tools;
pub mod toy;
