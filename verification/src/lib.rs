//! Choosing and playing films and series: the menus, the decisions between them, and the
//! choice of a stream, for a terminal client that searches a media catalogue.
pub mod structs;
pub mod text;
pub mod numbers;
pub mod menus;
pub mod navigation;
pub mod sources;
pub mod providers;
pub mod urls;
pub mod player;
