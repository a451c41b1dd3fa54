//! The terminal client.

pub mod app;
pub mod book;
pub mod browse;
pub mod console;
pub mod customs;
pub mod edit;
pub mod editor;
pub mod figures;
pub mod form;
pub mod instance_form;
pub mod keygen;
pub mod keymap;
pub mod keys;
pub mod looks;
pub mod ls;
pub mod manners;
pub mod net;
pub mod news;
pub mod poller;
pub mod target;
pub mod terminal;
pub mod transfer;
pub mod ui;
