pub mod text;
pub mod strmap;
pub mod model;
pub mod msg;
pub mod store;
pub mod directory;
pub mod command;
pub mod alerts;
pub mod keys;
pub mod search;
pub mod dashboard;
pub mod metrics;
pub mod view;
pub mod shell;
pub mod db;
pub mod service;
pub mod socket;
pub mod input;
pub mod update;
pub mod bundle;
pub mod render;
pub mod transport;
pub mod dispatch;
pub mod select;
pub mod cwd;
pub mod transitions;
pub mod line;
pub mod keymap;
pub mod router;
pub mod palette;
pub mod finder;
pub mod overlay;
pub mod help;
pub mod card;
pub mod order;
