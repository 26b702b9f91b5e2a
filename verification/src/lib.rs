pub mod text;
pub mod ui;
pub mod strmap;
pub mod listing;
pub mod model;
pub mod order;
pub mod state;
pub mod app;
pub mod arith;
pub mod cli;
pub mod collector;
pub mod report;
pub mod control;
pub mod detail;
pub mod layout;
pub mod panel;
pub mod tables;
pub mod summary;
pub mod hits;
pub mod view;
