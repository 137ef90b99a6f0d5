pub mod args;
pub mod commands;
pub mod config;
pub mod error;
pub mod event;
pub mod height;
pub mod identifier;
pub mod manual_run;
pub mod packet;
pub mod packets_run;
pub mod text;
