use vstd::prelude::*;

pub mod num;
pub mod options;
pub mod text;
pub mod time;
pub mod util;
pub mod cipher;
pub mod hash;
pub mod reminder;
pub mod event;
pub mod digest;
pub mod commands;
pub mod writeups;
pub mod ctftime;
pub mod team;
pub mod admin;
pub mod reminder_command;
pub mod event_pages;
pub mod guild;
pub mod config;
pub mod worker;
