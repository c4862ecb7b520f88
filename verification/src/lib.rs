//! The rules of an assistant for investors: what becomes of market data, what a user is
//! shown, and how the server is put together.
//!
//! [`corp_action`] and [`earnings_surprise`] turn documents of market data into events,
//! [`poll`] leads through a round of requests for them. [`chat`] and [`digest`] answer
//! requests of users. [`launch`] starts the server and [`logs`] keeps its log files. The
//! other modules hold what these have in common.

pub mod body;
pub mod chat;
pub mod clock;
pub mod corp_action;
pub mod digest;
pub mod double;
pub mod earnings_surprise;
pub mod event;
pub mod json;
pub mod launch;
pub mod logs;
pub mod poll;
pub mod text;
