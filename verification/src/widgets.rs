pub mod chat;
pub mod chat_dashboard;
pub mod dashboard;
