pub mod messages_expire;
pub mod check_connections;
