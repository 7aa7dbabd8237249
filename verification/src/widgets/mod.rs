pub mod ancestry;
pub mod datetime;
pub mod mode;
pub mod session;
pub mod swap_layout;
pub mod widget;
