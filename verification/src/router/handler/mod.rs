pub mod add_user;
