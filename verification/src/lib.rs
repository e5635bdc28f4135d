//! The logic of a push-to-talk voice and chat client.
pub mod args;
pub mod audio;
pub mod chat;
pub mod clock;
pub mod connect;
pub mod connect_view;
pub mod device;
pub mod history;
pub mod identity;
pub mod key;
pub mod layout;
pub mod main_view;
pub mod ptt;
pub mod session;
pub mod styled;
pub mod text;
pub mod transport;
