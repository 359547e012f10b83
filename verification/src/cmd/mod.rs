pub mod watch;
