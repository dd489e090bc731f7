pub mod checks;
pub mod display;
pub mod stack;
pub mod text;
pub mod topology;
pub mod watch;
