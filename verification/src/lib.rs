pub mod black_jack;
pub mod card;
pub mod commands;
pub mod daily;
pub mod guess;
pub mod random;
pub mod text;
