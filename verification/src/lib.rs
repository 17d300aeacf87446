//! A small line-search library: filter the lines of a text by a literal
//! substring query (optionally case-insensitive) or by a regular expression,
//! together with a collection of small verified exercises.

pub mod borrowing;
pub mod checks;
pub mod coins;
pub mod generics;
pub mod grep;
pub mod inventory;
pub mod ownership;
pub mod patterns;
pub mod scores;
pub mod shapes;
pub mod slices;
pub mod summaries;
pub mod text;
pub mod users;

pub use checks::add;
pub use checks::greeting;
pub use checks::Guess;
pub use grep::Config;
pub use grep::Mode;
pub use grep::ParseOutcome;
pub use grep::PatternError;
pub use grep::filter;
pub use grep::regex_search;
pub use grep::search;
pub use shapes::Rectangle;
