//! Finance and knowledge-bank logic: Dzengi symbol handling, price watches
//! and alert delivery decisions, Telegram command parsing, analysis
//! selection, expense reports and spaced-repetition helpers.
pub mod text;
pub mod num;
pub mod investment;
pub mod json;
pub mod url;
pub mod analysis;
pub mod expenses;
pub mod knowledge;
pub mod indicators;
