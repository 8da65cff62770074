//! What holds of the library as a whole, said of characters, numbers and
//! documents themselves.

pub mod calls;
pub mod costs;
pub mod documents;
pub mod listing;
pub mod output;
pub mod prices;
pub mod setup;
