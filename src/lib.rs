pub mod stamp;
pub mod lesson;
pub mod query;
pub mod state;
pub mod utils;
