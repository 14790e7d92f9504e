pub mod pattern;
pub mod paths;
pub mod extract;
pub mod route;
pub mod laws;

pub use extract::MovieEntry;
pub use extract::extract_user_name;
pub use pattern::extract_id;
pub use route::FileOutcome;
pub use route::route;
pub use route::scan;
