pub mod capabilities;
pub mod documents;
pub mod framing;
pub mod registry;
