//! Services that the resolution of a site name rests on.

pub mod tld;
