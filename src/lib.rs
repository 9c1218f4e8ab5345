//! Typed request and response surface for a place lookup service: reverse
//! geocoding of a coordinate and place search, with the query parameters
//! each request carries and the decoding of the place records it returns.

mod text;
pub mod decimal;
pub mod json;
pub mod place;
pub mod bounding_box;
pub mod search;
pub mod builder;
pub mod url;

pub use builder::{
    GeocodeBuilder, PlaceQuery, SearchBuilder, reverse_geocode, search_ip, search_point,
    search_query,
};
pub use decimal::Decimal;
pub use json::Json;
pub use place::{Accuracy, DecodeError, Place, PlaceType};
pub use search::SearchResult;
pub use url::{reverse_geocode_url, search_url};
