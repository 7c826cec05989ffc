//! A client core for the Discogs API: OAuth 1.0a request signing, an
//! adaptive token-bucket rate limiter, page cursors and search parameters.
pub mod auth;
pub mod client;
pub mod encoding;
pub mod header;
pub mod models;
pub mod pagination;
pub mod params;
pub mod rate_limit;
pub mod url;

pub use auth::{build_oauth_header, generate_nonce, oauth_header_with, Auth};
pub use client::{ClientBuilder, ClientConfig, DiscogsError};
pub use encoding::{hex_encode, percent_encode};
pub use models::{pick_primary_image, Image, SearchParams, SearchType};
pub use pagination::{Paginated, PaginatedData, PaginationInfo, PaginationParams};
pub use rate_limit::{Acquire, RateLimiter};
pub use url::split_url;
