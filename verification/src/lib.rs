//! A verified core for serving a single sitemap file over HTTP.
//!
//! The library decides, for each requested URL path, whether it names the
//! configured virtual location of the sitemap. A matching request is
//! answered with the file's contents as XML; any other request is answered
//! by a configurable not-found strategy. Reading the file and speaking HTTP
//! are left to the surrounding program; everything the library decides is
//! stated in contracts and proved.

pub mod paths;
pub mod response;
pub mod sitemap;
pub mod strategy;

pub use crate::response::Response;
pub use crate::sitemap::{serve_sitemap, ServeAction, Sitemap, SitemapBuilder};
pub use crate::strategy::{
    NotFoundStrategy, RedirectToRootStrategy, ShowErrorMessageStrategy,
};
