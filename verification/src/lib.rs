//! A small image gallery: pick the images out of a directory listing, give
//! each a tag by the keywords in its name, and render the gallery page, the
//! random-image page and the fallback page as HTML text.

pub mod escape;
pub mod gallery;
pub mod order;
pub mod page;
pub mod random;
pub mod scan;
pub mod site;
pub mod tags;
pub mod templates;
pub mod text;

pub use escape::html_escape;
pub use gallery::gallery;
pub use page::{minimal_page, styled_page};
pub use random::{random_image, random_page, random_rin, random_wallpaper};
pub use scan::{has_image_extension, list_images, Entry, ScanError};
pub use site::{rin, usable_prefix, wallpapers, Filter, Site, TagRule};
pub use tags::classify;
