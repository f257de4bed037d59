//! A static site builder: documents are rendered to HTML pages, wrapped in a
//! fixed shell, placed under the output root, and listed on an index page.

pub mod template;
pub mod text;
pub mod paths;
pub mod index;
pub mod site;
pub mod tree;
pub mod watch;
