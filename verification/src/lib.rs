//! Typed construction of markup trees and their rendering to text.
//!
//! A tree of [`Element`]s is built bottom-up, decorated through the
//! capability traits of [`htmx`] and [`style`], and rendered once at the root.
//! Every function states, over the mathematical view of its arguments, exactly
//! which tree or which text it produces.

pub mod attributes;
pub mod decimal;
pub mod htmx;
pub mod node;
pub mod style;
pub mod tags;
pub mod text;

pub use node::{Child, Children, Element};
pub use tags::{
    body, button, div, h1, h2, h3, h4, h5, h6, head, html, image, input, label, li, link, ol, p,
    script, title, ul,
};
