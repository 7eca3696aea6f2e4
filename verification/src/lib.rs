//! A small document-to-render pipeline: a markup parser that builds an
//! element tree, a rule-order style resolver, a render-tree builder, and a
//! block-flow layout engine, all with verified contracts.

pub mod config;
pub mod errors;
pub mod parser;
pub mod renderer;
pub mod style;
pub mod types;

pub use config::BrowserConfig;
pub use errors::{BrowserError, BrowserResult};
pub use parser::HtmlParser;
pub use renderer::{LayoutBox, RenderEngine, RenderNode, RenderTree};
pub use style::{Color, ComputedStyle, CssRule, Display, StyleSheet};
pub use types::{BrowserTab, Document, Element, NavigationState};
