//! Status-line widgets: a small templating engine that renders literal text,
//! named placeholders (`{format}`, `{date}`, `{time}`, `{name}`) and style
//! directives into styled strings, and the widgets (a clock, a row of tabs)
//! that feed it.

pub mod clock;
pub mod config;
pub mod datetime;
pub mod render;
pub mod style;
pub mod tabs;
pub mod text;
pub mod widget;
