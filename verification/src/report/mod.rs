pub mod graph_view;
pub mod html;
pub mod timeline;
