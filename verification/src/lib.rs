//! The call hierarchy of a symbol: who calls it, or what it calls, as a list that unfolds.
pub mod call_hierarchy_panel;
pub mod call_hierarchy_view;
pub mod icons;
pub mod navigation;
pub mod outline;
pub mod outline_laws;
pub mod panel_laws;
pub mod protocol;
pub mod rows;
pub mod selection;
pub mod uri;
pub mod view_laws;
