//! Verified core of the Hyprland CRT shader control panel: the shader
//! constant reader and rewriter, the parameter table, and the decisions
//! that drive `hyprctl`.

pub mod text;
pub mod shader;
pub mod params;
pub mod hypr;
pub mod paths;
pub mod layout;
