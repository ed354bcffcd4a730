//! Library side of `flyover`, a terminal radar scope for live ADS-B
//! traffic: classification and labelling of contacts, their position
//! trails, the colour palette, the scope's controls and text, the choice
//! of runways and airspace to draw, the dataset cache's decisions and glyph
//! compositing, each with a proved contract.

pub mod aircraft;
pub mod airports;
pub mod airspace;
pub mod cache;
pub mod contact;
pub mod control;
pub mod glyph;
pub mod text;
pub mod scope;
pub mod theme;
pub mod trail;

