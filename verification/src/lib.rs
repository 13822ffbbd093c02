//! Verified rules of Topdown Racer: track description validation, race
//! progress, corner practice, timing text, record keeping, audio encoding
//! and the baked world's texel patterns.

pub mod audio;
pub mod awareness;
pub mod bake;
pub mod binary32;
pub mod controls;
pub mod effects;
pub mod eligibility;
pub mod feedback;
pub mod hud;
pub mod layout;
pub mod lifecycle;
pub mod palette;
pub mod practice;
pub mod race;
pub mod records;
pub mod results;
pub mod screens;
pub mod standings;
pub mod text;
pub mod track;
pub mod unstick;
