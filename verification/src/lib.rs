//! Verified core of a small set of desktop command-line utilities.
//!
//! Shared foundations: [`text`] (characters, trimming, splitting),
//! [`paths`] (Unix path components), [`numbers`] (decimal digits) and
//! [`url`] (query-string encoding). One module per utility holds its
//! decisions: [`backlight`], [`luks`] and [`luks_flow`], [`notifi`],
//! [`search`] and [`menu_search`], [`wallpaper`], [`writeback`], and
//! [`shared`] for the `PATH` lookup.

pub mod text;
pub mod paths;
pub mod numbers;
pub mod url;
pub mod backlight;
pub mod luks;
pub mod luks_flow;
pub mod notifi;
pub mod search;
pub mod menu_search;
pub mod shared;
pub mod wallpaper;
pub mod writeback;
