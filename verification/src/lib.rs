//! Deterministic, seed-driven generation of composite banner sprites.
//!
//! A banner is a fixed 20x40 canvas built from a tinted base texture and up
//! to six overlaid pattern layers, each independently tinted with one of the
//! 16 dye colors. A banner design can be drawn deterministically from an
//! integer seed, partially overridden, rendered to pixels, or packed into a
//! single 64-bit identifier.

mod bitbanner;
mod banner;
mod chars;
mod color;
mod combinatorics;
mod error;
mod generation;
mod img;
mod parse;
mod query;
mod rng;

pub use color::Color;
pub use color::hex_to_rgb;
pub use color::map_base_color;
pub use combinatorics::choose_layer_count;
pub use combinatorics::get_possible_combinations;
pub use combinatorics::lemma_total_is_16_times_strata;
pub use combinatorics::spec_total_combinations;
pub use bitbanner::BannerId;
pub use bitbanner::generate_random_banner;
pub use bitbanner::lemma_set_base;
pub use bitbanner::lemma_set_layer;
pub use bitbanner::lemma_base_color_survives_layer_writes;
pub use bitbanner::spec_apply_layer_writes;
pub use bitbanner::spec_set_layer;
pub use bitbanner::spec_base_color;
pub use bitbanner::spec_layer_color;
pub use bitbanner::spec_layer_pattern;
pub use error::Error;
pub use generation::LayerOverride;
pub use generation::VANILLA_MAX_PATTERN_SIZE;
pub use generation::generate_pattern_list;
pub use generation::get_amount_of_layers;
pub use generation::generate_seed;
pub use generation::get_rng_from_seed;
pub use generation::lemma_generation_deterministic;
pub use generation::lemma_max_layers_prefix;
pub use generation::lemma_override_isolation;
pub use generation::spec_pattern_list;
pub use banner::BANNER_X;
pub use banner::BANNER_Y;
pub use banner::Banner;
pub use banner::Pattern;
pub use banner::clone_img;
pub use banner::spec_composite;
pub use img::Img;
pub use img::spec_cropped_pixels;
pub use img::crop_pattern;
pub use img::decoded_rgba;
pub use img::overlay_of;
pub use img::spec_tint_channel;
pub use img::spec_tinted;
pub use img::tint_image;
pub use img::lemma_tint_white_identity;
pub use img::lemma_tint_white_buffer;
pub use query::GetBannerQuery;
pub use query::LayerEntry;
pub use query::map_layers;
pub use query::parse_layer_entry;
pub use rng::SeededRng;
pub use rng::chacha_draw;
