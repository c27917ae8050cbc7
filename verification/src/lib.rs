//! Human-readable diagnostic traces for failures.
//!
//! A failure is modelled as an [`ErrorTree`]: either a linear causal chain
//! (a message plus at most one underlying cause) or an aggregate (a message
//! plus an ordered list of independent child failures). The renderer walks
//! this tree and produces an indented text report; nested aggregates are
//! indented by layering a line-prefixing stream ([`Prefixer`]) for each
//! level of nesting, so indentation accumulates additively.

pub mod bytes;
pub mod debug_as_display;
pub mod display_as_debug;
pub mod display_debug_pair;
pub mod err_vec;
pub mod err_vec_display;
pub mod errgonomic;
pub mod error_displayer;
pub mod error_tree;
pub mod exit_result;
pub mod fmt;
pub mod get_root_error;
pub mod item_error;
pub mod partition_result;
pub mod prefixer;
pub mod write_error;
pub mod writeln_error;

pub use bytes::append_bytes;
pub use bytes::decimal_bytes;
pub use bytes::decimal_digits;
pub use debug_as_display::DebugAsDisplay;
pub use display_as_debug::DisplayAsDebug;
pub use display_debug_pair::DisplayDebugPair;
pub use err_vec::ErrVec;
pub use err_vec::encountered_errors_bytes;
pub use err_vec::encountered_errors_message;
pub use err_vec_display::BarError;
pub use err_vec_display::ErrVecDisplay;
pub use err_vec_display::FooError;
pub use err_vec_display::ZedError;
pub use err_vec_display::chain_formatted;
pub use err_vec_display::chains_formatted;
pub use err_vec_display::format_error_chain;
pub use err_vec_display::write_error_chain;
pub use errgonomic::DoDisplay;
pub use errgonomic::DoWrite;
pub use errgonomic::Errgonomic;
pub use errgonomic::lemma_tree_building_deterministic;
pub use error_displayer::ErrorDisplayer;
pub use error_tree::ErrorTree;
pub use error_tree::TreeView;
pub use error_tree::clone_tree;
pub use error_tree::lemma_trees_view_index;
pub use error_tree::message_of;
pub use error_tree::tree_view;
pub use error_tree::trees_view;
pub use exit_result::ExitSignal;
pub use exit_result::exit_result;
pub use exit_result::exit_results;
pub use exit_result::first_failure_index;
pub use fmt::fmt;
pub use get_root_error::get_root_source;
pub use get_root_error::root_source;
pub use item_error::ItemError;
pub use item_error::item_error_message;
pub use partition_result::errs_of;
pub use partition_result::oks_of;
pub use partition_result::partition_result;
pub use prefixer::NEWLINE;
pub use prefixer::PrefixState;
pub use prefixer::Prefixer;
pub use prefixer::feed;
pub use prefixer::feed_all;
pub use prefixer::feed_byte;
pub use prefixer::fresh_state;
pub use prefixer::lemma_chunk_invariance;
pub use prefixer::lemma_feed_concat;
pub use prefixer::lemma_feed_empty;
pub use prefixer::lemma_feed_state_equiv;
pub use prefixer::lemma_prefixed_line_split;
pub use prefixer::lemma_prefixed_single_line;
pub use prefixer::lemma_strip_prefixed;
pub use prefixer::pending_prefix;
pub use prefixer::prefixed;
pub use prefixer::strip_after_prefix;
pub use prefixer::strip_prefixed;
pub use write_error::PLUS;
pub use write_error::plus_bullet;
pub use write_error::rendered_plus;
pub use write_error::writeln_error;
pub use write_error::writeln_error_only;
pub use writeln_error::SPACE;
pub use writeln_error::STAR;
pub use writeln_error::chain_depth;
pub use writeln_error::chain_messages;
pub use writeln_error::child_blocks;
pub use writeln_error::continuation;
pub use writeln_error::error_prefixer;
pub use writeln_error::is_linear_chain;
pub use writeln_error::joined_lines;
pub use writeln_error::lemma_aggregate_rendering;
pub use writeln_error::lemma_chain_rendering;
pub use writeln_error::lemma_layer_removal;
pub use writeln_error::lemma_nesting_additive;
pub use writeln_error::lemma_rendered_blocks_are_child_blocks;
pub use writeln_error::lemma_rendered_blocks_snoc;
pub use writeln_error::lemma_stack_feed_concat;
pub use writeln_error::lemma_stack_feed_empty_stack;
pub use writeln_error::rendered;
pub use writeln_error::rendered_blocks;
pub use writeln_error::rendered_with;
pub use writeln_error::report_tail;
pub use writeln_error::see_full_report;
pub use writeln_error::stack_feed;
pub use writeln_error::stack_views;
pub use writeln_error::star_bullet;
pub use writeln_error::writeln_error_to_writer;
pub use writeln_error::writeln_error_to_writer_and_file;
