//! Turns the path data of an SVG document into polylines: ordered lists of
//! points joined by straight segments.
//!
//! Coordinates are fixed-point integers (`UNITS_PER_WHOLE` units make one
//! user-space unit), so that every step of the interpretation is exact.
//! The pieces are:
//! - `lexer`: the text of a `d` attribute to a sequence of path commands;
//! - `current_line`: the buffer that collects the points of one sub-path;
//! - `path`: the driver that runs the commands of one path element and asks
//!   its caller to flatten each Bézier curve it meets;
//! - `document`: finds the `d` attributes of an SVG document;
//! - `simplify`: the size policy of the polyline simplifier;
//! - `export`: what the SVG and DXF exports draw.

pub mod coord;
pub mod current_line;
pub mod document;
pub mod export;
pub mod lexer;
pub mod path;
pub mod simplify;

pub use coord::{CoordinatePair, Polyline, UNITS_PER_WHOLE};
pub use current_line::{CurrentLine, InvalidState, PathError};
pub use document::{DocumentParser, ScanError, SvgEvent, path_data, select_path_data};
pub use export::{DxfEntity, drawable_lines, dxf_entities};
pub use lexer::{LexError, Lexed, PathCommand, lex_path, parse_number};
pub use path::{Curve, PathParser, parse_path_token};
pub use simplify::{SimplifyAction, apply_decimation, keep_points, simplify_action};
