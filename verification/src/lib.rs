//! Reader for JWW drawings and converter to ASCII DXF (AC1015), with the
//! decoding, the conversion rules and the output layout stated as
//! contracts and proved.
//!
//! Numbers of the drawing are carried as binary64 bit patterns. What
//! rounds is asked of an [`Arithmetic`] that the caller supplies.

pub mod binary64;
pub mod dxf;
pub mod error;
pub mod explode;
pub mod handles;
pub mod header;
pub mod model;
pub mod parser;
pub mod reader;
pub mod sorted;
pub mod text;
pub mod validate;
pub mod writer;

pub use binary64::{Arithmetic, Binary64};
pub use dxf::{
    ConvertOptions, DxfArc, DxfBlock, DxfCircle, DxfDocument, DxfEllipse, DxfEntity, DxfInsert,
    DxfKind, DxfLayer, DxfLine, DxfPoint, DxfSolid, DxfText,
};
pub use error::JwwError;
pub use explode::{convert_document, convert_document_with_options, Transform2D};
pub use header::{is_jww_signature, parse_header, JwwHeader, LayerGroupHeader, LayerHeader};
pub use model::{
    collect_entity_coordinates, coordinates_bbox, Arc, Block, BlockDef, Coord2D, Dimension, Entity,
    EntityBase, JwwDocument, Line, Point, Solid, Text,
};
pub use parser::parse_document;
pub use reader::Reader;
pub use validate::{
    block_def_name_map, entity_counts, resolve_block_name, validate_block_references,
    BlockReferenceValidation, EntityCounts,
};
pub use writer::{document_records, document_to_string, render_records, Record, Value};
