//! The decision logic of a time-series store's two boundaries.
use vstd::prelude::*;

pub mod arguments;
pub mod array;
pub mod assemble;
pub mod batch;
pub mod calls;
pub mod calls_ask;
pub mod catalog;
pub mod columns;
pub mod cube;
pub mod features;
pub mod filename;
pub mod files;
pub mod filing;
pub mod filters;
pub mod footer;
pub mod groups;
pub mod halves;
pub mod handed_back;
pub mod instant;
pub mod json;
pub mod kinds;
pub mod listing;
pub mod merge;
pub mod order;
pub mod partition;
pub mod partition_tables;
pub mod plan;
pub mod probe;
pub mod read_back;
pub mod reorder;
pub mod requests;
pub mod results;
pub mod roundtrip;
pub mod rows;
pub mod schema;
pub mod series;
pub mod series_file;
pub mod series_reader;
pub mod single_export;
pub mod single_import;
pub mod status;
pub mod table;
pub mod tables_read_back;
pub mod text;
pub mod values;

