//! Body-text extraction from marked-up documents, size metrics of the
//! extracted text under several encodings and text models, and the
//! statistics that compare those sizes across a corpus.

pub mod xml;
pub mod extract;
pub mod metrics;
pub mod stats;
pub mod record;
pub mod report;
pub mod catalog;
