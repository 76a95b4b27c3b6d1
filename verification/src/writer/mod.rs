pub mod document_builder;
pub mod document_objects;
pub mod font_pdf_objects;
pub mod pdf_writer;
pub mod streaming_table;
