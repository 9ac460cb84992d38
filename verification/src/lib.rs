//! Extraction of structured dictionary data from a semi-structured,
//! encyclopedia-style HTML page, organized by nested headings.
//!
//! The engine works over an owned, index-addressed document tree (`dom`),
//! segments it into the target language's region and its grammatical
//! subsections (`sections`), parses definitions and usage examples
//! (`meaning`), recovers grammatical attributes such as noun gender and
//! adjective forms (`grammar`), and assembles the final `Word` record
//! (`extract`). A self-contained interchange codec (`codec`) serializes
//! records and parses them back, and `fields` maps a record into flat
//! flashcard-row fields.

#![allow(unused_imports)]

pub mod strutil;
pub mod word;
pub mod shorten;
pub mod dom;
pub mod sections;
pub mod grammar;
pub mod meaning;
pub mod extract;
pub mod fields;
pub mod codec;
