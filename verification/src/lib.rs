//! Extraction of a normalized interface description from the syntax tree of a
//! C header that follows the firmware naming conventions: aggregate records,
//! and protocols made of data fields and function-pointer methods whose
//! argument direction and optionality are encoded by marker types.

pub mod ast;
pub mod error;
pub mod method;
pub mod normalize;
pub mod option_ext;
pub mod parser;
pub mod protocol;
pub mod record;
pub mod text;
pub mod types;
pub mod wrapper;
