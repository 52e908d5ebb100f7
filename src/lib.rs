//! Parser for Xcode project files (the `.pbxproj` property-list dialect) into
//! an order-preserving document model, with a projection onto JSON.
pub mod comment;
pub mod error;
pub mod grammar;
pub mod json;
pub mod laws;
pub mod model;
pub mod parser;
mod scan;
pub mod text;

pub use comment::{clean_comment, comment_body, extract_inline_comment, is_comment_text, unquote};
pub use error::{Expected, PbxParseError, Rule, SyntaxError};
pub use json::{JsonMember, JsonValue};
pub use model::{PbxDocument, PbxEntry, PbxValue};
pub use parser::{parse_document, recognize};
