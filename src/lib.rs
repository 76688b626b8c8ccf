//! Lexical front end: classified code points, replayable streams and the
//! tokenizer state machines built on them.
//!
//! - `codepoint`: the category questions asked of a unit (a `char` or a byte)
//!   and the `CodePoint` that classifies it.
//! - `location`: line, column and total, with their text form.
//! - `queue`, `input`, `token`, `iterator`: the lookahead queue, the stream
//!   of code points read through a filter, and the replayable token stream.
//! - `comment`, `identifier`, `keyword`, `literal`, `delimiter`: the
//!   tokenizer algorithms and what they produce.

pub mod byte;
pub mod codepoint;
pub mod comment;
pub mod delimiter;
pub mod error;
pub mod identifier;
pub mod input;
pub mod io;
pub mod iterator;
pub mod keyword;
pub mod literal;
pub mod location;
pub mod queue;
pub mod token;

pub use byte::ByteStream;
pub use codepoint::{CodePoint, CodePointInterface};
pub use comment::{consume_comments, CommentOutput, CommentParseError, CommentState, CommentType};
pub use delimiter::{
    consume_delimiter, Arithmetic, Assignment, Bitwise, BoundaryPairs, Comparison, Delimiter, DelimiterParseError,
    Logical, Operator, Symbol,
};
pub use error::LexicalError;
pub use identifier::{consume_ident_sequence, IdentifierOutput, IdentifierParseError};
pub use input::{DefaultFilter, InputStream, InputStreamError, ScanFilter};
pub use io::{Input, ParseState};
pub use iterator::{StreamIterator, StreamIteratorError, StreamIteratorItem, StreamIteratorQueue};
pub use keyword::{Keyword, KeywordParseError};
pub use literal::{
    consume_boolean, consume_numeric, consume_string, Bool, BoolOutput, Integer, IntegerOutput, IntegerParseError,
    IntegerState, Literal, LiteralParseError, StringOutput, StringParseError, StringState,
};
pub use location::{Location, LocationInterface};
pub use queue::Queue;
pub use token::{TokenStream, TokenStreamError};
