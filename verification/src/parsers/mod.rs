pub mod ci_evaluator;
pub mod ci_final_parser;
pub mod ci_full_parser;
pub mod ci_intermediate_tokenizer;
pub mod ci_lexer;
pub mod ci_new_parser;
pub mod ci_parser_step;
pub mod ci_repl_evaluator;
pub mod ci_results;
pub mod ci_streaming_lexer;

pub use crate::parser_types::{CIEvalError, CILexerError};
pub use ci_evaluator::CIFileEvaluator;
pub use ci_final_parser::CIFinalParser;
pub use ci_full_parser::{CIFullFileParser, CIFullReplParser};
pub use ci_intermediate_tokenizer::CIIntermediateTokenizer;
pub use ci_lexer::CILexer;
pub use ci_new_parser::{CINewFileParser, CINewReplParser};
pub use ci_parser_step::ParserStep;
pub use ci_repl_evaluator::CIReplEvaluator;
pub use ci_streaming_lexer::CIStreamingLexer;
