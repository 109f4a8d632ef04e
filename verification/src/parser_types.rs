use crate::ast::{
    itoken_debug_text, node_debug_text, nodes_debug_text, nodes_view, push_itoken_debug_text,
    push_node_debug_text, push_nodes_debug_text, AstNode, IntermediateToken,
    IntermediateTokenView, NodeView,
};
use crate::text::{int_text, push_int, string_push};
use vstd::string::StringExecFns;
use vstd::prelude::*;

verus! {

/// What can go wrong while splitting text into tokens.
#[derive(Debug, Clone, Copy, PartialEq, Eq, Structural)]
pub enum CILexerError {
    /// The text ends inside a string.
    UnmatchedQuotes,
}

/// What can go wrong between tokens and evaluated forms.
#[derive(Debug)]
pub enum CIParserError {
    /// A closing bracket without an opener; holds the depth it led to.
    MissingOpenParen(i32),
    /// The text ends inside a bracket; holds the depth still open.
    MissingCloseParen(i32),
    /// A token where no form can start or continue.
    UnexpectedToken(Box<IntermediateToken>),
    /// A form with a number of children that its brackets do not take.
    NodeFull(Vec<AstNode>),
    /// The passes over the input were used up before every bracket was gone.
    ParsingUnfinished,
    LexerError(CILexerError),
    EvalError(CIEvalError),
}

/// What can go wrong while evaluating a form.
#[derive(Debug)]
pub enum CIEvalError {
    UnknownSymbol(String),
    NonCallable(Box<AstNode>),
    UnexpectedValue(Box<AstNode>),
    NoSuchFile(String),
    FileParseError(Box<CIParserError>),
    /// The evaluation nests deeper than the evaluator was allowed to go.
    DepthExceeded,
}

pub enum ParserErrorView {
    MissingOpenParen(i32),
    MissingCloseParen(i32),
    UnexpectedToken(IntermediateTokenView),
    NodeFull(Seq<NodeView>),
    ParsingUnfinished,
    LexerError(CILexerError),
    EvalError(Box<EvalErrorView>),
}

pub enum EvalErrorView {
    UnknownSymbol(Seq<char>),
    NonCallable(NodeView),
    UnexpectedValue(NodeView),
    NoSuchFile(Seq<char>),
    FileParseError(Box<ParserErrorView>),
    DepthExceeded,
}

pub open spec fn parser_error_view(e: CIParserError) -> ParserErrorView
    decreases e,
{
    match e {
        CIParserError::MissingOpenParen(l) => ParserErrorView::MissingOpenParen(l),
        CIParserError::MissingCloseParen(l) => ParserErrorView::MissingCloseParen(l),
        CIParserError::UnexpectedToken(t) => ParserErrorView::UnexpectedToken(t@),
        CIParserError::NodeFull(items) => ParserErrorView::NodeFull(nodes_view(items@)),
        CIParserError::ParsingUnfinished => ParserErrorView::ParsingUnfinished,
        CIParserError::LexerError(e) => ParserErrorView::LexerError(e),
        CIParserError::EvalError(e) => ParserErrorView::EvalError(Box::new(eval_error_view(e))),
    }
}

pub open spec fn eval_error_view(e: CIEvalError) -> EvalErrorView
    decreases e,
{
    match e {
        CIEvalError::UnknownSymbol(s) => EvalErrorView::UnknownSymbol(s@),
        CIEvalError::NonCallable(n) => EvalErrorView::NonCallable(n@),
        CIEvalError::UnexpectedValue(n) => EvalErrorView::UnexpectedValue(n@),
        CIEvalError::NoSuchFile(s) => EvalErrorView::NoSuchFile(s@),
        CIEvalError::FileParseError(e) => EvalErrorView::FileParseError(
            Box::new(parser_error_view(*e)),
        ),
        CIEvalError::DepthExceeded => EvalErrorView::DepthExceeded,
    }
}

impl View for CIParserError {
    type V = ParserErrorView;

    open spec fn view(&self) -> ParserErrorView {
        parser_error_view(*self)
    }
}

impl View for CIEvalError {
    type V = EvalErrorView;

    open spec fn view(&self) -> EvalErrorView {
        eval_error_view(*self)
    }
}

/// The path of the source that an evaluation failed for want of, where
/// that is why it failed, however deep in loaded sources.
pub open spec fn missing_source_spec(e: EvalErrorView) -> Option<Seq<char>>
    decreases e,
{
    match e {
        EvalErrorView::NoSuchFile(path) => Some(path),
        EvalErrorView::FileParseError(inner) => match *inner {
            ParserErrorView::EvalError(cause) => missing_source_spec(*cause),
            _ => None,
        },
        _ => None,
    }
}

impl CIEvalError {
    /// The path of the source that the evaluation failed for want of.
    pub fn missing_source(&self) -> (r: Option<String>)
        ensures
            r is Some == missing_source_spec(self@) is Some,
            r is Some ==> r->0@ == missing_source_spec(self@)->0,
        decreases self,
    {
        match self {
            CIEvalError::NoSuchFile(path) => Some(path.clone()),
            CIEvalError::FileParseError(inner) => match &**inner {
                CIParserError::EvalError(cause) => cause.missing_source(),
                _ => None,
            },
            _ => None,
        }
    }
}

pub open spec fn lexer_error_text(e: CILexerError) -> Seq<char> {
    "Unmatched quotes"@
}

/// The message of an error between tokens and evaluated forms.
pub open spec fn parser_error_text(e: ParserErrorView) -> Seq<char>
    decreases e,
{
    match e {
        ParserErrorView::MissingOpenParen(l) => "Missing Opening Parenthesis (level: "@ + int_text(
            l as int,
        ) + seq![')'],
        ParserErrorView::MissingCloseParen(l) => "Missing Closing Parenthesis (level: "@
            + int_text(l as int) + seq![')'],
        ParserErrorView::UnexpectedToken(t) => "UnexpectedToken: "@ + itoken_debug_text(t),
        ParserErrorView::NodeFull(items) => "Too many parameters in Node: "@ + nodes_debug_text(
            items,
        ),
        ParserErrorView::ParsingUnfinished => "[Internal] parsing not done"@,
        ParserErrorView::LexerError(e) => "LexerError: "@ + lexer_error_text(e),
        ParserErrorView::EvalError(e) => "EvalError: "@ + eval_error_text(*e),
    }
}

/// The message of an error of evaluation.
pub open spec fn eval_error_text(e: EvalErrorView) -> Seq<char>
    decreases e,
{
    match e {
        EvalErrorView::UnknownSymbol(s) => "Unknown symbol: "@ + s,
        EvalErrorView::NonCallable(n) => "Non-callable value: "@ + node_debug_text(n),
        EvalErrorView::UnexpectedValue(n) => "Unexpected Value: "@ + node_debug_text(n),
        EvalErrorView::NoSuchFile(s) => "File does not exist: "@ + s,
        EvalErrorView::FileParseError(e) => "Error while parsing file: "@ + parser_error_text(*e),
        EvalErrorView::DepthExceeded => "Evaluation nests too deep"@,
    }
}

fn push_parser_error_text(e: &CIParserError, out: &mut String)
    ensures
        final(out)@ == old(out)@ + parser_error_text(e@),
    decreases e,
{
    match e {
        CIParserError::MissingOpenParen(l) => {
            out.append("Missing Opening Parenthesis (level: ");
            push_int(*l, out);
            string_push(out, ')');
            assert(final(out)@ =~= old(out)@ + parser_error_text(e@));
        },
        CIParserError::MissingCloseParen(l) => {
            out.append("Missing Closing Parenthesis (level: ");
            push_int(*l, out);
            string_push(out, ')');
            assert(final(out)@ =~= old(out)@ + parser_error_text(e@));
        },
        CIParserError::UnexpectedToken(t) => {
            out.append("UnexpectedToken: ");
            push_itoken_debug_text(t, out);
            assert(final(out)@ =~= old(out)@ + parser_error_text(e@));
        },
        CIParserError::NodeFull(items) => {
            out.append("Too many parameters in Node: ");
            push_nodes_debug_text(items, out);
            assert(final(out)@ =~= old(out)@ + parser_error_text(e@));
        },
        CIParserError::ParsingUnfinished => out.append("[Internal] parsing not done"),
        CIParserError::LexerError(inner) => {
            out.append("LexerError: ");
            out.append("Unmatched quotes");
            assert(final(out)@ =~= old(out)@ + parser_error_text(e@));
        },
        CIParserError::EvalError(inner) => {
            out.append("EvalError: ");
            push_eval_error_text(inner, out);
            assert(final(out)@ =~= old(out)@ + parser_error_text(e@));
        },
    }
}

fn push_eval_error_text(e: &CIEvalError, out: &mut String)
    ensures
        final(out)@ == old(out)@ + eval_error_text(e@),
    decreases e,
{
    match e {
        CIEvalError::UnknownSymbol(s) => {
            out.append("Unknown symbol: ");
            out.append(s.as_str());
            assert(final(out)@ =~= old(out)@ + eval_error_text(e@));
        },
        CIEvalError::NonCallable(n) => {
            out.append("Non-callable value: ");
            push_node_debug_text(n, out);
            assert(final(out)@ =~= old(out)@ + eval_error_text(e@));
        },
        CIEvalError::UnexpectedValue(n) => {
            out.append("Unexpected Value: ");
            push_node_debug_text(n, out);
            assert(final(out)@ =~= old(out)@ + eval_error_text(e@));
        },
        CIEvalError::NoSuchFile(s) => {
            out.append("File does not exist: ");
            out.append(s.as_str());
            assert(final(out)@ =~= old(out)@ + eval_error_text(e@));
        },
        CIEvalError::FileParseError(inner) => {
            out.append("Error while parsing file: ");
            push_parser_error_text(inner, out);
            assert(final(out)@ =~= old(out)@ + eval_error_text(e@));
        },
        CIEvalError::DepthExceeded => out.append("Evaluation nests too deep"),
    }
}

impl CILexerError {
    /// The message of this error.
    pub fn to_text(&self) -> (r: String)
        ensures
            r@ == lexer_error_text(*self),
    {
        "Unmatched quotes".to_owned()
    }
}

impl CIParserError {
    /// The message of this error.
    pub fn to_text(&self) -> (r: String)
        ensures
            r@ == parser_error_text(self@),
    {
        let mut out = String::new();
        push_parser_error_text(self, &mut out);
        assert(out@ =~= parser_error_text(self@));
        out
    }
}

impl CIEvalError {
    /// The message of this error.
    pub fn to_text(&self) -> (r: String)
        ensures
            r@ == eval_error_text(self@),
    {
        let mut out = String::new();
        push_eval_error_text(self, &mut out);
        assert(out@ =~= eval_error_text(self@));
        out
    }
}

} // verus!
