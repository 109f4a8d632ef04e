use crate::ast::{
    guess_value_spec, value_debug_text, AstNode, IntermediateTokenView, NodeView, TokenView,
    ValueView,
};
use crate::parser_types::{CILexerError, CIParserError, ParserErrorView};
use crate::parsers::ci_intermediate_tokenizer::{
    annotate_from, annotate_spec, tokenizer_start, tokenizer_step, CIIntermediateTokenizer,
};
use crate::parsers::ci_lexer::{
    flush_word_spec, initial_state, is_separator, lex_chars, lex_step, marker_of, tokenize_spec,
    CILexer, LexerStateView,
};
use crate::parsers::ci_new_parser::{
    lemma_value_parses_to_itself, parse_file_spec, parse_repl_spec, parsed_all_view, parsed_view,
    CINewFileParser, CINewReplParser,
};
use crate::text::{
    digits_of, int_text, is_digit, is_whitespace, lemma_digits_of_denote,
    lemma_int_text_reads_back, parse_int, trim_end, trim_start,
};
use vstd::prelude::*;
use vstd::string::StrSliceExecFns;

verus! {

/// The longest source text, in characters, whose brackets can be counted.
pub const MAX_SOURCE_LEN: usize = 0x7fff_fffe;

/// The forms of a source text: its tokens, tagged with their depth, parsed
/// up to the end of the input.
pub open spec fn parse_source_spec(source: Seq<char>) -> Result<Seq<NodeView>, ParserErrorView> {
    match tokenize_spec(source) {
        Err(e) => Err(ParserErrorView::LexerError(e)),
        Ok(tokens) => match annotate_spec(tokens) {
            Err(e) => Err(e),
            Ok(tagged) => parse_file_spec(tagged),
        },
    }
}

/// The one form of a line of text.
pub open spec fn parse_line_spec(source: Seq<char>, infix_repl: bool) -> Result<
    NodeView,
    ParserErrorView,
> {
    match tokenize_spec(source) {
        Err(e) => Err(ParserErrorView::LexerError(e)),
        Ok(tokens) => match annotate_spec(tokens) {
            Err(e) => Err(e),
            Ok(tagged) => parse_repl_spec(tagged, infix_repl),
        },
    }
}

/// How many tokens a lexer state stands for, counting its pending word.
pub open spec fn pending_tokens(s: LexerStateView) -> nat {
    if s.cur_word.len() > 0 {
        s.tokens.len() + 1
    } else {
        s.tokens.len()
    }
}

/// A text has at most one token for each of its characters, and the one
/// that ends it.
pub proof fn lemma_token_count(source: Seq<char>)
    ensures
        pending_tokens(lex_chars(source)) <= source.len(),
        tokenize_spec(source) is Ok ==> tokenize_spec(source)->Ok_0.len() <= source.len() + 1,
    decreases source.len(),
{
    if source.len() > 0 {
        lemma_token_count(source.drop_last());
        let before = lex_chars(source.drop_last());
        assert(pending_tokens(lex_step(before, source.last())) <= pending_tokens(before) + 1);
    }
}

/// Parses a whole file of source text.
#[derive(Default)]
pub struct CIFullFileParser {}

impl CIFullFileParser {
    pub fn parse(&self, source: &str) -> (r: Result<Vec<AstNode>, CIParserError>)
        requires
            source@.len() < MAX_SOURCE_LEN,
        ensures
            parsed_all_view(r) == parse_source_spec(source@),
    {
        proof {
            lemma_token_count(source@);
        }
        let tokens = match (CILexer {}).tokenize(source) {
            Ok(tokens) => tokens,
            Err(e) => {
                return Err(CIParserError::LexerError(e));
            },
        };
        let tagged = match (CIIntermediateTokenizer {}).parse(tokens) {
            Ok(tagged) => tagged,
            Err(e) => {
                return Err(e);
            },
        };
        (CINewFileParser {}).parse(tagged)
    }

    /// Parses a whole file of source text, unless it is too long.
    pub fn parse_checked(&self, source: &str) -> (r: Option<Result<Vec<AstNode>, CIParserError>>)
        ensures
            r is Some == (source@.len() < MAX_SOURCE_LEN),
            r is Some ==> parsed_all_view(r->0) == parse_source_spec(source@),
    {
        if source.unicode_len() < MAX_SOURCE_LEN {
            Some(self.parse(source))
        } else {
            None
        }
    }
}

/// Parses a line of source text that holds one form.
pub struct CIFullReplParser {
    pub infix_repl: bool,
}

impl CIFullReplParser {
    pub fn new(infix_repl: bool) -> (r: Self)
        ensures
            r.infix_repl == infix_repl,
    {
        CIFullReplParser { infix_repl }
    }

    pub fn parse(&self, source: &str) -> (r: Result<AstNode, CIParserError>)
        requires
            source@.len() < MAX_SOURCE_LEN,
        ensures
            parsed_view(r) == parse_line_spec(source@, self.infix_repl),
    {
        proof {
            lemma_token_count(source@);
        }
        let tokens = match (CILexer {}).tokenize(source) {
            Ok(tokens) => tokens,
            Err(e) => {
                return Err(CIParserError::LexerError(e));
            },
        };
        let tagged = match (CIIntermediateTokenizer {}).parse(tokens) {
            Ok(tagged) => tagged,
            Err(e) => {
                return Err(e);
            },
        };
        CINewReplParser::new(self.infix_repl).parse(tagged)
    }

    /// Parses a line of source text, unless it is too long.
    pub fn parse_checked(&self, source: &str) -> (r: Option<Result<AstNode, CIParserError>>)
        ensures
            r is Some == (source@.len() < MAX_SOURCE_LEN),
            r is Some ==> parsed_view(r->0) == parse_line_spec(source@, self.infix_repl),
    {
        if source.unicode_len() < MAX_SOURCE_LEN {
            Some(self.parse(source))
        } else {
            None
        }
    }
}

/// Whether a character joins the word it stands in, outside a string.
pub open spec fn is_plain(c: char) -> bool {
    c != '"' && !is_separator(c) && marker_of(c) is None
}

pub open spec fn all_plain(word: Seq<char>) -> bool {
    forall|i: int| 0 <= i < word.len() ==> is_plain(#[trigger] word[i])
}

/// A text of plain characters is one pending word.
pub proof fn lemma_plain_text_is_one_word(word: Seq<char>)
    requires
        all_plain(word),
    ensures
        lex_chars(word) == (LexerStateView {
            tokens: Seq::empty(),
            cur_word: word,
            in_string: false,
        }),
    decreases word.len(),
{
    if word.len() == 0 {
        assert(word =~= Seq::<char>::empty());
    } else {
        assert(all_plain(word.drop_last())) by {
            assert forall|i: int| 0 <= i < word.drop_last().len() implies is_plain(
                #[trigger] word.drop_last()[i],
            ) by {
                assert(word.drop_last()[i] == word[i]);
            }
        }
        lemma_plain_text_is_one_word(word.drop_last());
        assert(is_plain(word[word.len() - 1]));
        assert(word.drop_last().push(word.last()) =~= word);
    }
}

/// A word of plain characters, alone in a text, is the one token of the text.
pub proof fn lemma_plain_word_is_one_token(word: Seq<char>)
    requires
        all_plain(word),
        word.len() > 0,
    ensures
        tokenize_spec(word) == Ok::<Seq<TokenView>, CILexerError>(
            seq![guess_value_spec(word), TokenView::EOF],
        ),
{
    lemma_plain_text_is_one_word(word);
    let s = lex_chars(word);
    assert(flush_word_spec(s).tokens.push(TokenView::EOF) =~= seq![
        guess_value_spec(word),
        TokenView::EOF,
    ]);
}

/// After an opening quote, characters that are no quote join the string.
pub proof fn lemma_open_string_grows(content: Seq<char>)
    requires
        !content.contains('"'),
    ensures
        lex_chars(seq!['"'] + content) == (LexerStateView {
            tokens: Seq::empty(),
            cur_word: seq!['"'] + content,
            in_string: true,
        }),
    decreases content.len(),
{
    let text = seq!['"'] + content;
    if content.len() == 0 {
        assert(text.drop_last() =~= Seq::<char>::empty());
        assert(text.last() == '"');
        assert(lex_chars(text.drop_last()) == initial_state());
        assert(text =~= Seq::<char>::empty().push('"'));
    } else {
        let shorter = content.drop_last();
        assert(!shorter.contains('"')) by {
            if shorter.contains('"') {
                let i = choose|i: int| 0 <= i < shorter.len() && shorter[i] == '"';
                assert(content[i] == '"');
            }
        }
        lemma_open_string_grows(shorter);
        assert(text.drop_last() =~= seq!['"'] + shorter);
        assert(text.last() == content.last());
        assert(content.last() != '"') by {
            if content.last() == '"' {
                assert(content[content.len() - 1] == '"');
            }
        }
        assert((seq!['"'] + shorter).push(content.last()) =~= text);
    }
}

/// A text between double quotes, with no quote inside, is the one token of
/// its text: the string of what stands between the quotes.
pub proof fn lemma_quoted_text_is_one_string(content: Seq<char>)
    requires
        !content.contains('"'),
    ensures
        tokenize_spec(seq!['"'] + content + seq!['"']) == Ok::<Seq<TokenView>, CILexerError>(
            seq![TokenView::Value(ValueView::String(content)), TokenView::EOF],
        ),
{
    let word = seq!['"'] + content + seq!['"'];
    lemma_open_string_grows(content);
    assert(word.drop_last() =~= seq!['"'] + content);
    assert(word.last() == '"');
    assert((seq!['"'] + content).push('"') =~= word);
    assert(word[0] == '"');
    assert(!is_whitespace('"'));
    assert(trim_start(word) == word);
    assert(trim_end(word) == word);
    assert(parse_int(word) is None) by {
        assert(!is_digit(word[0]));
    }
    assert(word.subrange(1, word.len() - 1) =~= content);
    assert(guess_value_spec(word) == TokenView::Value(ValueView::String(content)));
    let s = lex_chars(word);
    assert(s.tokens =~= seq![guess_value_spec(word)]);
    assert(s.cur_word =~= Seq::<char>::empty());
    assert(flush_word_spec(s).tokens.push(TokenView::EOF) =~= seq![
        TokenView::Value(ValueView::String(content)),
        TokenView::EOF,
    ]);
}

/// The decimal text of an integer is the one token of its text.
pub proof fn lemma_int_text_is_one_int(i: i32)
    ensures
        tokenize_spec(int_text(i as int)) == Ok::<Seq<TokenView>, CILexerError>(
            seq![TokenView::Value(ValueView::Int(i)), TokenView::EOF],
        ),
{
    let word = int_text(i as int);
    lemma_int_text_reads_back(i);
    if i < 0 {
        lemma_digits_of_denote((-i) as nat);
        let digits = digits_of((-i) as nat);
        assert forall|k: int| 0 <= k < word.len() implies is_plain(#[trigger] word[k]) by {
            if k > 0 {
                assert(word[k] == digits[k - 1]);
                assert(is_digit(digits[k - 1]));
            }
        }
    } else {
        lemma_digits_of_denote(i as nat);
        assert forall|k: int| 0 <= k < word.len() implies is_plain(#[trigger] word[k]) by {
            assert(is_digit(word[k]));
        }
    }
    lemma_plain_word_is_one_token(word);
}

/// How a literal is written in a source text.
pub open spec fn literal_source(v: ValueView) -> Seq<char> {
    value_debug_text(v)
}

/// Whether a value is one that the source text of a literal can stand
/// for: an integer, a string without a double quote in it, `t` or `nil`.
pub open spec fn is_written_literal(v: ValueView) -> bool {
    match v {
        ValueView::Int(_) => true,
        ValueView::String(s) => !s.contains('"'),
        ValueView::True => true,
        ValueView::Nil => true,
        _ => false,
    }
}

/// A literal, written alone on a line, parses to itself.
pub proof fn lemma_literal_parses_to_itself(v: ValueView, infix_repl: bool)
    requires
        is_written_literal(v),
    ensures
        parse_line_spec(literal_source(v), infix_repl) == Ok::<NodeView, ParserErrorView>(
            NodeView::Value(v),
        ),
{
    let source = literal_source(v);
    let tokens = seq![TokenView::Value(v), TokenView::EOF];
    match v {
        ValueView::Int(i) => {
            lemma_int_text_is_one_int(i);
        },
        ValueView::String(s) => {
            lemma_quoted_text_is_one_string(s);
        },
        ValueView::True => {
            reveal_strlit("t");
            reveal_strlit("nil");
            let word = "t"@;
            assert(is_plain(word[0]));
            lemma_plain_word_is_one_token(word);
            assert(!is_whitespace(word[0]));
            assert(trim_start(word) == word);
            assert(trim_end(word) == word);
            assert(parse_int(word) is None) by {
                assert(!is_digit(word[0]));
            }
        },
        ValueView::Nil => {
            reveal_strlit("t");
            reveal_strlit("nil");
            let word = "nil"@;
            assert forall|k: int| 0 <= k < word.len() implies is_plain(#[trigger] word[k]) by {}
            lemma_plain_word_is_one_token(word);
            assert(!is_whitespace(word[0]));
            assert(!is_whitespace(word.last()));
            assert(trim_start(word) == word);
            assert(trim_end(word) == word);
            assert(parse_int(word) is None) by {
                assert(!is_digit(word[0]));
            }
        },
        _ => {},
    }
    assert(tokenize_spec(source) == Ok::<Seq<TokenView>, CILexerError>(tokens));
    let tagged = seq![IntermediateTokenView::Value(v), IntermediateTokenView::EOF];
    assert(annotate_spec(tokens) == Ok::<Seq<IntermediateTokenView>, ParserErrorView>(tagged))
        by {
        let s0 = tokenizer_start();
        let (s1, e1) = tokenizer_step(s0, tokens[0]);
        let (s2, e2) = tokenizer_step(s1, tokens[1]);
        assert(annotate_from(tokens, 2, s2) == Ok::<Seq<IntermediateTokenView>, ParserErrorView>(
            s2.new_tokens,
        ));
        assert(annotate_from(tokens, 1, s1) == annotate_from(tokens, 2, s2));
        assert(annotate_from(tokens, 0, s0) == annotate_from(tokens, 1, s1));
        assert(s2.new_tokens =~= tagged);
    }
    lemma_value_parses_to_itself(v, infix_repl);
}

} // verus!
