use crate::ast::{
    itokens_view, lemma_nodes_view_push, nodes_view, AstNode, IntermediateToken,
    IntermediateTokenView, NodeView,
};
use crate::parser_types::{CIParserError, ParserErrorView};
use crate::parsers::ci_new_parser::parsed_all_view;
use crate::parsers::ci_parser_step::{pass_spec, ParserStep};
use vstd::prelude::*;

verus! {

/// The most passes that the parser makes over one input.
pub const MAX_ITERATIONS: usize = 1000;

/// Whether every token is a form.
pub open spec fn all_forms(tokens: Seq<IntermediateTokenView>) -> bool {
    forall|i: int| 0 <= i < tokens.len() ==> (#[trigger] tokens[i]) is AstNode
}

/// The forms that the tokens are, where every token is one.
pub open spec fn forms_of(tokens: Seq<IntermediateTokenView>) -> Seq<NodeView> {
    tokens.map_values(|t: IntermediateTokenView| t->AstNode_0)
}

/// The forms that `tokens` come to when pass follows pass until every
/// token is a form; an error where `rounds` passes are not enough.
pub open spec fn reduce_spec(tokens: Seq<IntermediateTokenView>, rounds: nat) -> Result<
    Seq<NodeView>,
    ParserErrorView,
>
    decreases rounds,
{
    if all_forms(tokens) {
        Ok(forms_of(tokens))
    } else if rounds == 0 {
        Err(ParserErrorView::ParsingUnfinished)
    } else {
        match pass_spec(tokens) {
            Err(e) => Err(e),
            Ok(next) => reduce_spec(next, (rounds - 1) as nat),
        }
    }
}

/// The parser that works from the inside out, pass after pass, and gives
/// up after `MAX_ITERATIONS` passes.
#[derive(Default)]
pub struct CIFinalParser {}

impl CIFinalParser {
    pub fn parsing_is_done(tokens: &Vec<IntermediateToken>) -> (r: bool)
        ensures
            r == all_forms(itokens_view(tokens@)),
    {
        let ghost all = itokens_view(tokens@);
        let mut i: usize = 0;
        while i < tokens.len()
            invariant
                i <= tokens.len(),
                all == itokens_view(tokens@),
                forall|j: int| 0 <= j < i ==> (#[trigger] all[j]) is AstNode,
            decreases tokens.len() - i,
        {
            match &tokens[i] {
                IntermediateToken::AstNode(_) => {},
                _ => {
                    assert(!(all[i as int] is AstNode));
                    return false;
                },
            }
            i += 1;
        }
        true
    }

    pub fn complete_parsing(tokens: Vec<IntermediateToken>) -> (r: Result<
        Vec<AstNode>,
        CIParserError,
    >)
        ensures
            all_forms(itokens_view(tokens@)) ==> parsed_all_view(r) == Ok::<
                Seq<NodeView>,
                ParserErrorView,
            >(forms_of(itokens_view(tokens@))),
            !all_forms(itokens_view(tokens@)) ==> parsed_all_view(r) == Err::<
                Seq<NodeView>,
                ParserErrorView,
            >(ParserErrorView::ParsingUnfinished),
    {
        let ghost all = itokens_view(tokens@);
        let mut nodes: Vec<AstNode> = Vec::new();
        let mut i: usize = 0;
        assert(nodes_view(nodes@) =~= forms_of(all.subrange(0, 0)));
        while i < tokens.len()
            invariant
                i <= tokens.len(),
                all == itokens_view(tokens@),
                forall|j: int| 0 <= j < i ==> (#[trigger] all[j]) is AstNode,
                nodes_view(nodes@) == forms_of(all.subrange(0, i as int)),
            decreases tokens.len() - i,
        {
            match &tokens[i] {
                IntermediateToken::AstNode(a) => {
                    let node = a.clone();
                    proof {
                        lemma_nodes_view_push(nodes@, node);
                        assert(forms_of(all.subrange(0, i as int)).push(node@) =~= forms_of(
                            all.subrange(0, i + 1),
                        ));
                    }
                    nodes.push(node);
                },
                _ => {
                    assert(!(all[i as int] is AstNode));
                    return Err(CIParserError::ParsingUnfinished);
                },
            }
            i += 1;
        }
        assert(all.subrange(0, i as int) =~= all);
        Ok(nodes)
    }

    pub fn parse(&self, tokens: Vec<IntermediateToken>) -> (r: Result<Vec<AstNode>, CIParserError>)
        ensures
            parsed_all_view(r) == reduce_spec(itokens_view(tokens@), MAX_ITERATIONS as nat),
    {
        let ghost start = itokens_view(tokens@);
        let mut current = tokens;
        let mut iterations: usize = 0;
        while !Self::parsing_is_done(&current)
            invariant
                iterations <= MAX_ITERATIONS,
                start == itokens_view(tokens@),
                reduce_spec(start, MAX_ITERATIONS as nat) == reduce_spec(
                    itokens_view(current@),
                    (MAX_ITERATIONS - iterations) as nat,
                ),
            decreases MAX_ITERATIONS - iterations,
        {
            if iterations >= MAX_ITERATIONS {
                return Err(CIParserError::ParsingUnfinished);
            }
            iterations += 1;
            let parser_step = ParserStep {  };
            current = match parser_step.parse(current) {
                Ok(next) => next,
                Err(e) => {
                    return Err(e);
                },
            };
        }
        Self::complete_parsing(current)
    }
}

} // verus!
