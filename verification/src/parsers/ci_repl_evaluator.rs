use crate::ast::{
    lemma_nodes_view_push, nodes_view, pair_node, string_node, symbol_node, AstNode, NodeView,
};
use crate::env::Environment;
use crate::parser_types::{missing_source_spec, CIParserError, EvalErrorView};
use crate::parsers::ci_evaluator::{
    eval_forms_spec, lemma_forms_values_len, Attempt, CIFileEvaluator, Emitted, EmittedView,
    FormsOutcome, SourceFile, SourceView, DEFAULT_MAX_DEPTH,
};
use vstd::prelude::*;

verus! {

/// The form that loads the source under `path`.
pub open spec fn include_form(path: Seq<char>) -> NodeView {
    pair_node(symbol_node("include"@), string_node(path))
}

/// The views of a sequence of strings.
pub open spec fn paths_view(paths: Seq<String>) -> Seq<Seq<char>> {
    paths.map_values(|p: String| p@)
}

/// The forms that one line of input stands for: one that loads each
/// preloaded source, in order, and then the form of the line.
pub open spec fn line_forms(preload: Seq<Seq<char>>, ast: NodeView) -> Seq<NodeView> {
    preload.map_values(|p: Seq<char>| include_form(p)).push(ast)
}

/// What evaluating one line returns, as a contract sees it.
pub open spec fn line_view(r: Result<AstNode, CIParserError>) -> Result<NodeView, EvalErrorView> {
    match r {
        Ok(node) => Ok(node@),
        Err(CIParserError::EvalError(e)) => Err(e@),
        Err(_) => arbitrary(),
    }
}

/// The value of a line: that of the last of its forms.
pub open spec fn line_result(o: FormsOutcome) -> Result<NodeView, EvalErrorView> {
    match o.result {
        Ok(values) => Ok(values.last()),
        Err(e) => Err(e),
    }
}

/// Evaluates the lines of a session. The sources named in `preload`
/// are loaded again before every line.
pub struct CIReplEvaluator {
    preload: Vec<String>,
    file_evaluator: CIFileEvaluator,
}

impl CIReplEvaluator {
    pub closed spec fn preload(&self) -> Seq<Seq<char>> {
        paths_view(self.preload@)
    }

    pub closed spec fn evaluator(&self) -> CIFileEvaluator {
        self.file_evaluator
    }

    pub fn new(preload: Vec<String>, initial_env: Environment) -> (r: Self)
        ensures
            r.preload() == paths_view(preload@),
            r.evaluator().env() == initial_env@,
            r.evaluator().sources() == Seq::<SourceView>::empty(),
            r.evaluator().max_depth() == DEFAULT_MAX_DEPTH,
            r.evaluator().output() == Seq::<EmittedView>::empty(),
    {
        Self { preload, file_evaluator: CIFileEvaluator::new(initial_env) }
    }

    /// The forms that the line `ast` stands for.
    fn forms_of_line(&self, ast: AstNode) -> (r: Vec<AstNode>)
        ensures
            nodes_view(r@) == line_forms(self.preload(), ast@),
    {
        let ghost paths = self.preload();
        let mut forms: Vec<AstNode> = Vec::new();
        let mut i: usize = 0;
        assert(nodes_view(forms@) =~= paths.subrange(0, 0).map_values(
            |p: Seq<char>| include_form(p),
        ));
        while i < self.preload.len()
            invariant
                i <= self.preload.len(),
                paths == paths_view(self.preload@),
                nodes_view(forms@) == paths.subrange(0, i as int).map_values(
                    |p: Seq<char>| include_form(p),
                ),
            decreases self.preload.len() - i,
        {
            let form = AstNode::pair(
                AstNode::symbol("include"),
                AstNode::string(self.preload[i].clone()),
            );
            proof {
                lemma_nodes_view_push(forms@, form);
                assert(nodes_view(forms@).push(form@) =~= paths.subrange(0, i + 1).map_values(
                    |p: Seq<char>| include_form(p),
                ));
            }
            forms.push(form);
            i += 1;
        }
        proof {
            assert(paths.subrange(0, i as int) =~= paths);
            lemma_nodes_view_push(forms@, ast);
        }
        forms.push(ast);
        forms
    }

    /// Evaluates one line as `parse` does, unless the evaluation fails for
    /// want of a source: then it hands out the path, and the evaluator
    /// stays as it was, so that the line can be tried again once the
    /// source has been added.
    pub fn try_line(&mut self, ast: AstNode) -> (r: Attempt<AstNode>)
        ensures
            final(self).preload() == old(self).preload(),
            final(self).evaluator().sources() == old(self).evaluator().sources(),
            final(self).evaluator().max_depth() == old(self).evaluator().max_depth(),
            ({
                let whole = eval_forms_spec(
                    line_forms(old(self).preload(), ast@),
                    old(self).evaluator().env(),
                    old(self).evaluator().sources(),
                    old(self).evaluator().max_depth(),
                );
                let missing = match whole.result {
                    Ok(_) => None,
                    Err(e) => missing_source_spec(e),
                };
                match r {
                    Attempt::NeedSource(path) => {
                        &&& missing == Some(path@)
                        &&& final(self).evaluator().env() == old(self).evaluator().env()
                        &&& final(self).evaluator().output() == old(self).evaluator().output()
                    },
                    Attempt::Done(done) => {
                        &&& missing is None
                        &&& done is Err ==> done->Err_0 is EvalError
                        &&& line_view(done) == line_result(whole)
                        &&& final(self).evaluator().env() == whole.env
                        &&& final(self).evaluator().output() == old(self).evaluator().output()
                            + whole.emitted
                    },
                }
            }),
    {
        let forms = self.forms_of_line(ast);
        proof {
            lemma_forms_values_len(
                nodes_view(forms@),
                self.file_evaluator.env(),
                self.file_evaluator.sources(),
                self.file_evaluator.max_depth(),
            );
        }
        match self.file_evaluator.try_parse(&forms) {
            Attempt::NeedSource(path) => Attempt::NeedSource(path),
            Attempt::Done(Ok(values)) => {
                let last = values.len() - 1;
                Attempt::Done(Ok(values[last].clone()))
            },
            Attempt::Done(Err(e)) => Attempt::Done(Err(e)),
        }
    }

    /// Evaluates one line: loads the preloaded sources, then evaluates
    /// `ast`, all in the environment that the line before left.
    pub fn parse(&mut self, ast: AstNode) -> (r: Result<AstNode, CIParserError>)
        ensures
            r is Err ==> r->Err_0 is EvalError,
            line_view(r) == line_result(
                eval_forms_spec(
                    line_forms(old(self).preload(), ast@),
                    old(self).evaluator().env(),
                    old(self).evaluator().sources(),
                    old(self).evaluator().max_depth(),
                ),
            ),
            final(self).evaluator().env() == eval_forms_spec(
                line_forms(old(self).preload(), ast@),
                old(self).evaluator().env(),
                old(self).evaluator().sources(),
                old(self).evaluator().max_depth(),
            ).env,
            final(self).evaluator().output() == old(self).evaluator().output() + eval_forms_spec(
                line_forms(old(self).preload(), ast@),
                old(self).evaluator().env(),
                old(self).evaluator().sources(),
                old(self).evaluator().max_depth(),
            ).emitted,
            final(self).preload() == old(self).preload(),
            final(self).evaluator().sources() == old(self).evaluator().sources(),
            final(self).evaluator().max_depth() == old(self).evaluator().max_depth(),
    {
        let forms = self.forms_of_line(ast);
        proof {
            lemma_forms_values_len(
                nodes_view(forms@),
                self.file_evaluator.env(),
                self.file_evaluator.sources(),
                self.file_evaluator.max_depth(),
            );
        }
        match self.file_evaluator.parse(forms) {
            Ok(values) => {
                let last = values.len() - 1;
                Ok(values[last].clone())
            },
            Err(e) => Err(e),
        }
    }

    /// The environment that the next line will be evaluated in.
    pub fn current_env(&self) -> (r: Environment)
        ensures
            r@ == self.evaluator().env(),
    {
        self.file_evaluator.current_env()
    }

    /// Sets the deepest nesting that an evaluation may reach.
    pub fn set_max_depth(&mut self, depth: usize)
        ensures
            final(self).evaluator().max_depth() == depth,
            final(self).evaluator().env() == old(self).evaluator().env(),
            final(self).evaluator().sources() == old(self).evaluator().sources(),
            final(self).evaluator().output() == old(self).evaluator().output(),
            final(self).preload() == old(self).preload(),
    {
        self.file_evaluator.set_max_depth(depth);
    }

    /// Lets the lines load `source`.
    pub fn add_source(&mut self, source: SourceFile)
        ensures
            final(self).evaluator().sources() == old(self).evaluator().sources().push(source@),
            final(self).evaluator().env() == old(self).evaluator().env(),
            final(self).evaluator().max_depth() == old(self).evaluator().max_depth(),
            final(self).evaluator().output() == old(self).evaluator().output(),
            final(self).preload() == old(self).preload(),
    {
        self.file_evaluator.add_source(source);
    }

    /// Hands out what the lines have emitted so far.
    pub fn take_output(&mut self) -> (r: Vec<Emitted>)
        ensures
            crate::parsers::ci_evaluator::emitted_view(r@) == old(self).evaluator().output(),
            final(self).evaluator().output() == Seq::<EmittedView>::empty(),
            final(self).evaluator().env() == old(self).evaluator().env(),
            final(self).evaluator().sources() == old(self).evaluator().sources(),
            final(self).evaluator().max_depth() == old(self).evaluator().max_depth(),
            final(self).preload() == old(self).preload(),
    {
        self.file_evaluator.take_output()
    }
}

} // verus!
