use crate::syntax_tree_creator::{AnalyzeError, OptionalSymbols, SyntaxTreeCreator};
use crate::tokenizer::{
    Tokenizer, TokenizerError, compiles_all, first_failure, token_sources, white_space_sources,
};
use vstd::prelude::*;

verus! {

/// Why compiling a text failed.
#[derive(Debug, PartialEq, Eq)]
pub enum CompileError<E> {
    Tokenizer(TokenizerError),
    Analyze(AnalyzeError<E>),
}

/// A tokenizer and a grammar engine wired together: text in, value out.
pub struct Compiler<T, S, V, E, R, K> {
    tokenizer: Tokenizer<T>,
    pattern_analyzer: SyntaxTreeCreator<S, T, V, E, R, K>,
    program_token: S,
}

impl<
    T: PartialEq + Copy,
    S: PartialEq + Copy,
    V,
    E,
    R: Fn(Vec<V>) -> Result<V, E>,
    K: Fn(T, &str) -> V,
> Compiler<T, S, V, E, R, K> {
    pub closed spec fn spec_tokenizer(&self) -> Tokenizer<T> {
        self.tokenizer
    }

    pub closed spec fn spec_analyzer(&self) -> SyntaxTreeCreator<S, T, V, E, R, K> {
        self.pattern_analyzer
    }

    pub closed spec fn spec_program_token(&self) -> S {
        self.program_token
    }

    /// Builds the tokenizer from the token and whitespace patterns and the
    /// engine from the grammar; fails as the tokenizer does.
    pub fn new(
        tokens: Vec<(T, String)>,
        white_spaces_chars: Vec<&str>,
        patterns: Vec<(S, Vec<OptionalSymbols<S, T>>, R)>,
        program_token: S,
        token_and_value_to_func_result: K,
    ) -> (r: Result<Self, TokenizerError>)
        ensures
            r.is_ok() <==> compiles_all(token_sources(tokens@)) && compiles_all(
                white_space_sources(white_spaces_chars@),
            ),
            r matches Ok(c) ==> c.spec_tokenizer().spec_lexicon() == tokens@.map_values(
                |p: (T, String)| (p.0, p.1@),
            ) && c.spec_tokenizer().spec_white_spaces() == white_space_sources(white_spaces_chars@)
                && c.spec_analyzer().spec_patterns() == patterns@
                && c.spec_analyzer().spec_token_fn() == token_and_value_to_func_result
                && c.spec_program_token() == program_token,
            r matches Err(TokenizerError::PatternCompileError(p)) ==> first_failure(
                token_sources(tokens@),
                p@,
            ) || (compiles_all(token_sources(tokens@)) && first_failure(
                white_space_sources(white_spaces_chars@),
                p@,
            )),
            !(r matches Err(TokenizerError::NoMatchError(_))),
    {
        let tokenizer = Tokenizer::new(tokens, white_spaces_chars);
        match tokenizer {
            Ok(tokenizer) => Ok(
                Self {
                    tokenizer,
                    pattern_analyzer: SyntaxTreeCreator::new(
                        patterns,
                        token_and_value_to_func_result,
                    ),
                    program_token,
                },
            ),
            Err(e) => Err(e),
        }
    }

    /// Tokenizes `text` and analyses the tokens for the program symbol.
    pub fn compile(&self, text: &str) -> (r: Result<V, CompileError<E>>)
        requires
            self.spec_analyzer().well_formed(),
        ensures
            match self.spec_tokenizer().tokenize_spec(text@) {
                Err(d) => r matches Err(CompileError::Tokenizer(TokenizerError::NoMatchError(m)))
                    && m@ == d,
                Ok(toks) => r == match self.spec_analyzer().analyze_spec(
                    toks,
                    self.spec_program_token(),
                ) {
                    Ok(v) => Ok::<V, CompileError<E>>(v),
                    Err(e) => Err(CompileError::Analyze(e)),
                },
            },
    {
        let tokens = self.tokenizer.tokenize(text);
        match tokens {
            Ok(tokens) => {
                let value = self.pattern_analyzer.analyze(tokens, &self.program_token);
                match value {
                    Ok(v) => Ok(v),
                    Err(e) => Err(CompileError::Analyze(e)),
                }
            },
            Err(e) => Err(CompileError::Tokenizer(e)),
        }
    }
}

} // verus!
