use crate::syntax_tree_creator::lexemes;
use vstd::prelude::*;

verus! {

#[verifier::external_type_specification]
#[verifier::external_body]
pub struct ExRegex(regex::Regex);

#[verifier::external_type_specification]
#[verifier::external_body]
pub struct ExRegexError(regex::Error);

/// Where the regex crate finds the leftmost-first match of `pattern` in
/// `text`: the number of characters before it and its length in characters.
pub uninterp spec fn leftmost_match(pattern: Seq<char>, text: Seq<char>) -> Option<(nat, nat)>;

/// Whether the regex crate accepts `pattern` as a regular expression.
pub uninterp spec fn pattern_compiles(pattern: Seq<char>) -> bool;

/// What `pattern` matches at the very start of `text`. Where some match
/// starts there, the leftmost-first match does, and it is that match.
pub open spec fn anchored_match(pattern: Seq<char>, text: Seq<char>) -> Option<Seq<char>> {
    match leftmost_match(pattern, text) {
        Some((start, len)) => if start == 0 && len <= text.len() {
            Some(text.take(len as int))
        } else {
            None
        },
        None => None,
    }
}

/// Every pattern of `pats` compiles.
pub open spec fn compiles_all(pats: Seq<Seq<char>>) -> bool {
    forall|i: int| 0 <= i < pats.len() ==> pattern_compiles(#[trigger] pats[i])
}

/// `p` is the first pattern of `pats` that does not compile.
pub open spec fn first_failure(pats: Seq<Seq<char>>, p: Seq<char>) -> bool {
    exists|i: int|
        0 <= i < pats.len() && #[trigger] pats[i] == p && !pattern_compiles(p) && compiles_all(
            pats.take(i),
        )
}

/// The patterns of a lexicon.
pub open spec fn token_sources<T>(tokens: Seq<(T, String)>) -> Seq<Seq<char>> {
    tokens.map_values(|p: (T, String)| p.1@)
}

/// The whitespace patterns.
pub open spec fn white_space_sources(ws: Seq<&str>) -> Seq<Seq<char>> {
    ws.map_values(|p: &str| p@)
}

/// A regular expression together with the pattern it was compiled from.
pub struct Pattern {
    source: String,
    regex: regex::Regex,
}

impl Pattern {
    pub closed spec fn spec_source(&self) -> Seq<char> {
        self.source@
    }
}

/// Relies on regex::Regex::new: compiles `pattern`, and fails exactly when
/// the crate rejects it.
#[verifier::external_body]
fn compile_pattern(pattern: &str) -> (r: Result<Pattern, regex::Error>)
    ensures
        r.is_ok() == pattern_compiles(pattern@),
        r matches Ok(p) ==> p.spec_source() == pattern@,
{
    match regex::Regex::new(pattern) {
        Ok(regex) => Ok(Pattern { source: pattern.to_string(), regex }),
        Err(e) => Err(e),
    }
}

/// Relies on regex::Regex::find: the leftmost-first match in `text`, split
/// into the text before it, the match, and the text after it.
#[verifier::external_body]
fn find_match<'t>(p: &Pattern, text: &'t str) -> (r: Option<(&'t str, &'t str, &'t str)>)
    ensures
        match r {
            Some((before, m, after)) => leftmost_match(p.spec_source(), text@) == Some(
                (before@.len(), m@.len()),
            ) && text@ == before@ + m@ + after@,
            None => leftmost_match(p.spec_source(), text@).is_none(),
        },
{
    match p.regex.find(text) {
        Some(m) => Some((&text[..m.start()], m.as_str(), &text[m.end()..])),
        None => None,
    }
}

/// From a match found somewhere in a text (the text before it, the match,
/// the text after it), the match and the rest of the text where the match
/// starts the text and is not empty; an empty match would not advance.
pub fn leading_match<'t>(found: Option<(&'t str, &'t str, &'t str)>) -> (r: Option<
    (&'t str, &'t str),
>)
    ensures
        match found {
            Some((before, m, after)) => if before@.len() == 0 && m@.len() > 0 {
                r == Some((m, after))
            } else {
                r.is_none()
            },
            None => r.is_none(),
        },
{
    match found {
        Some((before, m, after)) => {
            if before.is_empty() && !m.is_empty() {
                Some((m, after))
            } else {
                None
            }
        },
        None => None,
    }
}

/// Errors of the tokenizer.
#[derive(Debug, Clone, PartialEq, Eq)]
pub enum TokenizerError {
    /// No pattern matched; holds the first characters of the unmatched rest.
    NoMatchError(String),
    /// A pattern is not a valid regular expression; holds the pattern.
    PatternCompileError(String),
}

impl TokenizerError {
    /// A description of the failure, for people.
    pub fn message(&self) -> (r: String)
        ensures
            r@ == match self {
                TokenizerError::NoMatchError(s) => "No Match Pattern was found "@ + s@,
                TokenizerError::PatternCompileError(s) => "Pattern does not compile "@ + s@,
            },
    {
        match self {
            TokenizerError::NoMatchError(s) => {
                let mut m = "No Match Pattern was found ".to_owned();
                m.append(s.as_str());
                m
            },
            TokenizerError::PatternCompileError(s) => {
                let mut m = "Pattern does not compile ".to_owned();
                m.append(s.as_str());
                m
            },
        }
    }
}

/// How many characters of the unmatched rest a `NoMatchError` shows.
pub const DIAGNOSTIC_LEN: usize = 10;

/// A non-empty match of one of the patterns, from the `i`-th on, that
/// fits in `text`: the first such.
pub open spec fn first_white_space(ws: Seq<Seq<char>>, text: Seq<char>, i: int) -> Option<
    Seq<char>,
>
    decreases ws.len() - i,
{
    if i < 0 || i >= ws.len() {
        None
    } else {
        match anchored_match(ws[i], text) {
            Some(m) => if 0 < m.len() <= text.len() {
                Some(m)
            } else {
                first_white_space(ws, text, i + 1)
            },
            None => first_white_space(ws, text, i + 1),
        }
    }
}

/// The kind and the lexeme of the first token pattern, from the `i`-th on,
/// with a non-empty match that fits in `text`.
pub open spec fn first_token<T>(lex: Seq<(T, Seq<char>)>, text: Seq<char>, i: int) -> Option<
    (T, Seq<char>),
>
    decreases lex.len() - i,
{
    if i < 0 || i >= lex.len() {
        None
    } else {
        match anchored_match(lex[i].1, text) {
            Some(m) => if 0 < m.len() <= text.len() {
                Some((lex[i].0, m))
            } else {
                first_token(lex, text, i + 1)
            },
            None => first_token(lex, text, i + 1),
        }
    }
}

proof fn lemma_first_white_space(ws: Seq<Seq<char>>, text: Seq<char>, i: int)
    ensures
        first_white_space(ws, text, i) matches Some(m) ==> 0 < m.len() <= text.len(),
    decreases ws.len() - i,
{
    if 0 <= i < ws.len() {
        lemma_first_white_space(ws, text, i + 1);
    }
}

proof fn lemma_first_token<T>(lex: Seq<(T, Seq<char>)>, text: Seq<char>, i: int)
    ensures
        first_token(lex, text, i) matches Some((k, m)) ==> 0 < m.len() <= text.len(),
    decreases lex.len() - i,
{
    if 0 <= i < lex.len() {
        lemma_first_token(lex, text, i + 1);
    }
}

/// `text` without its leading whitespace: whitespace patterns are tried in
/// order, starting over after every match.
pub open spec fn skip_white_spaces(ws: Seq<Seq<char>>, text: Seq<char>) -> Seq<char>
    decreases text.len(),
{
    match first_white_space(ws, text, 0) {
        Some(m) => if 0 < m.len() <= text.len() {
            skip_white_spaces(ws, text.skip(m.len() as int))
        } else {
            text
        },
        None => text,
    }
}

proof fn lemma_skip_white_spaces(ws: Seq<Seq<char>>, text: Seq<char>)
    ensures
        skip_white_spaces(ws, text).len() <= text.len(),
    decreases text.len(),
{
    if let Some(m) = first_white_space(ws, text, 0) {
        if 0 < m.len() <= text.len() {
            lemma_skip_white_spaces(ws, text.skip(m.len() as int));
        }
    }
}

/// The diagnostic that a failure on the rest `text` carries.
pub open spec fn diagnostic(text: Seq<char>) -> Seq<char> {
    if text.len() <= DIAGNOSTIC_LEN {
        text
    } else {
        text.take(DIAGNOSTIC_LEN as int)
    }
}

/// Tokenizing `text` after the tokens `acc`: the whole token sequence, or
/// the diagnostic of the rest where no pattern matched.
pub open spec fn tokenize_from<T>(
    lex: Seq<(T, Seq<char>)>,
    ws: Seq<Seq<char>>,
    text: Seq<char>,
    acc: Seq<(T, Seq<char>)>,
) -> Result<Seq<(T, Seq<char>)>, Seq<char>>
    decreases text.len(),
{
    let t = skip_white_spaces(ws, text);
    if t.len() == 0 {
        Ok(acc)
    } else {
        match first_token(lex, t, 0) {
            Some((k, m)) => if 0 < m.len() <= t.len() && t.len() <= text.len() {
                tokenize_from(lex, ws, t.skip(m.len() as int), acc.push((k, m)))
            } else {
                Ok(acc)
            },
            None => Err(diagnostic(t)),
        }
    }
}


/// A lexer: token patterns tried in declaration order, the first match
/// winning, and whitespace patterns skipped before each token.
pub struct Tokenizer<T> {
    regex_patterns: Vec<(T, Pattern)>,
    white_spaces_chars: Vec<Pattern>,
}

impl<T: Copy> Tokenizer<T> {
    /// The token kinds with their patterns, in declaration order.
    pub closed spec fn spec_lexicon(&self) -> Seq<(T, Seq<char>)> {
        self.regex_patterns@.map_values(|p: (T, Pattern)| (p.0, p.1.spec_source()))
    }

    /// The whitespace patterns, in declaration order.
    pub closed spec fn spec_white_spaces(&self) -> Seq<Seq<char>> {
        self.white_spaces_chars@.map_values(|p: Pattern| p.spec_source())
    }

    /// What tokenizing `text` gives.
    pub open spec fn tokenize_spec(&self, text: Seq<char>) -> Result<
        Seq<(T, Seq<char>)>,
        Seq<char>,
    > {
        tokenize_from(self.spec_lexicon(), self.spec_white_spaces(), text, seq![])
    }

    /// The rest of `text` after the first whitespace match, if any.
    fn match_white_space<'t>(&self, text: &'t str) -> (r: Option<&'t str>)
        ensures
            match first_white_space(self.spec_white_spaces(), text@, 0) {
                Some(m) => r matches Some(rest) && text@ == m + rest@,
                None => r.is_none(),
            },
    {
        let mut j: usize = 0;
        while j < self.white_spaces_chars.len()
            invariant
                j <= self.white_spaces_chars@.len(),
                first_white_space(self.spec_white_spaces(), text@, 0) == first_white_space(
                    self.spec_white_spaces(),
                    text@,
                    j as int,
                ),
            decreases self.white_spaces_chars.len() - j,
        {
            let found = find_match(&self.white_spaces_chars[j], text);
            proof {
                if let Some((before, m, rest)) = found {
                    if before@.len() == 0 {
                        assert(text@.take(m@.len() as int) =~= m@);
                        assert(text@ =~= m@ + rest@);
                    }
                }
            }
            match leading_match(found) {
                Some((_, rest)) => {
                    return Some(rest);
                },
                None => {},
            }
            j = j + 1;
        }
        None
    }

    /// `text` without its leading whitespace.
    fn clear_white_spaces<'t>(&self, text: &'t str) -> (r: &'t str)
        ensures
            r@ == skip_white_spaces(self.spec_white_spaces(), text@),
    {
        let ghost ws = self.spec_white_spaces();
        let mut rest_text = text;
        loop
            invariant
                ws == self.spec_white_spaces(),
                skip_white_spaces(ws, text@) == skip_white_spaces(ws, rest_text@),
            decreases rest_text@.len(),
        {
            let found = self.match_white_space(rest_text);
            match found {
                Some(rest) => {
                    proof {
                        lemma_first_white_space(ws, rest_text@, 0);
                        let m = first_white_space(ws, rest_text@, 0)->Some_0;
                        assert(rest@ =~= rest_text@.skip(m.len() as int));
                    }
                    rest_text = rest;
                },
                None => {
                    return rest_text;
                },
            }
        }
    }

    /// The first token pattern that matches at the start of `text`: its
    /// kind, the lexeme and the rest of `text`.
    fn match_token<'t>(&self, text: &'t str) -> (r: Result<(T, &'t str, &'t str), TokenizerError>)
        ensures
            match first_token(self.spec_lexicon(), text@, 0) {
                Some((k, m)) => r matches Ok((k2, w, rest)) && k2 == k && w@ == m && text@ == m
                    + rest@,
                None => r matches Err(TokenizerError::NoMatchError(d)) && d@ == diagnostic(text@),
            },
    {
        let mut j: usize = 0;
        while j < self.regex_patterns.len()
            invariant
                j <= self.regex_patterns@.len(),
                first_token(self.spec_lexicon(), text@, 0) == first_token(
                    self.spec_lexicon(),
                    text@,
                    j as int,
                ),
            decreases self.regex_patterns.len() - j,
        {
            let found = find_match(&self.regex_patterns[j].1, text);
            proof {
                if let Some((before, m, rest)) = found {
                    if before@.len() == 0 {
                        assert(text@.take(m@.len() as int) =~= m@);
                        assert(text@ =~= m@ + rest@);
                    }
                }
            }
            match leading_match(found) {
                Some((m, rest)) => {
                    return Ok((self.regex_patterns[j].0, m, rest));
                },
                None => {},
            }
            j = j + 1;
        }
        let n = text.unicode_len();
        let end = if n < DIAGNOSTIC_LEN {
            n
        } else {
            DIAGNOSTIC_LEN
        };
        let shown = text.substring_char(0, end);
        proof {
            assert(shown@ =~= diagnostic(text@));
        }
        Err(TokenizerError::NoMatchError(shown.to_owned()))
    }

    /// The tokens of `text`, in order, each with its kind and lexeme.
    pub fn tokenize<'t>(&self, text: &'t str) -> (r: Result<Vec<(T, &'t str)>, TokenizerError>)
        ensures
            match self.tokenize_spec(text@) {
                Ok(s) => r matches Ok(v) && lexemes(v@) == s,
                Err(d) => r matches Err(TokenizerError::NoMatchError(m)) && m@ == d,
            },
    {
        let ghost lex = self.spec_lexicon();
        let ghost ws = self.spec_white_spaces();
        let mut result: Vec<(T, &'t str)> = Vec::new();
        let mut rest_text = text;
        proof {
            assert(lexemes(result@) =~= seq![]);
        }
        loop
            invariant
                lex == self.spec_lexicon(),
                ws == self.spec_white_spaces(),
                self.tokenize_spec(text@) == tokenize_from(lex, ws, rest_text@, lexemes(result@)),
            decreases rest_text@.len(),
        {
            let t = self.clear_white_spaces(rest_text);
            proof {
                lemma_skip_white_spaces(ws, rest_text@);
                lemma_first_token(lex, t@, 0);
            }
            if t.is_empty() {
                return Ok(result);
            }
            let matched = self.match_token(t);
            match matched {
                Ok((k, w, rest)) => {
                    proof {
                        assert(rest@ =~= t@.skip(w@.len() as int));
                        assert(lexemes(result@.push((k, w))) =~= lexemes(result@).push((k, w@)));
                    }
                    result.push((k, w));
                    rest_text = rest;
                },
                Err(e) => {
                    return Err(e);
                },
            }
        }
    }

    /// Compiles the token patterns and the whitespace patterns, in order;
    /// fails on the first that is not a valid regular expression.
    pub fn new(tokens: Vec<(T, String)>, white_spaces_chars: Vec<&str>) -> (r: Result<
        Self,
        TokenizerError,
    >)
        ensures
            r.is_ok() <==> compiles_all(token_sources(tokens@)) && compiles_all(
                white_space_sources(white_spaces_chars@),
            ),
            r matches Ok(t) ==> t.spec_lexicon() == tokens@.map_values(
                |p: (T, String)| (p.0, p.1@),
            ) && t.spec_white_spaces() == white_space_sources(white_spaces_chars@),
            r matches Err(TokenizerError::PatternCompileError(p)) ==> first_failure(
                token_sources(tokens@),
                p@,
            ) || (compiles_all(token_sources(tokens@)) && first_failure(
                white_space_sources(white_spaces_chars@),
                p@,
            )),
            !(r matches Err(TokenizerError::NoMatchError(_))),
    {
        let ghost tp = token_sources(tokens@);
        let ghost wp = white_space_sources(white_spaces_chars@);
        let mut regex_patterns: Vec<(T, Pattern)> = Vec::new();
        let mut i: usize = 0;
        while i < tokens.len()
            invariant
                i <= tokens@.len(),
                tp == token_sources(tokens@),
                compiles_all(tp.take(i as int)),
                regex_patterns@.len() == i,
                forall|j: int|
                    0 <= j < i ==> (#[trigger] regex_patterns@[j]).0 == tokens@[j].0
                        && regex_patterns@[j].1.spec_source() == tokens@[j].1@,
            decreases tokens.len() - i,
        {
            let compiled = compile_pattern(tokens[i].1.as_str());
            match compiled {
                Ok(p) => {
                    let k = tokens[i].0;
                    regex_patterns.push((k, p));
                    assert(regex_patterns@[i as int].0 == tokens@[i as int].0);
                    assert(tp[i as int] == tokens@[i as int].1@);
                    assert(tp.take(i + 1) =~= tp.take(i as int).push(tp[i as int]));
                },
                Err(_) => {
                    proof {
                        assert(tp[i as int] == tokens@[i as int].1@);
                        assert(compiles_all(tp.take(i as int)));
                    }
                    return Err(TokenizerError::PatternCompileError(tokens[i].1.clone()));
                },
            }
            i = i + 1;
        }
        assert(tp.take(tokens@.len() as int) =~= tp);
        let mut white_spaces: Vec<Pattern> = Vec::new();
        let mut i: usize = 0;
        while i < white_spaces_chars.len()
            invariant
                i <= white_spaces_chars@.len(),
                tp == token_sources(tokens@),
                wp == white_space_sources(white_spaces_chars@),
                compiles_all(tp),
                compiles_all(wp.take(i as int)),
                white_spaces@.len() == i,
                forall|j: int|
                    0 <= j < i ==> #[trigger] white_spaces@[j].spec_source()
                        == white_spaces_chars@[j]@,
            decreases white_spaces_chars.len() - i,
        {
            let compiled = compile_pattern(white_spaces_chars[i]);
            match compiled {
                Ok(p) => {
                    white_spaces.push(p);
                    assert(wp[i as int] == white_spaces_chars@[i as int]@);
                    assert(wp.take(i + 1) =~= wp.take(i as int).push(wp[i as int]));
                },
                Err(_) => {
                    proof {
                        assert(wp[i as int] == white_spaces_chars@[i as int]@);
                        assert(compiles_all(wp.take(i as int)));
                        assert(compiles_all(tp));
                    }
                    return Err(TokenizerError::PatternCompileError(white_spaces_chars[i].to_owned()));
                },
            }
            i = i + 1;
        }
        let r = Self { regex_patterns, white_spaces_chars: white_spaces };
        assert(wp.take(white_spaces_chars@.len() as int) =~= wp);
        assert(compiles_all(wp));
        assert(r.spec_lexicon() =~= tokens@.map_values(|p: (T, String)| (p.0, p.1@)));
        assert(r.spec_white_spaces() =~= white_spaces_chars@.map_values(|p: &str| p@));
        Ok(r)
    }
}

/// Tokenizing is a function of the token patterns, the whitespace patterns
/// and the text: tokenizers with the same patterns give the same result on
/// the same text.
pub proof fn lemma_tokenize_deterministic<T: Copy>(a: &Tokenizer<T>, b: &Tokenizer<T>, text: Seq<char>)
    requires
        a.spec_lexicon() == b.spec_lexicon(),
        a.spec_white_spaces() == b.spec_white_spaces(),
    ensures
        a.tokenize_spec(text) == b.tokenize_spec(text),
{
}

} // verus!
