use vstd::prelude::*;
use vstd::std_specs::cmp::PartialEqSpec;

verus! {

/// How deep nonterminals may nest while one input is analysed; deeper
/// nesting ends the analysis with `NestingTooDeep` instead of exhausting the
/// native stack.
pub const MAX_NESTING: usize = 512;

/// Structural failures of the engine.
#[derive(Debug, Clone, Copy, PartialEq, Eq, Structural)]
pub enum SyntaxTreeCreatorError {
    /// A terminal was required but the stream was already exhausted.
    UnexpectedEOF,
    /// No production for a required symbol matched at its position.
    SymbolNotFound,
    /// Nonterminals nested deeper than `MAX_NESTING`.
    NestingTooDeep,
}

impl SyntaxTreeCreatorError {
    /// A description of the failure, for people.
    pub fn message(&self) -> (r: String)
        ensures
            r@ == match self {
                SyntaxTreeCreatorError::UnexpectedEOF => "Unexpected End of File"@,
                SyntaxTreeCreatorError::SymbolNotFound => "Symbol Not Found"@,
                SyntaxTreeCreatorError::NestingTooDeep => "Nesting Too Deep"@,
            },
    {
        match self {
            SyntaxTreeCreatorError::UnexpectedEOF => "Unexpected End of File".to_owned(),
            SyntaxTreeCreatorError::SymbolNotFound => "Symbol Not Found".to_owned(),
            SyntaxTreeCreatorError::NestingTooDeep => "Nesting Too Deep".to_owned(),
        }
    }
}

/// Why an analysis failed: a structural failure, or the error that a
/// production's reducer raised.
#[derive(Debug, PartialEq, Eq)]
pub enum AnalyzeError<E> {
    Syntax(SyntaxTreeCreatorError),
    Semantic(E),
}

impl<E> AnalyzeError<E> {
    /// A failure after which the next alternative is tried.
    pub open spec fn is_soft(&self) -> bool {
        self == AnalyzeError::<E>::Syntax(SyntaxTreeCreatorError::UnexpectedEOF)
            || self == AnalyzeError::<E>::Syntax(SyntaxTreeCreatorError::SymbolNotFound)
    }
}

/// One element of a production body.
#[derive(Debug, Clone, Copy, PartialEq, Eq, Hash)]
pub enum OptionalSymbols<S, T> {
    /// A nonterminal, expanded through its own productions.
    Symbol(S),
    /// A terminal, matched against the kind of the next token.
    Token(T),
    /// Matches only at the end of the token stream.
    EOF,
}

/// A cursor over a vector whose position can be saved and restored.
pub struct StateableIterator<'t, X> {
    values: &'t Vec<X>,
    index: usize,
}

impl<'t, X> StateableIterator<'t, X> {
    pub closed spec fn spec_values(&self) -> Seq<X> {
        self.values@
    }

    pub closed spec fn spec_index(&self) -> nat {
        self.index as nat
    }

    pub fn new(values: &'t Vec<X>) -> (r: Self)
        ensures
            r.spec_values() == values@,
            r.spec_index() == 0,
    {
        Self { values, index: 0 }
    }

    pub fn get_state(&self) -> (r: usize)
        ensures
            r == self.spec_index(),
    {
        self.index
    }

    pub fn set_state(&mut self, state: usize)
        ensures
            final(self).spec_index() == state,
            final(self).spec_values() == old(self).spec_values(),
    {
        self.index = state;
    }

    /// Whether the cursor stands past the last element.
    pub fn is_done(&self) -> (r: bool)
        ensures
            r == (self.spec_index() >= self.spec_values().len()),
    {
        self.index >= self.values.len()
    }

    /// The element under the cursor, moving past it; `None` at the end.
    pub fn next(&mut self) -> (r: Option<&'t X>)
        ensures
            final(self).spec_values() == old(self).spec_values(),
            old(self).spec_index() < old(self).spec_values().len() ==> r == Some(
                &old(self).spec_values()[old(self).spec_index() as int],
            ) && final(self).spec_index() == old(self).spec_index() + 1,
            old(self).spec_index() >= old(self).spec_values().len() ==> r.is_none()
                && final(self).spec_index() == old(self).spec_index(),
    {
        if self.index < self.values.len() {
            self.index = self.index + 1;
            Some(&self.values[self.index - 1])
        } else {
            None
        }
    }
}

/// `r` is a result the reducer may return for some vector with view `args`.
pub open spec fn reduces_to<V, E, R: Fn(Vec<V>) -> Result<V, E>>(
    f: R,
    args: Seq<V>,
    r: Result<V, E>,
) -> bool {
    exists|a: Vec<V>| a@ == args && #[trigger] call_ensures(f, (a,), r)
}

/// The value a reducer returns for arguments with this view.
pub open spec fn reduce_of<V, E, R: Fn(Vec<V>) -> Result<V, E>>(f: R, args: Seq<V>) -> Result<
    V,
    E,
> {
    choose|r: Result<V, E>| #[trigger] reduces_to(f, args, r)
}

/// `r` is a value the token mapping may give for kind `t` and a lexeme
/// with view `w`.
pub open spec fn maps_to<T, V, K: Fn(T, &str) -> V>(f: K, t: T, w: Seq<char>, r: V) -> bool {
    exists|s: &str| s@ == w && #[trigger] call_ensures(f, (t, s), r)
}

/// The value that the token mapping gives for a token kind and lexeme.
pub open spec fn value_of<T, V, K: Fn(T, &str) -> V>(f: K, t: T, w: Seq<char>) -> V {
    choose|r: V| #[trigger] maps_to(f, t, w, r)
}

/// The kinds and lexemes of a token vector.
pub open spec fn lexemes<T>(v: Seq<(T, &str)>) -> Seq<(T, Seq<char>)> {
    v.map_values(|p: (T, &str)| (p.0, p.1@))
}

/// A reducer that accepts every argument list and whose result depends on
/// the arguments alone.
pub open spec fn is_reducer_function<V, E, R: Fn(Vec<V>) -> Result<V, E>>(f: R) -> bool {
    &&& forall|a: Vec<V>| call_requires(f, (a,))
    &&& forall|a1: Vec<V>, a2: Vec<V>, r1: Result<V, E>, r2: Result<V, E>|
        a1@ == a2@ && #[trigger] call_ensures(f, (a1,), r1) && #[trigger] call_ensures(
            f,
            (a2,),
            r2,
        ) ==> r1 == r2
}

/// A token mapping that accepts every token and whose result depends on its
/// arguments alone.
pub open spec fn is_token_function<T, V, K: Fn(T, &str) -> V>(f: K) -> bool {
    &&& forall|t: T, w: &str| call_requires(f, (t, w))
    &&& forall|t: T, w1: &str, w2: &str, r1: V, r2: V|
        w1@ == w2@ && #[trigger] call_ensures(f, (t, w1), r1) && #[trigger] call_ensures(
            f,
            (t, w2),
            r2,
        ) ==> r1 == r2
}

/// The engine: an ordered grammar of productions, each a head, a body and a
/// reducer, and a mapping from tokens to values.
pub struct SyntaxTreeCreator<S, T, V, E, R, K> {
    patterns: Vec<(S, Vec<OptionalSymbols<S, T>>, R)>,
    token_and_value_to_func_result: K,
    results: core::marker::PhantomData<(V, E)>,
}

/// Sets every flag of an exclusion set to `false`.
fn clear_exclusions(excl: &mut Vec<bool>)
    ensures
        final(excl)@ == Seq::new(old(excl)@.len(), |i: int| false),
{
    let n = excl.len();
    let mut i: usize = 0;
    while i < n
        invariant
            excl@.len() == n,
            i <= n,
            forall|j: int| 0 <= j < i ==> !excl@[j],
        decreases n - i,
    {
        excl.set(i, false);
        i = i + 1;
    }
    assert(excl@ =~= Seq::new(n as nat, |i: int| false));
}

/// A copy of an exclusion set.
fn copy_exclusions(excl: &Vec<bool>) -> (r: Vec<bool>)
    ensures
        r@ == excl@,
{
    let mut r: Vec<bool> = Vec::new();
    let mut i: usize = 0;
    while i < excl.len()
        invariant
            i <= excl@.len(),
            r@ == excl@.subrange(0, i as int),
        decreases excl.len() - i,
    {
        r.push(excl[i]);
        i = i + 1;
    }
    assert(r@ =~= excl@);
    r
}

impl<
    S: PartialEq + Copy,
    T: PartialEq + Copy,
    V,
    E,
    R: Fn(Vec<V>) -> Result<V, E>,
    K: Fn(T, &str) -> V,
> SyntaxTreeCreator<S, T, V, E, R, K> {
    /// The productions, in declaration order.
    pub closed spec fn spec_patterns(&self) -> Seq<(S, Vec<OptionalSymbols<S, T>>, R)> {
        self.patterns@
    }

    /// The mapping from a token kind and its lexeme to a value.
    pub closed spec fn spec_token_fn(&self) -> K {
        self.token_and_value_to_func_result
    }

    /// Equality on kinds behaves as its specification says, every reducer
    /// and the token mapping are functions of their arguments.
    pub open spec fn well_formed(&self) -> bool {
        &&& S::obeys_eq_spec()
        &&& T::obeys_eq_spec()
        &&& forall|i: int|
            0 <= i < self.spec_patterns().len() ==> is_reducer_function(
                #[trigger] self.spec_patterns()[i].2,
            )
        &&& is_token_function(self.spec_token_fn())
    }

    pub open spec fn body(&self, prod: int) -> Seq<OptionalSymbols<S, T>> {
        self.spec_patterns()[prod].1@
    }

    pub open spec fn reduce(&self, prod: int, args: Seq<V>) -> Result<V, E> {
        reduce_of(self.spec_patterns()[prod].2, args)
    }

    pub open spec fn token_value(&self, t: T, w: Seq<char>) -> V {
        value_of(self.spec_token_fn(), t, w)
    }

    /// The exclusion set that excludes no production.
    pub open spec fn no_exclusions(&self) -> Seq<bool> {
        Seq::new(self.spec_patterns().len(), |i: int| false)
    }

    /// The indices among the first `k` productions whose head is `sym`, in order.
    pub open spec fn with_head(&self, sym: S, k: int) -> Seq<usize>
        decreases k,
    {
        if k <= 0 {
            seq![]
        } else if self.spec_patterns()[k - 1].0.eq_spec(&sym) {
            self.with_head(sym, k - 1).push((k - 1) as usize)
        } else {
            self.with_head(sym, k - 1)
        }
    }

    /// The first `k` of `cands` that `excl` does not exclude, in order.
    pub open spec fn not_excluded(cands: Seq<usize>, excl: Seq<bool>, k: int) -> Seq<usize>
        decreases k,
    {
        if k <= 0 {
            seq![]
        } else if !excl[cands[k - 1] as int] {
            Self::not_excluded(cands, excl, k - 1).push(cands[k - 1])
        } else {
            Self::not_excluded(cands, excl, k - 1)
        }
    }

    /// The productions tried for `sym` under the exclusion set `excl`.
    pub open spec fn candidates(&self, sym: S, excl: Seq<bool>) -> Seq<usize> {
        let heads = self.with_head(sym, self.spec_patterns().len() as int);
        Self::not_excluded(heads, excl, heads.len() as int)
    }

    /// Resolving `sym` at position `pos` of `toks`: the value and the
    /// position after it, or the failure.
    pub open spec fn find_spec(
        &self,
        toks: Seq<(T, Seq<char>)>,
        pos: nat,
        sym: S,
        excl: Seq<bool>,
        fuel: nat,
    ) -> Result<(V, nat), AnalyzeError<E>>
        decreases fuel, 2int, 0int,
    {
        self.try_spec(toks, pos, self.candidates(sym, excl), 0, excl, fuel)
    }

    /// Trying the candidates from the `k`-th on, each from position `pos`;
    /// the exclusion set is threaded from one attempt to the next.
    pub open spec fn try_spec(
        &self,
        toks: Seq<(T, Seq<char>)>,
        pos: nat,
        cands: Seq<usize>,
        k: nat,
        excl: Seq<bool>,
        fuel: nat,
    ) -> Result<(V, nat), AnalyzeError<E>>
        decreases fuel, 1int, cands.len() - k,
    {
        if k >= cands.len() {
            Err(AnalyzeError::Syntax(SyntaxTreeCreatorError::SymbolNotFound))
        } else {
            let c = cands[k as int] as int;
            let m = self.match_spec(toks, c, 0, pos, excl, seq![], fuel);
            match m.0 {
                Ok((vals, p)) => match self.reduce(c, vals) {
                    Ok(v) => Ok((v, p)),
                    Err(e) => Err(AnalyzeError::Semantic(e)),
                },
                Err(e) => if e.is_soft() {
                    self.try_spec(toks, pos, cands, k + 1, m.1, fuel)
                } else {
                    Err(e)
                },
            }
        }
    }

    /// Matching the body of production `prod` from its `i`-th element at
    /// position `pos`, with the values `acc` gathered so far: the values
    /// and the position after the body, or the failure; and the exclusion
    /// set afterwards.
    pub open spec fn match_spec(
        &self,
        toks: Seq<(T, Seq<char>)>,
        prod: int,
        i: nat,
        pos: nat,
        excl: Seq<bool>,
        acc: Seq<V>,
        fuel: nat,
    ) -> (Result<(Seq<V>, nat), AnalyzeError<E>>, Seq<bool>)
        decreases fuel, 0int, self.body(prod).len() - i,
    {
        let body = self.body(prod);
        if i >= body.len() {
            (Ok((acc, pos)), excl)
        } else {
            match body[i as int] {
                OptionalSymbols::Token(t) => if pos >= toks.len() {
                    (Err(AnalyzeError::Syntax(SyntaxTreeCreatorError::UnexpectedEOF)), excl)
                } else if !t.eq_spec(&toks[pos as int].0) {
                    (Err(AnalyzeError::Syntax(SyntaxTreeCreatorError::SymbolNotFound)), excl)
                } else {
                    self.match_spec(
                        toks,
                        prod,
                        i + 1,
                        pos + 1,
                        self.no_exclusions(),
                        acc.push(self.token_value(t, toks[pos as int].1)),
                        fuel,
                    )
                },
                OptionalSymbols::Symbol(s) => if fuel == 0 {
                    (Err(AnalyzeError::Syntax(SyntaxTreeCreatorError::NestingTooDeep)), excl)
                } else {
                    let sub = if i == 0 {
                        excl.update(prod, true)
                    } else {
                        excl
                    };
                    match self.find_spec(toks, pos, s, sub, (fuel - 1) as nat) {
                        Ok((v, p)) => self.match_spec(toks, prod, i + 1, p, excl, acc.push(v), fuel),
                        Err(e) => (Err(e), excl),
                    }
                },
                OptionalSymbols::EOF => if pos >= toks.len() {
                    self.match_spec(toks, prod, i + 1, pos, self.no_exclusions(), acc, fuel)
                } else {
                    (Err(AnalyzeError::Syntax(SyntaxTreeCreatorError::SymbolNotFound)), excl)
                },
            }
        }
    }

    /// What analysing `toks` for `sym` gives.
    pub open spec fn analyze_spec(&self, toks: Seq<(T, Seq<char>)>, sym: S) -> Result<V, AnalyzeError<E>> {
        match self.find_spec(toks, 0, sym, self.no_exclusions(), MAX_NESTING as nat) {
            Ok((v, _)) => Ok(v),
            Err(e) => Err(e),
        }
    }

    /// The indices of the productions whose head is `symbol`, in order.
    fn filter_patterns_by_symbol(&self, symbol: &S) -> (r: Vec<usize>)
        requires
            S::obeys_eq_spec(),
        ensures
            r@ == self.with_head(*symbol, self.spec_patterns().len() as int),
            forall|j: int| 0 <= j < r@.len() ==> r@[j] < self.spec_patterns().len(),
    {
        let mut r: Vec<usize> = Vec::new();
        let mut i: usize = 0;
        while i < self.patterns.len()
            invariant
                S::obeys_eq_spec(),
                i <= self.patterns@.len(),
                r@ == self.with_head(*symbol, i as int),
                forall|j: int| 0 <= j < r@.len() ==> r@[j] < i,
            decreases self.patterns.len() - i,
        {
            if self.patterns[i].0 == *symbol {
                r.push(i);
            }
            i = i + 1;
        }
        r
    }

    /// The indices in `patterns` that `exclude_patterns` does not exclude, in order.
    fn filter_patterns_with_excluded_patterns(
        exclude_patterns: &Vec<bool>,
        patterns: &Vec<usize>,
    ) -> (r: Vec<usize>)
        requires
            forall|j: int| 0 <= j < patterns@.len() ==> patterns@[j] < exclude_patterns@.len(),
        ensures
            r@ == Self::not_excluded(patterns@, exclude_patterns@, patterns@.len() as int),
            forall|j: int| 0 <= j < r@.len() ==> r@[j] < exclude_patterns@.len(),
    {
        let mut r: Vec<usize> = Vec::new();
        let mut i: usize = 0;
        while i < patterns.len()
            invariant
                forall|j: int| 0 <= j < patterns@.len() ==> patterns@[j] < exclude_patterns@.len(),
                i <= patterns@.len(),
                r@ == Self::not_excluded(patterns@, exclude_patterns@, i as int),
                forall|j: int| 0 <= j < r@.len() ==> r@[j] < exclude_patterns@.len(),
            decreases patterns.len() - i,
        {
            let c = patterns[i];
            if !exclude_patterns[c] {
                r.push(c);
            }
            i = i + 1;
        }
        r
    }

    /// Matches the body of production `prod` at the cursor.
    #[verifier::loop_isolation(false)]
    fn match_pattern<'t, 'w>(
        &self,
        prod: usize,
        tokens: &mut StateableIterator<'t, (T, &'w str)>,
        exclude_patterns: &mut Vec<bool>,
        fuel: usize,
    ) -> (r: Result<Vec<V>, AnalyzeError<E>>)
        requires
            self.well_formed(),
            prod < self.spec_patterns().len(),
            old(exclude_patterns)@.len() == self.spec_patterns().len(),
            old(tokens).spec_index() <= old(tokens).spec_values().len(),
        ensures
            final(tokens).spec_values() == old(tokens).spec_values(),
            final(tokens).spec_index() <= final(tokens).spec_values().len(),
            final(exclude_patterns)@.len() == self.spec_patterns().len(),
            ({
                let m = self.match_spec(
                    lexemes(old(tokens).spec_values()),
                    prod as int,
                    0,
                    old(tokens).spec_index(),
                    old(exclude_patterns)@,
                    seq![],
                    fuel as nat,
                );
                &&& final(exclude_patterns)@ == m.1
                &&& (m.0 matches Ok((vals, p)) ==> r matches Ok(v) && v@ == vals
                    && final(tokens).spec_index() == p)
                &&& (m.0 matches Err(e) ==> r == Err::<Vec<V>, AnalyzeError<E>>(e))
            }),
        decreases fuel, 0int, 0int,
    {
        let ghost vals = old(tokens).spec_values();
        let ghost toks = lexemes(vals);
        let ghost start = self.match_spec(
            toks,
            prod as int,
            0,
            tokens.spec_index(),
            exclude_patterns@,
            seq![],
            fuel as nat,
        );
        let body = &self.patterns[prod].1;
        let mut values: Vec<V> = Vec::new();
        let mut i: usize = 0;
        while i < body.len()
            invariant
                self.well_formed(),
                prod < self.spec_patterns().len(),
                body@ == self.body(prod as int),
                i <= body@.len(),
                tokens.spec_values() == vals,
                toks == lexemes(vals),
                tokens.spec_index() <= toks.len(),
                exclude_patterns@.len() == self.spec_patterns().len(),
                start == self.match_spec(
                    toks,
                    prod as int,
                    i as nat,
                    tokens.spec_index(),
                    exclude_patterns@,
                    values@,
                    fuel as nat,
                ),
            decreases body.len() - i,
        {
            match &body[i] {
                OptionalSymbols::Token(t) => {
                    let t = *t;
                    let next = tokens.next();
                    match next {
                        None => {
                            return Err(AnalyzeError::Syntax(SyntaxTreeCreatorError::UnexpectedEOF));
                        },
                        Some(pair) => {
                            if !(t == pair.0) {
                                return Err(
                                    AnalyzeError::Syntax(SyntaxTreeCreatorError::SymbolNotFound),
                                );
                            }
                            clear_exclusions(exclude_patterns);
                            let word = pair.1;
                            let f = &self.token_and_value_to_func_result;
                            let v = f(t, word);
                            proof {
                                let g = self.spec_token_fn();
                                assert(maps_to(g, t, word@, v));
                                let q = value_of(g, t, word@);
                                assert(maps_to(g, t, word@, q));
                                let w2 = choose|w2: &str| w2@ == word@ && #[trigger] call_ensures(g, (t, w2), q);
                                assert(call_ensures(g, (t, w2), q));
                                assert(v == q);
                            }
                            values.push(v);
                        },
                    }
                },
                OptionalSymbols::Symbol(s) => {
                    if fuel == 0 {
                        return Err(AnalyzeError::Syntax(SyntaxTreeCreatorError::NestingTooDeep));
                    }
                    let mut temp = copy_exclusions(exclude_patterns);
                    if i == 0 {
                        temp.set(prod, true);
                    }
                    let found = self.find_symbol(tokens, s, &mut temp, fuel - 1);
                    match found {
                        Ok(v) => {
                            values.push(v);
                        },
                        Err(e) => {
                            return Err(e);
                        },
                    }
                },
                OptionalSymbols::EOF => {
                    if !tokens.is_done() {
                        return Err(AnalyzeError::Syntax(SyntaxTreeCreatorError::SymbolNotFound));
                    }
                    clear_exclusions(exclude_patterns);
                },
            }
            i = i + 1;
        }
        Ok(values)
    }

    /// Resolves `expected_symbol` at the cursor: tries its productions in
    /// order, each from the same position, and applies the reducer of the
    /// first that matches.
    #[verifier::loop_isolation(false)]
    fn find_symbol<'t, 'w>(
        &self,
        tokens: &mut StateableIterator<'t, (T, &'w str)>,
        expected_symbol: &S,
        exclude_patterns: &mut Vec<bool>,
        fuel: usize,
    ) -> (r: Result<V, AnalyzeError<E>>)
        requires
            self.well_formed(),
            old(exclude_patterns)@.len() == self.spec_patterns().len(),
            old(tokens).spec_index() <= old(tokens).spec_values().len(),
        ensures
            final(tokens).spec_values() == old(tokens).spec_values(),
            final(tokens).spec_index() <= final(tokens).spec_values().len(),
            final(exclude_patterns)@.len() == self.spec_patterns().len(),
            match self.find_spec(
                lexemes(old(tokens).spec_values()),
                old(tokens).spec_index(),
                *expected_symbol,
                old(exclude_patterns)@,
                fuel as nat,
            ) {
                Ok((v, p)) => r == Ok::<V, AnalyzeError<E>>(v) && final(tokens).spec_index() == p,
                Err(e) => r == Err::<V, AnalyzeError<E>>(e),
            },
        decreases fuel, 2int, 0int,
    {
        let ghost vals = old(tokens).spec_values();
        let ghost toks = lexemes(vals);
        let ghost pos = tokens.spec_index();
        let ghost excl0 = exclude_patterns@;
        let patterns = self.filter_patterns_by_symbol(expected_symbol);
        let candidates = Self::filter_patterns_with_excluded_patterns(exclude_patterns, &patterns);
        let start_state = tokens.get_state();
        let mut k: usize = 0;
        while k < candidates.len()
            invariant
                self.well_formed(),
                candidates@ == self.candidates(*expected_symbol, excl0),
                forall|j: int| 0 <= j < candidates@.len() ==> candidates@[j] < self.spec_patterns().len(),
                k <= candidates@.len(),
                start_state == pos,
                pos <= toks.len(),
                tokens.spec_values() == vals,
                toks == lexemes(vals),
                tokens.spec_index() <= toks.len(),
                exclude_patterns@.len() == self.spec_patterns().len(),
                self.find_spec(toks, pos, *expected_symbol, excl0, fuel as nat) == self.try_spec(
                    toks,
                    pos,
                    candidates@,
                    k as nat,
                    exclude_patterns@,
                    fuel as nat,
                ),
            decreases candidates.len() - k,
        {
            let c = candidates[k];
            tokens.set_state(start_state);
            let matched = self.match_pattern(c, tokens, exclude_patterns, fuel);
            match matched {
                Ok(values) => {
                    let ghost args = values;
                    let f = &self.patterns[c].2;
                    let r = f(values);
                    proof {
                        let g = self.spec_patterns()[c as int].2;
                        assert(is_reducer_function(g));
                        assert(reduces_to(g, args@, r));
                        let q = reduce_of(g, args@);
                        assert(reduces_to(g, args@, q));
                        let a2 = choose|a: Vec<V>| a@ == args@ && #[trigger] call_ensures(g, (a,), q);
                        assert(call_ensures(g, (a2,), q));
                        assert(r == q);
                    }
                    match r {
                        Ok(v) => {
                            return Ok(v);
                        },
                        Err(e) => {
                            return Err(AnalyzeError::Semantic(e));
                        },
                    }
                },
                Err(e) => {
                    match e {
                        AnalyzeError::Syntax(SyntaxTreeCreatorError::SymbolNotFound) => {},
                        AnalyzeError::Syntax(SyntaxTreeCreatorError::UnexpectedEOF) => {},
                        _ => {
                            return Err(e);
                        },
                    }
                },
            }
            k = k + 1;
        }
        Err(AnalyzeError::Syntax(SyntaxTreeCreatorError::SymbolNotFound))
    }

    /// Resolves `expected_symbol` from the first token of `tokens`; the end
    /// of the vector is the end of the stream.
    pub fn analyze<'w>(&self, tokens: Vec<(T, &'w str)>, expected_symbol: &S) -> (r: Result<
        V,
        AnalyzeError<E>,
    >)
        requires
            self.well_formed(),
        ensures
            r == self.analyze_spec(lexemes(tokens@), *expected_symbol),
    {
        let mut cursor = StateableIterator::new(&tokens);
        let mut exclude_patterns: Vec<bool> = Vec::new();
        let mut i: usize = 0;
        while i < self.patterns.len()
            invariant
                i <= self.patterns@.len(),
                exclude_patterns@ == Seq::new(i as nat, |j: int| false),
            decreases self.patterns.len() - i,
        {
            exclude_patterns.push(false);
            i = i + 1;
            assert(exclude_patterns@ =~= Seq::new(i as nat, |j: int| false));
        }
        self.find_symbol(&mut cursor, expected_symbol, &mut exclude_patterns, MAX_NESTING)
    }

    proof fn lemma_not_excluded_members(cands: Seq<usize>, excl: Seq<bool>, k: int)
        requires
            k <= cands.len(),
        ensures
            forall|j: int|
                0 <= j < Self::not_excluded(cands, excl, k).len() ==> !excl[#[trigger] Self::not_excluded(
                    cands,
                    excl,
                    k,
                )[j] as int],
        decreases k,
    {
        if k > 0 {
            Self::lemma_not_excluded_members(cands, excl, k - 1);
            let prev = Self::not_excluded(cands, excl, k - 1);
            let cur = Self::not_excluded(cands, excl, k);
            if !excl[cands[k - 1] as int] {
                assert(cur == prev.push(cands[k - 1]));
                assert forall|j: int| 0 <= j < cur.len() implies !excl[#[trigger] cur[j] as int] by {
                    if j < prev.len() {
                        assert(cur[j] == prev[j]);
                    }
                }
            }
        }
    }

    /// The left-recursion guard: a production whose body starts with a
    /// nonterminal is no candidate for that nonterminal at the same
    /// position, so it is never reselected for its own leftmost call.
    pub proof fn lemma_left_recursion_guard(&self, sym: S, excl: Seq<bool>, prod: usize)
        requires
            prod < excl.len(),
        ensures
            !self.candidates(sym, excl.update(prod as int, true)).contains(prod),
    {
        let heads = self.with_head(sym, self.spec_patterns().len() as int);
        let ex = excl.update(prod as int, true);
        let cands = self.candidates(sym, ex);
        Self::lemma_not_excluded_members(heads, ex, heads.len() as int);
        if cands.contains(prod) {
            let j = choose|j: int| 0 <= j < cands.len() && cands[j] == prod;
            assert(!ex[cands[j] as int]);
        }
    }

    /// An end marker matches only at the end of the stream: where tokens
    /// remain at the position it is reached, the body fails with
    /// `SymbolNotFound`, whatever matched before it.
    pub proof fn lemma_end_marker_requires_end(
        &self,
        toks: Seq<(T, Seq<char>)>,
        prod: int,
        i: nat,
        pos: nat,
        excl: Seq<bool>,
        acc: Seq<V>,
        fuel: nat,
    )
        requires
            i < self.body(prod).len(),
            self.body(prod)[i as int] == OptionalSymbols::<S, T>::EOF,
            pos < toks.len(),
        ensures
            self.match_spec(toks, prod, i, pos, excl, acc, fuel).0 == Err::<(Seq<V>, nat), _>(
                AnalyzeError::<E>::Syntax(SyntaxTreeCreatorError::SymbolNotFound),
            ),
    {
    }

    /// Ordered choice: the first candidate whose body matches decides the
    /// result through its reducer, whatever the later candidates would do.
    pub proof fn lemma_first_match_wins(
        &self,
        toks: Seq<(T, Seq<char>)>,
        pos: nat,
        cands: Seq<usize>,
        k: nat,
        excl: Seq<bool>,
        fuel: nat,
        vals: Seq<V>,
        p: nat,
        v: V,
    )
        requires
            k < cands.len(),
            self.match_spec(toks, cands[k as int] as int, 0, pos, excl, seq![], fuel).0 == Ok::<
                _,
                AnalyzeError<E>,
            >((vals, p)),
            self.reduce(cands[k as int] as int, vals) == Ok::<V, E>(v),
        ensures
            self.try_spec(toks, pos, cands, k, excl, fuel) == Ok::<(V, nat), AnalyzeError<E>>(
                (v, p),
            ),
    {
    }

    /// A candidate whose body fails structurally is passed over: the next
    /// one is tried from the same position.
    pub proof fn lemma_soft_failure_backtracks(
        &self,
        toks: Seq<(T, Seq<char>)>,
        pos: nat,
        cands: Seq<usize>,
        k: nat,
        excl: Seq<bool>,
        fuel: nat,
        e: AnalyzeError<E>,
    )
        requires
            k < cands.len(),
            self.match_spec(toks, cands[k as int] as int, 0, pos, excl, seq![], fuel).0 == Err::<
                (Seq<V>, nat),
                _,
            >(e),
            e.is_soft(),
        ensures
            self.try_spec(toks, pos, cands, k, excl, fuel) == self.try_spec(
                toks,
                pos,
                cands,
                k + 1,
                self.match_spec(toks, cands[k as int] as int, 0, pos, excl, seq![], fuel).1,
                fuel,
            ),
    {
    }

    /// A reducer's failure is final: once the body of a candidate has
    /// matched and its reducer fails, resolving the symbol ends with that
    /// error, and no later alternative is tried.
    pub proof fn lemma_reducer_failure_is_final(
        &self,
        toks: Seq<(T, Seq<char>)>,
        pos: nat,
        cands: Seq<usize>,
        k: nat,
        excl: Seq<bool>,
        fuel: nat,
        vals: Seq<V>,
        p: nat,
        e: E,
    )
        requires
            k < cands.len(),
            self.match_spec(toks, cands[k as int] as int, 0, pos, excl, seq![], fuel).0 == Ok::<
                _,
                AnalyzeError<E>,
            >((vals, p)),
            self.reduce(cands[k as int] as int, vals) == Err::<V, E>(e),
        ensures
            self.try_spec(toks, pos, cands, k, excl, fuel) == Err::<(V, nat), _>(
                AnalyzeError::Semantic(e),
            ),
    {
    }

    /// A failure that is not structural (a reducer's error, or nesting too
    /// deep) is not backtracked over: where the body of a candidate fails
    /// with it, resolving the symbol fails with it, and no later
    /// alternative is tried.
    pub proof fn lemma_hard_failure_propagates(
        &self,
        toks: Seq<(T, Seq<char>)>,
        pos: nat,
        cands: Seq<usize>,
        k: nat,
        excl: Seq<bool>,
        fuel: nat,
        e: AnalyzeError<E>,
    )
        requires
            k < cands.len(),
            self.match_spec(toks, cands[k as int] as int, 0, pos, excl, seq![], fuel).0 == Err::<
                (Seq<V>, nat),
                _,
            >(e),
            !e.is_soft(),
        ensures
            self.try_spec(toks, pos, cands, k, excl, fuel) == Err::<(V, nat), _>(e),
    {
    }

    /// Inside a body, a nonterminal that fails with a failure that is not
    /// structural makes the body fail with it.
    pub proof fn lemma_hard_failure_in_body(
        &self,
        toks: Seq<(T, Seq<char>)>,
        prod: int,
        i: nat,
        pos: nat,
        excl: Seq<bool>,
        acc: Seq<V>,
        fuel: nat,
        s: S,
        e: AnalyzeError<E>,
    )
        requires
            i < self.body(prod).len(),
            self.body(prod)[i as int] == OptionalSymbols::<S, T>::Symbol(s),
            fuel > 0,
            self.find_spec(
                toks,
                pos,
                s,
                if i == 0 {
                    excl.update(prod, true)
                } else {
                    excl
                },
                (fuel - 1) as nat,
            ) == Err::<(V, nat), _>(e),
        ensures
            self.match_spec(toks, prod, i, pos, excl, acc, fuel).0 == Err::<(Seq<V>, nat), _>(e),
    {
    }

    pub fn new(
        patterns: Vec<(S, Vec<OptionalSymbols<S, T>>, R)>,
        token_and_value_to_func_result: K,
    ) -> (r: Self)
        ensures
            r.spec_patterns() == patterns@,
            r.spec_token_fn() == token_and_value_to_func_result,
    {
        Self { patterns, token_and_value_to_func_result, results: core::marker::PhantomData }
    }
}

} // verus!
