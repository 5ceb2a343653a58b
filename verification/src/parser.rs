use vstd::prelude::*;
use crate::token::{Token, TokenKind, TokenKindModel, TokenModel};

verus! {

broadcast use
    vstd::std_specs::vec::axiom_vec_index_decreases,
    vstd::std_specs::vec::axiom_vec_decreases_to_view,
    vstd::seq::axiom_seq_index_decreases,
    vstd::seq::axiom_seq_subrange_decreases;

/// An S-expression (sexp for brevity).
#[derive(Debug, PartialEq)]
pub enum Sexp {
    Atom(Token),
    List(Vec<Sexp>),
}

/// The mathematical model of an S-expression.
pub enum SexpModel {
    Atom(TokenModel),
    List(Seq<SexpModel>),
}

/// The models of a sequence of S-expressions, in order.
pub open spec fn sexps_view(s: Seq<Sexp>) -> Seq<SexpModel>
    decreases s,
{
    if s.len() == 0 {
        Seq::empty()
    } else {
        sexps_view(s.drop_last()).push(s.last()@)
    }
}

impl View for Sexp {
    type V = SexpModel;

    open spec fn view(&self) -> SexpModel
        decreases self,
    {
        match self {
            Sexp::Atom(t) => SexpModel::Atom(t@),
            Sexp::List(v) => SexpModel::List(sexps_view(v@)),
        }
    }
}

/// `sexps_view` maps the sequence element by element.
pub proof fn lemma_sexps_view(s: Seq<Sexp>)
    ensures
        sexps_view(s).len() == s.len(),
        forall|i: int| 0 <= i < s.len() ==> sexps_view(s)[i] == #[trigger] s[i]@,
    decreases s,
{
    if s.len() > 0 {
        let pre = s.drop_last();
        lemma_sexps_view(pre);
        assert(sexps_view(s) == sexps_view(pre).push(s.last()@));
        assert forall|i: int| 0 <= i < s.len() implies sexps_view(s)[i] == #[trigger] s[i]@ by {
            if i < s.len() - 1 {
                assert(pre[i] == s[i]);
                assert(sexps_view(pre)[i] == pre[i]@);
                assert(sexps_view(s)[i] == sexps_view(pre)[i]);
            } else {
                assert(s.last() == s[i]);
                assert(sexps_view(s)[i] == s.last()@);
            }
        }
    }
}

impl Clone for Sexp {
    fn clone(&self) -> (res: Self)
        ensures
            res@ == self@,
        decreases self,
    {
        match self {
            Sexp::Atom(t) => Sexp::Atom(t.clone()),
            Sexp::List(v) => {
                let mut out: Vec<Sexp> = Vec::new();
                let mut i: usize = 0;
                while i < v.len()
                    invariant
                        *self == Sexp::List(*v),
                        i <= v.len(),
                        out@.len() == i,
                        forall|j: int| 0 <= j < i ==> out@[j]@ == v@[j]@,
                    decreases v.len() - i,
                {
                    proof {
                        assert(*self == Sexp::List(*v));
                        assert(decreases_to!(*self => self->List_0));
                        assert(decreases_to!(*v => v[i as int]));
                    }
                    out.push(v[i].clone());
                    i += 1;
                }
                let res = Sexp::List(out);
                proof {
                    lemma_sexps_view(out@);
                    lemma_sexps_view(v@);
                    assert forall|k: int| 0 <= k < v@.len() implies sexps_view(out@)[k]
                        == sexps_view(v@)[k] by {
                        assert(out@[k]@ == v@[k]@);
                    }
                    assert(sexps_view(out@) =~= sexps_view(v@));
                }
                res
            }
        }
    }
}

/// A parsing error.
#[derive(Debug, PartialEq)]
pub struct ParseError {
    /// Error message.
    pub message: String,
    /// Problematic token, when one is known.
    pub token: Option<Token>,
}

/// The mathematical model of a parsing error.
pub struct ParseErrorModel {
    pub message: Seq<char>,
    pub token: Option<TokenModel>,
}

impl View for ParseError {
    type V = ParseErrorModel;

    open spec fn view(&self) -> ParseErrorModel {
        ParseErrorModel {
            message: self.message@,
            token: match self.token {
                Some(t) => Some(t@),
                None => None,
            },
        }
    }
}

impl ParseError {
    /// Make a new "full" error.
    pub fn new(message: &str, token: &Token) -> (e: ParseError)
        ensures
            e@.message == message@,
            e@.token == Some(token@),
    {
        ParseError { message: String::from_str(message), token: Some(token.clone()) }
    }

    /// Make a new error from just the message.
    pub fn from_message(message: &str) -> (e: ParseError)
        ensures
            e@.message == message@,
            e@.token is None,
    {
        ParseError { message: String::from_str(message), token: None }
    }
}

/// A well-formed token stream: nonempty, ending in the one Eof token.
pub open spec fn wf_tokens(ts: Seq<TokenModel>) -> bool {
    ts.len() >= 1 && ts.last().kind is Eof && (forall|i: int|
        0 <= i < ts.len() - 1 ==> !((#[trigger] ts[i]).kind is Eof))
}

/// The lexer only emits Eof as its final token.
pub proof fn lemma_lex_from_wf(src: Seq<char>, i: nat)
    ensures
        crate::lexer::lex_from(src, i) matches Ok(ts) ==> wf_tokens(ts),
    decreases src.len() - i,
{
    if i < src.len() {
        let c = src[i as int];
        if crate::lexer::is_space_char(c) {
            lemma_lex_from_wf(src, i + 1);
        } else if c == '(' || c == ')' {
            lemma_lex_from_wf(src, i + 1);
        } else if c == '"' {
            match crate::lexer::string_end(src, i + 1) {
                None => {},
                Some(e) => {
                    lemma_lex_from_wf(src, crate::lexer::advance_to(e, i, src.len() as nat));
                },
            }
        } else if crate::lexer::is_digit_char(c) {
            lemma_lex_from_wf(
                src,
                crate::lexer::advance_to(crate::lexer::number_end(src, i + 1), i, src.len() as nat),
            );
        } else {
            lemma_lex_from_wf(
                src,
                crate::lexer::advance_to(
                    crate::lexer::identifier_end(src, i + 1),
                    i,
                    src.len() as nat,
                ),
            );
        }
    }
}

/// What parsing one S-expression at a position yields: the expression and
/// the position just past it, or the error met first.
pub open spec fn parse_sexp_spec(ts: Seq<TokenModel>, i: nat) -> Result<
    (SexpModel, nat),
    ParseErrorModel,
>
    decreases ts.len() - i, 0int,
{
    if i >= ts.len() {
        Err(ParseErrorModel { message: "expected atom or list"@, token: None })
    } else {
        match ts[i as int].kind {
            TokenKindModel::LeftParen => finish_list_spec(ts, i + 1),
            TokenKindModel::RightParen => Err(
                ParseErrorModel { message: "expected atom or list"@, token: Some(ts[i as int]) },
            ),
            TokenKindModel::Eof => Err(
                ParseErrorModel { message: "expected atom or list"@, token: Some(ts[i as int]) },
            ),
            _ => Ok((SexpModel::Atom(ts[i as int]), (i + 1) as nat)),
        }
    }
}

/// What parsing the elements of a started list yields, the elements read
/// so far given: more elements until a right parenthesis closes the list,
/// or an error.
pub open spec fn list_loop_spec(ts: Seq<TokenModel>, j: nat, acc: Seq<SexpModel>) -> Result<
    (SexpModel, nat),
    ParseErrorModel,
>
    decreases ts.len() - j, 1int,
{
    if j < ts.len() && !(ts[j as int].kind is RightParen) && !(ts[j as int].kind is Eof) {
        match parse_sexp_spec(ts, j) {
            Err(e) => Err(e),
            Ok((s, j2)) => list_loop_spec(
                ts,
                crate::lexer::advance_to(j2, j, ts.len() as nat),
                acc.push(s),
            ),
        }
    } else if j < ts.len() && ts[j as int].kind is RightParen {
        Ok((SexpModel::List(acc), (j + 1) as nat))
    } else {
        Err(
            ParseErrorModel {
                message: "expected ')'"@,
                token: if j < ts.len() {
                    Some(ts[j as int])
                } else {
                    None
                },
            },
        )
    }
}

/// What finishing a list after its opening parenthesis yields: at least
/// one element, then the elements up to the closing parenthesis.
pub open spec fn finish_list_spec(ts: Seq<TokenModel>, j: nat) -> Result<
    (SexpModel, nat),
    ParseErrorModel,
>
    decreases ts.len() - j, 2int,
{
    if j >= ts.len() {
        Err(ParseErrorModel { message: "expected atom or list"@, token: None })
    } else {
        match parse_sexp_spec(ts, j) {
            Err(e) => Err(e),
            Ok((first, j2)) => list_loop_spec(
                ts,
                crate::lexer::advance_to(j2, j, ts.len() as nat),
                seq![first],
            ),
        }
    }
}

/// What a parse from a position yields: one S-expression, or a failure on
/// an exhausted stream.
pub open spec fn parse_spec(ts: Seq<TokenModel>, i: nat) -> Result<
    (SexpModel, nat),
    ParseErrorModel,
> {
    if i < ts.len() && !(ts[i as int].kind is Eof) {
        parse_sexp_spec(ts, i)
    } else {
        Err(ParseErrorModel { message: "no tokens!"@, token: None })
    }
}

/// A parsed S-expression ends past where it began and before the Eof
/// token.
pub proof fn lemma_parse_sexp_spec_bounds(ts: Seq<TokenModel>, i: nat)
    requires
        wf_tokens(ts),
        i <= ts.len() - 1,
    ensures
        parse_sexp_spec(ts, i) matches Ok((s, j)) ==> i < j <= ts.len() - 1,
    decreases ts.len() - i, 0int,
{
    if i < ts.len() && ts[i as int].kind is LeftParen {
        lemma_finish_list_spec_bounds(ts, i + 1);
    }
}

/// The elements of a started list end past the start and before the Eof
/// token.
pub proof fn lemma_list_loop_spec_bounds(ts: Seq<TokenModel>, j: nat, acc: Seq<SexpModel>)
    requires
        wf_tokens(ts),
        j <= ts.len() - 1,
    ensures
        list_loop_spec(ts, j, acc) matches Ok((s, j2)) ==> j < j2 <= ts.len() - 1,
    decreases ts.len() - j, 1int,
{
    if j < ts.len() && !(ts[j as int].kind is RightParen) && !(ts[j as int].kind is Eof) {
        lemma_parse_sexp_spec_bounds(ts, j);
        match parse_sexp_spec(ts, j) {
            Err(_) => {},
            Ok((s, j2)) => {
                assert(crate::lexer::advance_to(j2, j, ts.len() as nat) == j2);
                lemma_list_loop_spec_bounds(ts, j2, acc.push(s));
            },
        }
    } else if j < ts.len() && ts[j as int].kind is RightParen {
        assert(ts[j as int].kind is RightParen);
        assert(j != ts.len() - 1);
    }
}

/// A finished list ends past its first element and before the Eof token.
pub proof fn lemma_finish_list_spec_bounds(ts: Seq<TokenModel>, j: nat)
    requires
        wf_tokens(ts),
        j <= ts.len() - 1,
    ensures
        finish_list_spec(ts, j) matches Ok((s, j2)) ==> j < j2 <= ts.len() - 1,
    decreases ts.len() - j, 2int,
{
    lemma_parse_sexp_spec_bounds(ts, j);
    match parse_sexp_spec(ts, j) {
        Err(_) => {},
        Ok((first, j2)) => {
            assert(crate::lexer::advance_to(j2, j, ts.len() as nat) == j2);
            lemma_list_loop_spec_bounds(ts, j2, seq![first]);
        },
    }
}

/// The parser.
pub struct Parser {
    /// Token stream to parse.
    pub tokens: Vec<Token>,
    /// Current token.
    pub current: usize,
}

impl Parser {
    /// A usable parser: a well-formed token stream, with the position at
    /// or before the Eof token.
    pub open spec fn wf(&self) -> bool {
        wf_tokens(crate::token::tokens_view(self.tokens@)) && self.current + 1 <= self.tokens@.len()
    }

    /// Make a new parser from a token stream.
    pub fn new(tokens: Vec<Token>) -> (p: Parser)
        ensures
            p.tokens@ == tokens@,
            p.current == 0,
    {
        Parser { tokens, current: 0 }
    }

    /// Check if the parser has reached the end of the token stream.
    pub fn is_at_end(&self) -> (r: bool)
        requires
            self.current < self.tokens@.len(),
        ensures
            r == (crate::token::tokens_view(self.tokens@)[self.current as int].kind is Eof),
    {
        proof {
            assert(crate::token::tokens_view(self.tokens@)[self.current as int]
                == self.tokens@[self.current as int]@);
        }
        match &self.tokens[self.current].kind {
            TokenKind::Eof => true,
            _ => false,
        }
    }

    /// Whether the list being parsed continues: the current token closes
    /// no list and ends no stream.
    fn list_continues(&self) -> (r: bool)
        requires
            self.current < self.tokens@.len(),
        ensures
            r == (!(crate::token::tokens_view(self.tokens@)[self.current as int].kind
                is RightParen) && !(crate::token::tokens_view(
                self.tokens@,
            )[self.current as int].kind is Eof)),
    {
        !self.rparen_at() && !self.is_at_end()
    }

    /// Whether a right parenthesis closes the list at the current token.
    fn rparen_at(&self) -> (r: bool)
        requires
            self.current < self.tokens@.len(),
        ensures
            r == (crate::token::tokens_view(self.tokens@)[self.current as int].kind
                is RightParen),
    {
        proof {
            assert(crate::token::tokens_view(self.tokens@)[self.current as int]
                == self.tokens@[self.current as int]@);
        }
        match &self.tokens[self.current].kind {
            TokenKind::RightParen => true,
            _ => false,
        }
    }

    /// Advance the parser, returning the token passed over.
    pub fn advance(&mut self) -> (t: Token)
        requires
            old(self).current < old(self).tokens@.len(),
        ensures
            final(self).tokens@ == old(self).tokens@,
            final(self).current == old(self).current + 1,
            t@ == crate::token::tokens_view(old(self).tokens@)[old(self).current as int],
    {
        let total = self.tokens.len();
        proof {
            assert(self.current < total);
        }
        let t = self.tokens[self.current].clone();
        self.current = self.current + 1;
        t
    }

    /// Peek the next token without advancing the parser.
    pub fn peek(&self) -> (t: &Token)
        requires
            self.current < self.tokens@.len(),
        ensures
            t@ == crate::token::tokens_view(self.tokens@)[self.current as int],
    {
        &self.tokens[self.current]
    }

    /// Finish parsing a list whose opening parenthesis was passed over.
    fn finish_list(&mut self) -> (r: Result<Sexp, ParseError>)
        requires
            old(self).wf(),
        ensures
            final(self).wf(),
            final(self).tokens@ == old(self).tokens@,
            match r {
                Ok(s) => finish_list_spec(
                    crate::token::tokens_view(old(self).tokens@),
                    old(self).current as nat,
                ) matches Ok((sm, j)) && sm == s@ && j == final(self).current,
                Err(e) => finish_list_spec(
                    crate::token::tokens_view(old(self).tokens@),
                    old(self).current as nat,
                ) matches Err(em) && em == e@,
            },
        decreases old(self).tokens@.len() - old(self).current, 2int,
    {
        let ghost ts = crate::token::tokens_view(self.tokens@);
        let mut sexps: Vec<Sexp> = Vec::new();
        match self.parse_sexp() {
            Err(e) => {
                return Err(e);
            },
            Ok(s) => {
                proof {
                    lemma_parse_sexp_spec_bounds(ts, old(self).current as nat);
                    let j2 = parse_sexp_spec(ts, old(self).current as nat)->Ok_0.1;
                    assert(crate::lexer::advance_to(
                        j2,
                        old(self).current as nat,
                        ts.len() as nat,
                    ) == j2);
                }
                sexps.push(s);
            },
        }
        proof {
            lemma_sexps_view(sexps@);
            assert(sexps_view(sexps@) =~= seq![sexps@[0]@]);
        }
        while self.list_continues()
            invariant
                self.wf(),
                ts == crate::token::tokens_view(old(self).tokens@),
                crate::token::tokens_view(self.tokens@) == ts,
                self.tokens@ == old(self).tokens@,
                old(self).current <= self.current,
                self.current < self.tokens@.len(),
                finish_list_spec(ts, old(self).current as nat) == list_loop_spec(
                    ts,
                    self.current as nat,
                    sexps_view(sexps@),
                ),
            decreases self.tokens@.len() - self.current,
        {
            let ghost cur = self.current as nat;
            let ghost acc = sexps_view(sexps@);
            match self.parse_sexp() {
                Err(e) => {
                    return Err(e);
                },
                Ok(s) => {
                    proof {
                        lemma_parse_sexp_spec_bounds(ts, cur);
                        let j2 = parse_sexp_spec(ts, cur)->Ok_0.1;
                        assert(crate::lexer::advance_to(j2, cur, ts.len() as nat) == j2);
                    }
                    let ghost pre = sexps@;
                    sexps.push(s);
                    proof {
                        assert(sexps@.drop_last() =~= pre);
                        lemma_sexps_view(sexps@);
                        lemma_sexps_view(pre);
                        assert(sexps_view(sexps@) =~= acc.push(s@));
                    }
                },
            }
        }
        if !self.rparen_at() {
            let e = ParseError::new("expected ')'", self.peek());
            return Err(e);
        }
        let total = self.tokens.len();
        proof {
            assert(self.current < total);
        }
        self.current = self.current + 1;
        proof {
            assert(crate::token::tokens_view(self.tokens@)[(self.current - 1) as int].kind
                is RightParen);
            assert(self.current - 1 < self.tokens@.len() - 1);
        }
        Ok(Sexp::List(sexps))
    }

    /// Parse a single sexp.
    fn parse_sexp(&mut self) -> (r: Result<Sexp, ParseError>)
        requires
            old(self).wf(),
        ensures
            final(self).wf(),
            final(self).tokens@ == old(self).tokens@,
            match r {
                Ok(s) => parse_sexp_spec(
                    crate::token::tokens_view(old(self).tokens@),
                    old(self).current as nat,
                ) matches Ok((sm, j)) && sm == s@ && j == final(self).current,
                Err(e) => parse_sexp_spec(
                    crate::token::tokens_view(old(self).tokens@),
                    old(self).current as nat,
                ) matches Err(em) && em == e@,
            },
        decreases old(self).tokens@.len() - old(self).current, 1int,
    {
        if self.is_at_end() {
            let e = ParseError::new("expected atom or list", self.peek());
            return Err(e);
        }
        let token = self.advance();
        match &token.kind {
            TokenKind::LeftParen => self.finish_list(),
            TokenKind::RightParen => Err(ParseError::new("expected atom or list", &token)),
            _ => Ok(Sexp::Atom(token)),
        }
    }

    /// Parse the token stream into one S-expression.
    pub fn parse(&mut self) -> (r: Result<Sexp, ParseError>)
        requires
            old(self).wf(),
        ensures
            final(self).wf(),
            final(self).tokens@ == old(self).tokens@,
            match r {
                Ok(s) => parse_spec(
                    crate::token::tokens_view(old(self).tokens@),
                    old(self).current as nat,
                ) matches Ok((sm, j)) && sm == s@ && j == final(self).current,
                Err(e) => parse_spec(
                    crate::token::tokens_view(old(self).tokens@),
                    old(self).current as nat,
                ) matches Err(em) && em == e@,
            },
    {
        if !self.is_at_end() {
            self.parse_sexp()
        } else {
            Err(ParseError::from_message("no tokens!"))
        }
    }
}

} // verus!
