//! The argument-list serialization primitive: an ordered sequence of string
//! tokens with a shell-like textual form.
//!
//! Tokens are joined with single spaces when rendered; a token containing
//! whitespace (or the empty token) is wrapped in double quotes. Parsing
//! reverses this: whitespace separates tokens, and double-quoted segments
//! are taken verbatim. There are no escape sequences, so a token may never
//! contain the double-quote character itself; `append` rejects such tokens.

use crate::errors::EncodingError;
use crate::errors::ParseError;
use vstd::prelude::*;
use vstd::string::*;

verus! {

/// The whitespace characters that separate tokens in the textual form.
pub open spec fn is_ws(c: char) -> bool {
    c == ' ' || c == '\t' || c == '\n' || c == '\r'
}

/// A token is well formed when it does not contain the double-quote
/// character; only such tokens can be represented in the textual form.
pub open spec fn tok_wf(t: Seq<char>) -> bool {
    forall|i: int| 0 <= i < t.len() ==> t[i] != '"'
}

/// All tokens of a sequence are well formed.
pub open spec fn toks_wf(ts: Seq<Seq<char>>) -> bool {
    forall|i: int| 0 <= i < ts.len() ==> tok_wf(#[trigger] ts[i])
}

/// A token must be rendered quoted when it is empty or contains whitespace;
/// otherwise the textual form would split or drop it.
pub open spec fn needs_quote(t: Seq<char>) -> bool {
    t.len() == 0 || exists|i: int| 0 <= i < t.len() && is_ws(#[trigger] t[i])
}

/// The textual form of a single token: quoted exactly when needed.
pub open spec fn quoted(t: Seq<char>) -> Seq<char> {
    if needs_quote(t) {
        seq!['"'] + t + seq!['"']
    } else {
        t
    }
}

/// The textual form of a token sequence: tokens in order, single spaces
/// between them.
pub open spec fn render_spec(ts: Seq<Seq<char>>) -> Seq<char>
    decreases ts.len(),
{
    if ts.len() == 0 {
        Seq::empty()
    } else if ts.len() == 1 {
        quoted(ts[0])
    } else {
        quoted(ts[0]) + seq![' '] + render_spec(ts.drop_first())
    }
}

/// Index of the first double-quote character in `s`, if any.
pub open spec fn find_quote(s: Seq<char>) -> Option<nat>
    decreases s.len(),
{
    if s.len() == 0 {
        None
    } else if s[0] == '"' {
        Some(0 as nat)
    } else {
        match find_quote(s.drop_first()) {
            None => None,
            Some(k) => Some(k + 1),
        }
    }
}

/// Length of the maximal leading run of plain characters: neither
/// whitespace nor a double quote.
pub open spec fn plain_run_len(s: Seq<char>) -> nat
    decreases s.len(),
{
    if s.len() == 0 || is_ws(s[0]) || s[0] == '"' {
        0
    } else {
        1 + plain_run_len(s.drop_first())
    }
}

/// `find_quote` returns the position of the first double quote: the
/// character there is a quote and no earlier one is; `None` means the text
/// holds no quote at all.
pub proof fn lemma_find_quote(s: Seq<char>)
    ensures
        match find_quote(s) {
            None => tok_wf(s),
            Some(j) => j < s.len() && s[j as int] == '"' && forall|i: int|
                0 <= i < j ==> s[i] != '"',
        },
    decreases s.len(),
{
    if s.len() == 0 {
    } else if s[0] == '"' {
    } else {
        lemma_find_quote(s.drop_first());
        match find_quote(s.drop_first()) {
            None => {
                assert forall|i: int| 0 <= i < s.len() implies s[i] != '"' by {
                    if i > 0 {
                        assert(s[i] == s.drop_first()[i - 1]);
                    }
                }
            },
            Some(k) => {
                assert(s[k as int + 1] == s.drop_first()[k as int]);
                assert forall|i: int| 0 <= i < k + 1 implies s[i] != '"' by {
                    if i > 0 {
                        assert(s[i] == s.drop_first()[i - 1]);
                    }
                }
            },
        }
    }
}

/// The first `plain_run_len(s)` characters are plain, and the run ends at
/// the end of the text, at whitespace, or at a quote.
pub proof fn lemma_plain_run(s: Seq<char>)
    ensures
        plain_run_len(s) <= s.len(),
        forall|i: int| 0 <= i < plain_run_len(s) ==> !is_ws(#[trigger] s[i]) && s[i] != '"',
        plain_run_len(s) == s.len() || is_ws(s[plain_run_len(s) as int]) || s[plain_run_len(
            s,
        ) as int] == '"',
    decreases s.len(),
{
    if s.len() == 0 || is_ws(s[0]) || s[0] == '"' {
    } else {
        lemma_plain_run(s.drop_first());
        let k = plain_run_len(s.drop_first());
        assert forall|i: int| 0 <= i < k + 1 implies !is_ws(#[trigger] s[i]) && s[i] != '"' by {
            if i > 0 {
                assert(s[i] == s.drop_first()[i - 1]);
            }
        }
        if k + 1 < s.len() {
            assert(s[k as int + 1] == s.drop_first()[k as int]);
        }
    }
}

/// Read one token from the front of `s`: alternating plain and quoted
/// segments, ending at whitespace or at the end of the text. Yields the
/// token and the remaining text; `None` when a quoted segment never
/// closes.
pub open spec fn read_token(s: Seq<char>) -> Option<(Seq<char>, Seq<char>)>
    decreases s.len(),
{
    if s.len() == 0 || is_ws(s[0]) {
        Some((Seq::empty(), s))
    } else if s[0] == '"' {
        match find_quote(s.skip(1)) {
            None => None,
            Some(j) => {
                proof {
                    lemma_find_quote(s.skip(1));
                }
                match read_token(s.skip(j as int + 2)) {
                    None => None,
                    Some(p) => Some((s.skip(1).take(j as int) + p.0, p.1)),
                }
            },
        }
    } else {
        proof {
            lemma_plain_run(s);
        }
        match read_token(s.skip(plain_run_len(s) as int)) {
            None => None,
            Some(p) => Some((s.take(plain_run_len(s) as int) + p.0, p.1)),
        }
    }
}

/// Reading a token never leaves more text than it was given.
pub proof fn lemma_read_token_rest(s: Seq<char>)
    ensures
        read_token(s) matches Some(p) ==> p.1.len() <= s.len(),
    decreases s.len(),
{
    if s.len() == 0 || is_ws(s[0]) {
    } else if s[0] == '"' {
        lemma_find_quote(s.skip(1));
        match find_quote(s.skip(1)) {
            None => {},
            Some(j) => {
                lemma_read_token_rest(s.skip(j as int + 2));
            },
        }
    } else {
        lemma_plain_run(s);
        lemma_read_token_rest(s.skip(plain_run_len(s) as int));
    }
}

/// At a token start, reading a token consumes at least one character.
pub proof fn lemma_read_token_consumes(s: Seq<char>)
    requires
        s.len() > 0,
        !is_ws(s[0]),
    ensures
        read_token(s) matches Some(p) ==> p.1.len() < s.len(),
{
    if s[0] == '"' {
        lemma_find_quote(s.skip(1));
        match find_quote(s.skip(1)) {
            None => {},
            Some(j) => {
                lemma_read_token_rest(s.skip(j as int + 2));
            },
        }
    } else {
        lemma_plain_run(s);
        lemma_read_token_rest(s.skip(plain_run_len(s) as int));
    }
}

/// A token that was read never contains the double-quote character.
pub proof fn lemma_read_token_wf(s: Seq<char>)
    ensures
        read_token(s) matches Some(p) ==> tok_wf(p.0),
    decreases s.len(),
{
    if s.len() == 0 || is_ws(s[0]) {
    } else if s[0] == '"' {
        lemma_find_quote(s.skip(1));
        match find_quote(s.skip(1)) {
            None => {},
            Some(j) => {
                lemma_read_token_wf(s.skip(j as int + 2));
                match read_token(s.skip(j as int + 2)) {
                    None => {},
                    Some(p) => {
                        let inner = s.skip(1).take(j as int);
                        assert forall|i: int| 0 <= i < (inner + p.0).len() implies (inner
                            + p.0)[i] != '"' by {
                            if i < j {
                                assert(inner[i] == s.skip(1)[i]);
                            }
                        }
                    },
                }
            },
        }
    } else {
        lemma_plain_run(s);
        let k = plain_run_len(s);
        lemma_read_token_wf(s.skip(k as int));
        match read_token(s.skip(k as int)) {
            None => {},
            Some(p) => {
                let front = s.take(k as int);
                assert forall|i: int| 0 <= i < (front + p.0).len() implies (front + p.0)[i]
                    != '"' by {
                    if i < k {
                        assert(front[i] == s[i]);
                    }
                }
            },
        }
    }
}

/// Parse a source text into its token sequence; `None` exactly when a
/// quoted segment is unterminated.
pub open spec fn parse_spec(s: Seq<char>) -> Option<Seq<Seq<char>>>
    decreases s.len(),
{
    if s.len() == 0 {
        Some(Seq::empty())
    } else if is_ws(s[0]) {
        parse_spec(s.drop_first())
    } else {
        match read_token(s) {
            None => None,
            Some(p) => {
                proof {
                    lemma_read_token_consumes(s);
                }
                match parse_spec(p.1) {
                    None => None,
                    Some(ts) => Some(seq![p.0] + ts),
                }
            },
        }
    }
}

/// Every token of a parsed sequence is free of the double-quote character.
pub proof fn lemma_parse_wf(s: Seq<char>)
    ensures
        parse_spec(s) matches Some(ts) ==> toks_wf(ts),
    decreases s.len(),
{
    if s.len() == 0 {
    } else if is_ws(s[0]) {
        lemma_parse_wf(s.drop_first());
    } else {
        match read_token(s) {
            None => {},
            Some(p) => {
                lemma_read_token_consumes(s);
                lemma_read_token_wf(s);
                lemma_parse_wf(p.1);
                match parse_spec(p.1) {
                    None => {},
                    Some(ts) => {
                        assert forall|i: int| 0 <= i < (seq![p.0] + ts).len() implies tok_wf(
                            #[trigger] (seq![p.0] + ts)[i],
                        ) by {
                            if i > 0 {
                                assert((seq![p.0] + ts)[i] == ts[i - 1]);
                            }
                        }
                    },
                }
            },
        }
    }
}

/// A run of plain characters followed by text that is empty or starts with
/// whitespace has exactly that run as its leading plain run.
proof fn lemma_plain_run_concat(t: Seq<char>, rest: Seq<char>)
    requires
        forall|i: int| 0 <= i < t.len() ==> !is_ws(#[trigger] t[i]) && t[i] != '"',
        rest.len() == 0 || is_ws(rest[0]),
    ensures
        plain_run_len(t + rest) == t.len(),
    decreases t.len(),
{
    if t.len() == 0 {
        assert(t + rest =~= rest);
    } else {
        lemma_plain_run_concat(t.drop_first(), rest);
        assert((t + rest).drop_first() =~= t.drop_first() + rest);
        assert((t + rest)[0] == t[0]);
    }
}

/// An unquoted token followed by a separator (or nothing) reads back as
/// itself.
proof fn lemma_read_token_plain(t: Seq<char>, rest: Seq<char>)
    requires
        tok_wf(t),
        !needs_quote(t),
        rest.len() == 0 || is_ws(rest[0]),
    ensures
        read_token(t + rest) == Some((t, rest)),
{
    let s = t + rest;
    assert(s[0] == t[0]);
    lemma_plain_run_concat(t, rest);
    assert(s.take(t.len() as int) =~= t);
    assert(s.skip(t.len() as int) =~= rest);
    assert(read_token(rest) == Some((Seq::<char>::empty(), rest)));
    assert(t + Seq::<char>::empty() =~= t);
}

/// A quoted token followed by a separator (or nothing) reads back as the
/// text between the quotes.
proof fn lemma_read_token_quoted(t: Seq<char>, rest: Seq<char>)
    requires
        tok_wf(t),
        rest.len() == 0 || is_ws(rest[0]),
    ensures
        read_token(seq!['"'] + t + seq!['"'] + rest) == Some((t, rest)),
{
    let s = seq!['"'] + t + seq!['"'] + rest;
    assert(s[0] == '"');
    let u = s.skip(1);
    assert(u =~= t + seq!['"'] + rest);
    lemma_find_quote(u);
    assert(u[t.len() as int] == '"');
    match find_quote(u) {
        None => {
            assert(false);
        },
        Some(j) => {
            if j < t.len() {
                assert(u[j as int] == t[j as int]);
                assert(false);
            }
            if j > t.len() {
                assert(false);
            }
            assert(u.take(j as int) =~= t);
            assert(s.skip(j as int + 2) =~= rest);
            assert(read_token(rest) == Some((Seq::<char>::empty(), rest)));
            assert(t + Seq::<char>::empty() =~= t);
        },
    }
}

/// Round-trip law: rendering any sequence of well-formed tokens — exactly
/// the lists that `append` and `merge` can build — and parsing the result
/// yields the same token sequence.
pub proof fn lemma_parse_render_roundtrip(ts: Seq<Seq<char>>)
    requires
        toks_wf(ts),
    ensures
        parse_spec(render_spec(ts)) == Some(ts),
    decreases ts.len(),
{
    if ts.len() == 0 {
        assert(Seq::<Seq<char>>::empty() =~= ts);
    } else {
        let t0 = ts[0];
        assert(tok_wf(t0));
        let q = quoted(t0);
        let rest: Seq<char> = if ts.len() == 1 {
            Seq::empty()
        } else {
            seq![' '] + render_spec(ts.drop_first())
        };
        let s = render_spec(ts);
        assert(s =~= q + rest);
        if needs_quote(t0) {
            lemma_read_token_quoted(t0, rest);
            assert(seq!['"'] + t0 + seq!['"'] + rest =~= s);
            assert(s[0] == '"');
        } else {
            lemma_read_token_plain(t0, rest);
            assert(t0 + rest =~= s);
            assert(s[0] == t0[0]);
        }
        assert(read_token(s) == Some((t0, rest)));
        if ts.len() == 1 {
            assert(parse_spec(rest) == Some(Seq::<Seq<char>>::empty()));
            assert(seq![t0] + Seq::<Seq<char>>::empty() =~= ts);
        } else {
            assert forall|i: int| 0 <= i < ts.drop_first().len() implies tok_wf(
                #[trigger] ts.drop_first()[i],
            ) by {
                assert(ts.drop_first()[i] == ts[i + 1]);
            }
            lemma_parse_render_roundtrip(ts.drop_first());
            assert(rest.drop_first() =~= render_spec(ts.drop_first()));
            assert(parse_spec(rest) == Some(ts.drop_first()));
            assert(seq![t0] + ts.drop_first() =~= ts);
        }
    }
}

/// An ordered, appendable sequence of string tokens, renderable to and
/// parseable from a single shell-like string.
#[derive(Debug)]
pub struct ArgumentList {
    tokens: Vec<String>,
}

impl Clone for ArgumentList {
    /// The clone holds the same tokens.
    fn clone(&self) -> (r: Self)
        ensures
            r@ == self@,
    {
        let mut r = ArgumentList::new();
        r.merge(self);
        proof {
            assert(r@ =~= self@);
        }
        r
    }
}

impl Default for ArgumentList {
    /// The default argument list is empty.
    fn default() -> (r: Self)
        ensures
            r@ == Seq::<Seq<char>>::empty(),
    {
        ArgumentList::new()
    }
}

impl View for ArgumentList {
    type V = Seq<Seq<char>>;

    closed spec fn view(&self) -> Seq<Seq<char>> {
        self.tokens.deep_view()
    }
}

impl ArgumentList {
    #[verifier::type_invariant]
    spec fn inv(self) -> bool {
        toks_wf(self.tokens.deep_view())
    }

    /// Create an empty argument list.
    pub fn new() -> (r: Self)
        ensures
            r@ == Seq::<Seq<char>>::empty(),
    {
        let r = ArgumentList { tokens: Vec::new() };
        proof {
            assert(r@ =~= Seq::<Seq<char>>::empty());
        }
        r
    }

    /// The number of tokens.
    pub fn len(&self) -> (n: usize)
        ensures
            n == self@.len(),
    {
        self.tokens.len()
    }

    /// Read the token at position `i`.
    pub fn token_at(&self, i: usize) -> (t: &str)
        requires
            i < self@.len(),
        ensures
            t@ == self@[i as int],
    {
        self.tokens[i].as_str()
    }

    /// Append an owned token known to be well formed.
    pub(crate) fn push_string(&mut self, token: String)
        requires
            tok_wf(token@),
        ensures
            final(self)@ == old(self)@.push(token@),
    {
        proof {
            use_type_invariant(&*self);
        }
        let ghost tv = token@;
        let ghost old_dv = self.tokens.deep_view();
        let mut toks: Vec<String> = Vec::new();
        core::mem::swap(&mut toks, &mut self.tokens);
        toks.push(token);
        proof {
            assert(toks.deep_view() =~= old_dv.push(tv));
        }
        self.tokens = toks;
    }

    /// Append a borrowed token known to be well formed.
    pub(crate) fn push_token(&mut self, token: &str)
        requires
            tok_wf(token@),
        ensures
            final(self)@ == old(self)@.push(token@),
    {
        self.push_string(token.to_owned());
    }

    /// Add a token at the end of the list. Fails exactly when the token
    /// embeds the double-quote character, which the textual form cannot
    /// carry; the list is unchanged in that case.
    pub fn append(&mut self, token: &str) -> (r: Result<(), EncodingError>)
        ensures
            match r {
                Ok(()) => tok_wf(token@) && final(self)@ == old(self)@.push(token@),
                Err(e) => !tok_wf(token@) && final(self)@ == old(self)@ && e
                    == EncodingError::EmbeddedQuote,
            },
    {
        if token_is_wf(token) {
            self.push_token(token);
            Ok(())
        } else {
            Err(EncodingError::EmbeddedQuote)
        }
    }

    /// Append all tokens of `other`, in order.
    pub fn merge(&mut self, other: &ArgumentList)
        ensures
            final(self)@ == old(self)@ + other@,
    {
        proof {
            use_type_invariant(&*other);
        }
        let ghost orig = self@;
        let n = other.tokens.len();
        let mut i: usize = 0;
        while i < n
            invariant
                n == other@.len(),
                i <= n,
                toks_wf(other@),
                self@ == orig + other@.take(i as int),
            decreases n - i,
        {
            let t = other.tokens[i].clone();
            assert(t@ == other@[i as int]);
            self.push_string(t);
            proof {
                assert(self@ =~= orig + other@.take(i as int + 1));
            }
            i += 1;
        }
        proof {
            assert(orig + other@.take(n as int) =~= orig + other@);
        }
    }

    /// Tokenize a shell-like source string: whitespace separates tokens,
    /// double-quoted segments are taken verbatim (no escape sequences).
    /// Fails exactly when a quoted segment is unterminated.
    pub fn parse(source: &str) -> (r: Result<ArgumentList, ParseError>)
        ensures
            match r {
                Ok(l) => parse_spec(source@) == Some(l@) && toks_wf(l@),
                Err(e) => parse_spec(source@) is None && e == ParseError::UnterminatedQuote,
            },
    {
        let mut tokens: Vec<String> = Vec::new();
        match parse_tokens(source, 0, &mut tokens) {
            Ok(()) => {
                proof {
                    assert(source@.skip(0) =~= source@);
                    lemma_parse_wf(source@);
                    assert(tokens.deep_view() =~= (parse_spec(source@)->0));
                }
                Ok(ArgumentList { tokens })
            },
            Err(e) => {
                proof {
                    assert(source@.skip(0) =~= source@);
                }
                Err(e)
            },
        }
    }

    /// Render the list as a single string: tokens joined with single
    /// spaces, re-quoting any token that is empty or contains whitespace.
    /// Parsing the rendered text yields exactly this list's tokens again.
    pub fn render(&self) -> (r: String)
        ensures
            r@ == render_spec(self@),
            parse_spec(r@) == Some(self@),
    {
        proof {
            use_type_invariant(&*self);
            lemma_parse_render_roundtrip(self@);
        }
        let mut out = String::new();
        render_tail(&self.tokens, 0, &mut out);
        proof {
            assert(self.tokens.deep_view().skip(0) =~= self@);
        }
        out
    }
}

/// Append the textual form of `tokens[i..]` to `out`.
fn render_tail(tokens: &Vec<String>, i: usize, out: &mut String)
    requires
        i <= tokens@.len(),
    ensures
        final(out)@ == old(out)@ + render_spec(tokens.deep_view().skip(i as int)),
    decreases tokens@.len() - i,
{
    let ghost ts = tokens.deep_view().skip(i as int);
    if i == tokens.len() {
        proof {
            assert(ts =~= Seq::<Seq<char>>::empty());
            assert(out@ =~= out@ + render_spec(ts));
        }
        return;
    }
    let t = &tokens[i];
    assert(t@ == ts[0]);
    if token_needs_quote(t.as_str()) {
        out.append("\"");
        out.append(t.as_str());
        out.append("\"");
        proof {
            reveal_strlit("\"");
            assert("\""@ =~= seq!['"']);
            assert(out@ =~= old(out)@ + quoted(ts[0]));
        }
    } else {
        out.append(t.as_str());
        assert(out@ =~= old(out)@ + quoted(ts[0]));
    }
    if i + 1 == tokens.len() {
        assert(ts.len() == 1);
    } else {
        out.append(" ");
        render_tail(tokens, i + 1, out);
        proof {
            reveal_strlit(" ");
            assert(" "@ =~= seq![' ']);
            assert(tokens.deep_view().skip(i as int + 1) =~= ts.drop_first());
            assert(out@ =~= old(out)@ + render_spec(ts));
        }
    }
}

/// Position just past the maximal run of plain characters starting at `i`.
fn plain_run_end(s: &str, i: usize) -> (j: usize)
    requires
        i <= s@.len(),
    ensures
        i <= j <= s@.len(),
        j - i == plain_run_len(s@.skip(i as int)),
    decreases s@.len() - i,
{
    if i == s.unicode_len() {
        proof {
            assert(s@.skip(i as int) =~= Seq::<char>::empty());
        }
        return i;
    }
    let c = s.get_char(i);
    assert(s@.skip(i as int)[0] == c);
    if char_is_ws(c) || c == '"' {
        return i;
    }
    let j = plain_run_end(s, i + 1);
    proof {
        assert(s@.skip(i as int).drop_first() =~= s@.skip(i as int + 1));
    }
    j
}

/// Position of the first double quote at or after `i`, if any.
fn find_closing_quote(s: &str, i: usize) -> (r: Option<usize>)
    requires
        i <= s@.len(),
    ensures
        match r {
            Some(j) => i <= j < s@.len() && find_quote(s@.skip(i as int)) == Some(
                (j - i) as nat,
            ),
            None => find_quote(s@.skip(i as int)) is None,
        },
    decreases s@.len() - i,
{
    if i == s.unicode_len() {
        proof {
            assert(s@.skip(i as int) =~= Seq::<char>::empty());
        }
        return None;
    }
    let c = s.get_char(i);
    assert(s@.skip(i as int)[0] == c);
    if c == '"' {
        return Some(i);
    }
    let r = find_closing_quote(s, i + 1);
    proof {
        assert(s@.skip(i as int).drop_first() =~= s@.skip(i as int + 1));
    }
    r
}

/// Read one token starting at position `i`, appending its text to `tok`;
/// returns the position just past the token.
fn read_token_at(s: &str, i: usize, tok: &mut String) -> (r: Result<usize, ParseError>)
    requires
        i <= s@.len(),
    ensures
        match r {
            Ok(j) => i <= j <= s@.len() && (read_token(s@.skip(i as int)) matches Some(p)
                && final(tok)@ == old(tok)@ + p.0 && p.1 == s@.skip(j as int)),
            Err(e) => read_token(s@.skip(i as int)) is None && e == ParseError::UnterminatedQuote,
        },
    decreases s@.len() - i,
{
    let ghost t = s@.skip(i as int);
    if i == s.unicode_len() {
        proof {
            assert(t =~= Seq::<char>::empty());
            assert(tok@ + Seq::<char>::empty() =~= tok@);
        }
        return Ok(i);
    }
    let c = s.get_char(i);
    assert(t[0] == c);
    if char_is_ws(c) {
        proof {
            assert(tok@ + Seq::<char>::empty() =~= tok@);
        }
        return Ok(i);
    }
    if c == '"' {
        proof {
            assert(t.skip(1) =~= s@.skip(i as int + 1));
        }
        match find_closing_quote(s, i + 1) {
            None => Err(ParseError::UnterminatedQuote),
            Some(j) => {
                let ghost jq: int = j - i - 1;
                let ghost inner = s@.subrange(i as int + 1, j as int);
                proof {
                    assert(t.skip(1).take(jq) =~= inner);
                }
                tok.append(s.substring_char(i + 1, j));
                proof {
                    assert(t.skip(jq + 2) =~= s@.skip(j as int + 1));
                }
                match read_token_at(s, j + 1, tok) {
                    Ok(j2) => {
                        proof {
                            let p2 = read_token(s@.skip(j as int + 1))->0;
                            assert(tok@ =~= old(tok)@ + (inner + p2.0));
                        }
                        Ok(j2)
                    },
                    Err(e) => Err(e),
                }
            },
        }
    } else {
        let j = plain_run_end(s, i);
        proof {
            assert(plain_run_len(t) >= 1);
            assert(t.take(j - i) =~= s@.subrange(i as int, j as int));
            assert(t.skip(j - i) =~= s@.skip(j as int));
        }
        let ghost front = s@.subrange(i as int, j as int);
        tok.append(s.substring_char(i, j));
        match read_token_at(s, j, tok) {
            Ok(j2) => {
                proof {
                    let p2 = read_token(s@.skip(j as int))->0;
                    assert(tok@ =~= old(tok)@ + (front + p2.0));
                }
                Ok(j2)
            },
            Err(e) => Err(e),
        }
    }
}

/// Parse all tokens from position `i` on, pushing them onto `acc`.
fn parse_tokens(s: &str, i: usize, acc: &mut Vec<String>) -> (r: Result<(), ParseError>)
    requires
        i <= s@.len(),
    ensures
        match r {
            Ok(()) => parse_spec(s@.skip(i as int)) matches Some(ts) && final(acc).deep_view()
                == old(acc).deep_view() + ts,
            Err(e) => parse_spec(s@.skip(i as int)) is None && e == ParseError::UnterminatedQuote,
        },
    decreases s@.len() - i,
{
    let ghost t = s@.skip(i as int);
    if i == s.unicode_len() {
        proof {
            assert(t =~= Seq::<char>::empty());
            assert(acc.deep_view() =~= acc.deep_view() + Seq::<Seq<char>>::empty());
        }
        return Ok(());
    }
    let c = s.get_char(i);
    assert(t[0] == c);
    if char_is_ws(c) {
        proof {
            assert(t.drop_first() =~= s@.skip(i as int + 1));
        }
        let r = parse_tokens(s, i + 1, acc);
        return r;
    }
    let mut tok = String::new();
    let j = match read_token_at(s, i, &mut tok) {
        Ok(j) => j,
        Err(e) => {
            return Err(e);
        },
    };
    proof {
        lemma_read_token_consumes(t);
    }
    let ghost tv = tok@;
    let ghost mid = acc.deep_view().push(tv);
    acc.push(tok);
    proof {
        assert(acc.deep_view() =~= mid);
    }
    match parse_tokens(s, j, acc) {
        Ok(()) => {
            proof {
                let ts2 = parse_spec(s@.skip(j as int))->0;
                assert(acc.deep_view() =~= old(acc).deep_view() + (seq![tv] + ts2));
            }
            Ok(())
        },
        Err(e) => Err(e),
    }
}

/// Whether `c` is one of the whitespace separators of the textual form.
fn char_is_ws(c: char) -> (b: bool)
    ensures
        b == is_ws(c),
{
    c == ' ' || c == '\t' || c == '\n' || c == '\r'
}

/// Whether `t` is free of the double-quote character.
fn token_is_wf(t: &str) -> (b: bool)
    ensures
        b == tok_wf(t@),
{
    let n = t.unicode_len();
    let mut k: usize = 0;
    while k < n
        invariant
            n == t@.len(),
            k <= n,
            forall|j: int| 0 <= j < k ==> t@[j] != '"',
        decreases n - k,
    {
        if t.get_char(k) == '"' {
            return false;
        }
        k += 1;
    }
    true
}

/// Whether `t` must be quoted in the textual form.
fn token_needs_quote(t: &str) -> (b: bool)
    ensures
        b == needs_quote(t@),
{
    let n = t.unicode_len();
    if n == 0 {
        return true;
    }
    let mut k: usize = 0;
    while k < n
        invariant
            n == t@.len(),
            k <= n,
            forall|j: int| 0 <= j < k ==> !is_ws(t@[j]),
        decreases n - k,
    {
        if char_is_ws(t.get_char(k)) {
            return true;
        }
        k += 1;
    }
    false
}

} // verus!
