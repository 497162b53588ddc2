//! Token trees: the input of the `fsm!` description language.
//!
//! A description arrives as a sequence of token trees, as the Rust lexer makes them:
//! identifiers, punctuation characters (marked when they join the next one, as the two
//! characters of `=>` do), literals, and delimited groups. A group is one token to the
//! grammar, whatever it holds; it keeps its contents as token trees, which the grammar reads
//! where it looks inside (a state block's braces).

use vstd::prelude::*;

verus! {

/// The delimiter of a group.
#[derive(Clone, Copy, Debug, PartialEq, Eq)]
pub enum Delimiter {
    /// `( ... )`
    Parenthesis,
    /// `{ ... }`
    Brace,
    /// `[ ... ]`
    Bracket,
    /// A group without visible delimiters.
    Invisible,
}

/// A token tree.
#[derive(Debug)]
pub enum Token {
    /// An identifier or keyword.
    Ident(String),
    /// A punctuation character, and whether it joins the next character.
    Punct(char, bool),
    /// A literal, as written.
    Literal(String),
    /// A delimited group, with the token trees it holds.
    Group(Delimiter, Vec<Token>),
}

/// `t` is the identifier `name`.
pub open spec fn is_ident(t: Token, name: Seq<char>) -> bool {
    t matches Token::Ident(s) && s@ == name
}

/// `t` is the punctuation character `c`, joined to the next or not.
pub open spec fn is_punct(t: Token, c: char) -> bool {
    t matches Token::Punct(d, _) && d == c
}

/// `t` is a group delimited by braces.
pub open spec fn is_brace_group(t: Token) -> bool {
    t matches Token::Group(d, _) && d == Delimiter::Brace
}

/// `s` holds `=>` at position `i`: a `=` joined to a following `>`.
pub open spec fn arrow_at(s: Seq<Token>, i: int) -> bool {
    &&& 0 <= i
    &&& i + 1 < s.len()
    &&& s[i] matches Token::Punct(c, joint) && c == '=' && joint
    &&& is_punct(s[i + 1], '>')
}

/// Whether `t` is the identifier `name`.
pub fn token_is_ident(t: &Token, name: &str) -> (b: bool)
    ensures
        b == is_ident(*t, name@),
{
    match t {
        Token::Ident(s) => *s == name.to_owned(),
        _ => false,
    }
}

/// Whether `t` is the punctuation character `c`.
pub fn token_is_punct(t: &Token, c: char) -> (b: bool)
    ensures
        b == is_punct(*t, c),
{
    match t {
        Token::Punct(d, _) => *d == c,
        _ => false,
    }
}

/// Whether `s` holds `=>` at position `i`.
pub fn has_arrow_at(s: &Vec<Token>, i: usize) -> (b: bool)
    ensures
        b == arrow_at(s@, i as int),
{
    if i >= s.len() || s.len() - i < 2 {
        return false;
    }
    let first = match &s[i] {
        Token::Punct(c, joint) => *c == '=' && *joint,
        _ => false,
    };
    first && token_is_punct(&s[i + 1], '>')
}

/// The text that opens a group.
pub open spec fn open_text(d: Delimiter) -> Seq<char> {
    match d {
        Delimiter::Parenthesis => "("@,
        Delimiter::Brace => "{"@,
        Delimiter::Bracket => "["@,
        Delimiter::Invisible => Seq::empty(),
    }
}

/// The text that closes a group.
pub open spec fn close_text(d: Delimiter) -> Seq<char> {
    match d {
        Delimiter::Parenthesis => ")"@,
        Delimiter::Brace => "}"@,
        Delimiter::Bracket => "]"@,
        Delimiter::Invisible => Seq::empty(),
    }
}

/// What follows a token in source text: nothing after a joined punctuation character, a
/// space otherwise.
pub open spec fn separator(t: Token) -> Seq<char> {
    if t matches Token::Punct(_, joint) && joint {
        Seq::empty()
    } else {
        " "@
    }
}

/// Source text that lexes back to the tokens `ts`: each token as written, a group's
/// contents between its delimiters, each token followed by its separator.
pub open spec fn source_text(ts: Seq<Token>) -> Seq<char>
    decreases ts,
{
    if ts.len() == 0 {
        Seq::empty()
    } else {
        let head = match ts[0] {
            Token::Ident(s) => s@,
            Token::Punct(c, _) => seq![c],
            Token::Literal(s) => s@,
            Token::Group(d, inner) => open_text(d) + source_text(inner@) + close_text(d),
        };
        head + separator(ts[0]) + source_text(ts.drop_first())
    }
}

/// Every character of `s` is ASCII.
pub open spec fn ascii_text(s: Seq<char>) -> bool {
    forall|i: int| 0 <= i < s.len() ==> (#[trigger] s[i] as u32) < 128
}

/// The source text of the token `t` is ASCII.
pub open spec fn token_ascii(t: Token) -> bool {
    ascii_text(source_text(seq![t]))
}

/// The source text of every token of `ts` is ASCII.
pub open spec fn tokens_ascii(ts: Seq<Token>) -> bool {
    forall|i: int| 0 <= i < ts.len() ==> #[trigger] token_ascii(ts[i])
}

/// Text is ASCII exactly when both of its parts are.
pub proof fn lemma_ascii_concat(a: Seq<char>, b: Seq<char>)
    ensures
        ascii_text(a + b) <==> ascii_text(a) && ascii_text(b),
{
    if ascii_text(a + b) {
        assert forall|i: int| 0 <= i < a.len() implies (#[trigger] a[i] as u32) < 128 by {
            assert((a + b)[i] == a[i]);
        }
        assert forall|i: int| 0 <= i < b.len() implies (#[trigger] b[i] as u32) < 128 by {
            assert((a + b)[a.len() + i] == b[i]);
        }
    }
    if ascii_text(a) && ascii_text(b) {
        assert forall|i: int| 0 <= i < (a + b).len() implies (#[trigger] (a + b)[i] as u32) < 128 by {
            if i < a.len() {
                assert((a + b)[i] == a[i]);
            } else {
                assert((a + b)[i] == b[i - a.len()]);
            }
        }
    }
}

/// The source text of a single token: the token as written, then its separator.
proof fn lemma_single_source_text(t: Token)
    ensures
        source_text(seq![t]) == (match t {
            Token::Ident(s) => s@,
            Token::Punct(c, _) => seq![c],
            Token::Literal(s) => s@,
            Token::Group(d, inner) => open_text(d) + source_text(inner@) + close_text(d),
        }) + separator(t),
{
    let one = seq![t];
    assert(one[0] == t);
    assert(one.drop_first() =~= Seq::<Token>::empty());
    assert(source_text(one.drop_first()) == Seq::<char>::empty());
    let head = match t {
        Token::Ident(s) => s@,
        Token::Punct(c, _) => seq![c],
        Token::Literal(s) => s@,
        Token::Group(d, inner) => open_text(d) + source_text(inner@) + close_text(d),
    };
    assert(source_text(one) =~= head + separator(t));
}

/// The source text of tokens is ASCII exactly when that of each token is.
pub proof fn lemma_tokens_ascii(ts: Seq<Token>)
    ensures
        tokens_ascii(ts) <==> ascii_text(source_text(ts)),
    decreases ts.len(),
{
    if ts.len() > 0 {
        let t = ts[0];
        let rest = ts.drop_first();
        lemma_tokens_ascii(rest);
        lemma_single_source_text(t);
        let head = match t {
            Token::Ident(s) => s@,
            Token::Punct(c, _) => seq![c],
            Token::Literal(s) => s@,
            Token::Group(d, inner) => open_text(d) + source_text(inner@) + close_text(d),
        };
        assert(source_text(seq![t]) =~= head + separator(t));
        assert(source_text(ts) == (head + separator(t)) + source_text(rest));
        lemma_ascii_concat(head + separator(t), source_text(rest));
        if tokens_ascii(ts) {
            assert(token_ascii(ts[0]));
            assert forall|i: int| 0 <= i < rest.len() implies #[trigger] token_ascii(rest[i]) by {
                assert(rest[i] == ts[i + 1]);
                assert(token_ascii(ts[i + 1]));
            }
        }
        if ascii_text(source_text(ts)) {
            assert forall|i: int| 0 <= i < ts.len() implies #[trigger] token_ascii(ts[i]) by {
                if i > 0 {
                    assert(ts[i] == rest[i - 1]);
                    assert(token_ascii(rest[i - 1]));
                }
            }
        }
    } else {
        assert(source_text(ts) =~= Seq::<char>::empty());
    }
}

/// Every part of tokens whose source text is ASCII has ASCII source text.
pub proof fn lemma_tokens_ascii_subrange(ts: Seq<Token>, a: int, b: int)
    requires
        0 <= a <= b <= ts.len(),
        tokens_ascii(ts),
    ensures
        tokens_ascii(ts.subrange(a, b)),
{
    assert forall|i: int| 0 <= i < b - a implies #[trigger] token_ascii(ts.subrange(a, b)[i]) by {
        assert(ts.subrange(a, b)[i] == ts[a + i]);
        assert(token_ascii(ts[a + i]));
    }
}

/// A group whose source text is ASCII holds tokens whose source text is ASCII.
pub proof fn lemma_group_ascii(d: Delimiter, inner: Vec<Token>)
    requires
        token_ascii(Token::Group(d, inner)),
    ensures
        tokens_ascii(inner@),
{
    let t = Token::Group(d, inner);
    lemma_single_source_text(t);
    let text = open_text(d) + source_text(inner@) + close_text(d) + separator(t);
    assert(source_text(seq![t]) =~= text);
    lemma_ascii_concat(open_text(d) + source_text(inner@) + close_text(d), separator(t));
    lemma_ascii_concat(open_text(d) + source_text(inner@), close_text(d));
    lemma_ascii_concat(open_text(d), source_text(inner@));
    lemma_tokens_ascii(inner@);
}

/// An identifier whose source text is ASCII is ASCII.
pub proof fn lemma_ident_ascii(name: String)
    requires
        token_ascii(Token::Ident(name)),
    ensures
        ascii_text(name@),
{
    let t = Token::Ident(name);
    lemma_single_source_text(t);
    assert(source_text(seq![t]) =~= name@ + separator(t));
    lemma_ascii_concat(name@, separator(t));
}

/// `char::to_string`: the one-character string holding `c`.
#[verifier::external_body]
fn char_string(c: char) -> (s: String)
    ensures
        s@ == seq![c],
{
    c.to_string()
}

/// Appends to `out` the source text of the tokens `ts`.
pub(crate) fn render_into(ts: &Vec<Token>, out: &mut String)
    ensures
        final(out)@ == old(out)@ + source_text(ts@),
    decreases ts,
{
    let ghost start = out@;
    let mut k: usize = 0;
    assert(ts@.subrange(0, ts@.len() as int) =~= ts@);
    while k < ts.len()
        invariant
            k <= ts@.len(),
            out@ + source_text(ts@.subrange(k as int, ts@.len() as int)) == start + source_text(
                ts@,
            ),
        decreases ts@.len() - k,
    {
        let ghost rest = ts@.subrange(k as int, ts@.len() as int);
        let ghost before = out@;
        assert(rest[0] == ts@[k as int]);
        assert(rest.drop_first() =~= ts@.subrange(k + 1, ts@.len() as int));
        match &ts[k] {
            Token::Ident(s) => out.append(s.as_str()),
            Token::Punct(c, _) => {
                let cs = char_string(*c);
                out.append(cs.as_str());
            },
            Token::Literal(s) => out.append(s.as_str()),
            Token::Group(d, inner) => {
                match d {
                    Delimiter::Parenthesis => out.append("("),
                    Delimiter::Brace => out.append("{"),
                    Delimiter::Bracket => out.append("["),
                    Delimiter::Invisible => {},
                }
                render_into(inner, out);
                match d {
                    Delimiter::Parenthesis => out.append(")"),
                    Delimiter::Brace => out.append("}"),
                    Delimiter::Bracket => out.append("]"),
                    Delimiter::Invisible => {},
                }
            },
        }
        let joint = match &ts[k] {
            Token::Punct(_, j) => *j,
            _ => false,
        };
        if !joint {
            out.append(" ");
        }
        proof {
            let t = ts@[k as int];
            let head = match t {
                Token::Ident(s) => s@,
                Token::Punct(c, _) => seq![c],
                Token::Literal(s) => s@,
                Token::Group(d, inner) => open_text(d) + source_text(inner@) + close_text(d),
            };
            assert(out@ =~= before + head + separator(t));
            assert(source_text(rest) == head + separator(t) + source_text(rest.drop_first()));
            assert(before + source_text(rest) =~= before + head + separator(t) + source_text(
                rest.drop_first(),
            ));
        }
        k = k + 1;
    }
    proof {
        assert(source_text(ts@.subrange(k as int, ts@.len() as int)) =~= Seq::<char>::empty());
        assert(out@ + Seq::<char>::empty() =~= out@);
    }
}

/// Source text that lexes back to the tokens `ts`.
pub fn render(ts: &Vec<Token>) -> (s: String)
    ensures
        s@ == source_text(ts@),
{
    let mut out = String::new();
    render_into(ts, &mut out);
    assert(out@ =~= source_text(ts@));
    out
}

} // verus!
