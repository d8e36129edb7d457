//! The line tokenizer: a single left-to-right scan over the characters of
//! one input line, splitting on unquoted white space and honouring single
//! and double quotes.
//!
//! Empty-token policy: whenever a separator run ends the current token, the
//! token is emitted even if it is empty, and the final accumulated token is
//! emitted at end of line even if it is empty. The same rule applies at
//! mid-line separators and at end of line, so a quoted empty argument
//! (`''` or `""`) is preserved as a token of its own. On a line that has
//! been trimmed of outer white space, every empty token therefore comes
//! from an explicit pair of quotes.

use vstd::prelude::*;

use crate::text::is_quote;
use crate::text::is_space;
use crate::text::is_space_char;
use crate::text::line_to_chars;

verus! {

/// Why a line could not be tokenized.
#[derive(Debug, PartialEq, Eq)]
pub enum ParseError {
    /// A quote opened on the line was never closed.
    QuoteMismatch,
}

/// The tokens of `s[i..]`, scanned with quote state `q` (the opening quote
/// character, if inside a quoted section), the token accumulated so far
/// `cur`, the tokens already emitted `acc`, and `in_run` true while inside
/// a run of separating white space that has already emitted its token.
/// `None` when a quote is still open at end of line.
pub open spec fn tokenize_from(
    s: Seq<char>,
    i: int,
    q: Option<char>,
    cur: Seq<char>,
    acc: Seq<Seq<char>>,
    in_run: bool,
) -> Option<Seq<Seq<char>>>
    decreases s.len() - i,
{
    if i < 0 || i >= s.len() {
        if q is Some {
            None
        } else {
            Some(acc.push(cur))
        }
    } else {
        let c = s[i];
        if q is Some {
            if c == q->0 {
                tokenize_from(s, i + 1, None, cur, acc, false)
            } else {
                tokenize_from(s, i + 1, q, cur.push(c), acc, false)
            }
        } else if is_quote(c) {
            tokenize_from(s, i + 1, Some(c), cur, acc, false)
        } else if is_space(c) {
            if in_run {
                tokenize_from(s, i + 1, None, cur, acc, true)
            } else {
                tokenize_from(s, i + 1, None, Seq::empty(), acc.push(cur), true)
            }
        } else {
            tokenize_from(s, i + 1, None, cur.push(c), acc, false)
        }
    }
}

/// The tokens of a whole line, or `None` on a quote mismatch.
pub open spec fn spec_tokenize(s: Seq<char>) -> Option<Seq<Seq<char>>> {
    tokenize_from(s, 0, None, Seq::empty(), Seq::empty(), false)
}

/// Relies on `String`'s `FromIterator<char>` implementation: the string
/// made of exactly the characters of the vector, in order.
#[verifier::external_body]
fn string_from_chars(v: Vec<char>) -> (s: String)
    ensures
        s@ == v@,
{
    String::from_iter(v)
}

/// Tokenize one line, given as its character sequence.
pub fn tokenize_chars(chars: &Vec<char>) -> (r: Result<Vec<String>, ParseError>)
    ensures
        match r {
            Ok(tokens) => {
                &&& Some(tokens.deep_view()) == spec_tokenize(chars@)
                &&& tokens@.len() >= 1
            },
            Err(e) => {
                &&& spec_tokenize(chars@) is None
                &&& e == ParseError::QuoteMismatch
            },
        },
{
    let n = chars.len();
    let mut tokens: Vec<String> = Vec::new();
    let mut cur: Vec<char> = Vec::new();
    let mut quote: Option<char> = None;
    let mut in_run: bool = false;
    let mut i: usize = 0;
    proof {
        assert(tokens.deep_view() =~= Seq::<Seq<char>>::empty());
    }
    while i < n
        invariant
            n == chars@.len(),
            i <= n,
            spec_tokenize(chars@) == tokenize_from(
                chars@,
                i as int,
                quote,
                cur@,
                tokens.deep_view(),
                in_run,
            ),
        decreases n - i,
    {
        let ghost prev_tokens = tokens.deep_view();
        let c = chars[i];
        match quote {
            Some(q) => {
                if c == q {
                    quote = None;
                } else {
                    cur.push(c);
                }
                in_run = false;
            },
            None => {
                if c == '\'' || c == '"' {
                    quote = Some(c);
                    in_run = false;
                } else if is_space_char(c) {
                    if !in_run {
                        let tok = string_from_chars(cur);
                        tokens.push(tok);
                        cur = Vec::new();
                        proof {
                            assert(tokens.deep_view() =~= prev_tokens.push(tok@));
                        }
                    }
                    in_run = true;
                } else {
                    cur.push(c);
                    in_run = false;
                }
            },
        }
        i += 1;
    }
    if quote.is_some() {
        return Err(ParseError::QuoteMismatch);
    }
    let ghost prev_tokens = tokens.deep_view();
    let tok = string_from_chars(cur);
    tokens.push(tok);
    proof {
        assert(tokens.deep_view() =~= prev_tokens.push(tok@));
    }
    Ok(tokens)
}

/// Tokenize one line of input.
pub fn parse_command(line: &str) -> (r: Result<Vec<String>, ParseError>)
    ensures
        match r {
            Ok(tokens) => {
                &&& Some(tokens.deep_view()) == spec_tokenize(line@)
                &&& tokens@.len() >= 1
            },
            Err(e) => {
                &&& spec_tokenize(line@) is None
                &&& e == ParseError::QuoteMismatch
            },
        },
{
    let chars = line_to_chars(line);
    tokenize_chars(&chars)
}

/// Whether the line holds any quote character.
pub open spec fn has_quote_char(s: Seq<char>) -> bool {
    exists|i: int| 0 <= i < s.len() && is_quote(s[i])
}

/// The tokens joined back into one line, with a single space between
/// consecutive tokens.
pub open spec fn join_spaced(ts: Seq<Seq<char>>) -> Seq<char>
    decreases ts.len(),
{
    if ts.len() == 0 {
        Seq::empty()
    } else if ts.len() == 1 {
        ts[0]
    } else {
        ts[0] + seq![' '] + join_spaced(ts.drop_first())
    }
}

/// `s[i..]` with every maximal run of white space replaced by one space;
/// `in_run` true when `s[i]` continues a run already collapsed.
pub open spec fn collapse_from(s: Seq<char>, i: int, in_run: bool) -> Seq<char>
    decreases s.len() - i,
{
    if i < 0 || i >= s.len() {
        Seq::empty()
    } else if is_space(s[i]) {
        if in_run {
            collapse_from(s, i + 1, true)
        } else {
            seq![' '] + collapse_from(s, i + 1, true)
        }
    } else {
        seq![s[i]] + collapse_from(s, i + 1, false)
    }
}

/// The line with every maximal run of white space replaced by one space.
pub open spec fn collapse_spaces(s: Seq<char>) -> Seq<char> {
    collapse_from(s, 0, false)
}

proof fn lemma_join_spaced_push(ts: Seq<Seq<char>>, x: Seq<char>)
    ensures
        join_spaced(ts.push(x)) == if ts.len() == 0 {
            x
        } else {
            join_spaced(ts) + seq![' '] + x
        },
    decreases ts.len(),
{
    if ts.len() == 0 {
        assert(ts.push(x).len() == 1);
        assert(ts.push(x)[0] == x);
    } else {
        assert(ts.push(x).drop_first() =~= ts.drop_first().push(x));
        lemma_join_spaced_push(ts.drop_first(), x);
        if ts.len() == 1 {
            assert(join_spaced(ts.push(x)) == ts[0] + seq![' '] + x);
            assert(join_spaced(ts) == ts[0]);
        } else {
            assert(join_spaced(ts.push(x)) == ts[0] + seq![' '] + (join_spaced(ts.drop_first())
                + seq![' '] + x));
            assert(ts[0] + seq![' '] + (join_spaced(ts.drop_first()) + seq![' '] + x) =~= (ts[0]
                + seq![' '] + join_spaced(ts.drop_first())) + seq![' '] + x);
        }
    }
}

proof fn lemma_tokenize_no_quotes(
    s: Seq<char>,
    i: int,
    cur: Seq<char>,
    acc: Seq<Seq<char>>,
    in_run: bool,
)
    requires
        0 <= i <= s.len(),
        forall|j: int| i <= j < s.len() ==> !is_quote(s[j]),
        in_run ==> cur == Seq::<char>::empty(),
    ensures
        tokenize_from(s, i, None, cur, acc, in_run) is Some,
        join_spaced(tokenize_from(s, i, None, cur, acc, in_run)->0) == join_spaced(acc.push(cur))
            + collapse_from(s, i, in_run),
    decreases s.len() - i,
{
    if i == s.len() {
        assert(tokenize_from(s, i, None, cur, acc, in_run) == Some(acc.push(cur)));
        assert(join_spaced(acc.push(cur)) + Seq::<char>::empty() =~= join_spaced(acc.push(cur)));
    } else {
        let c = s[i];
        assert(!is_quote(c));
        if is_space(c) {
            if in_run {
                lemma_tokenize_no_quotes(s, i + 1, cur, acc, true);
            } else {
                lemma_tokenize_no_quotes(s, i + 1, Seq::empty(), acc.push(cur), true);
                // both sides append one space for this separator
                lemma_join_spaced_push(acc.push(cur), Seq::empty());
                assert(join_spaced(acc.push(cur).push(Seq::empty())) == join_spaced(acc.push(cur))
                    + seq![' '] + Seq::<char>::empty());
                assert(join_spaced(acc.push(cur)) + seq![' '] + Seq::<char>::empty()
                    =~= join_spaced(acc.push(cur)) + seq![' ']);
                assert(join_spaced(acc.push(cur)) + seq![' '] + collapse_from(s, i + 1, true)
                    =~= join_spaced(acc.push(cur)) + (seq![' '] + collapse_from(s, i + 1, true)));
            }
        } else {
            lemma_tokenize_no_quotes(s, i + 1, cur.push(c), acc, false);
            lemma_join_spaced_push(acc, cur.push(c));
            lemma_join_spaced_push(acc, cur);
            if acc.len() == 0 {
                assert(join_spaced(acc.push(cur.push(c))) =~= join_spaced(acc.push(cur))
                    + seq![c]);
            } else {
                assert(join_spaced(acc) + seq![' '] + cur.push(c) =~= (join_spaced(acc) + seq![' ']
                    + cur) + seq![c]);
            }
            assert(join_spaced(acc.push(cur)) + seq![c] + collapse_from(s, i + 1, false)
                =~= join_spaced(acc.push(cur)) + (seq![c] + collapse_from(s, i + 1, false)));
        }
    }
}

/// On a line with balanced quoting and no quote characters at all,
/// tokenizing succeeds, and joining the tokens with single spaces gives
/// back the line with its white space collapsed.
pub proof fn lemma_tokenize_rejoins_collapsed(s: Seq<char>)
    requires
        !has_quote_char(s),
    ensures
        spec_tokenize(s) is Some,
        join_spaced(spec_tokenize(s)->0) == collapse_spaces(s),
{
    assert(forall|j: int| 0 <= j < s.len() ==> !is_quote(s[j]));
    lemma_tokenize_no_quotes(s, 0, Seq::empty(), Seq::empty(), false);
    let e = Seq::<Seq<char>>::empty().push(Seq::<char>::empty());
    assert(e.len() == 1);
    assert(join_spaced(e) == Seq::<char>::empty());
    assert(Seq::<char>::empty() + collapse_spaces(s) =~= collapse_spaces(s));
}

} // verus!
