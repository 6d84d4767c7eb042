//! Quoting for the shell.
use crate::text;
use crate::text::{from_chars, replace, to_chars};
use vstd::prelude::*;
use vstd::string::*;

verus! {

/// A text in single quotes. A quote in it is written outside of them, behind a backslash.
pub open spec fn shell_quoted(s: Seq<char>) -> Seq<char> {
    seq!['\''] + text::replaced(s, seq!['\''], seq!['\'', '\\', '\'', '\'']) + seq!['\'']
}

/// Wraps a text in single quotes, so that the shell takes it for one word.
pub fn shell_quote(s: &str) -> (out: String)
    ensures
        out@ == shell_quoted(s@),
{
    let chars = to_chars(s);
    let pattern: Vec<char> = vec!['\''];
    let with: Vec<char> = vec!['\'', '\\', '\'', '\''];
    let mut inner = replace(chars.as_slice(), pattern.as_slice(), with.as_slice());
    assert(pattern@ =~= seq!['\'']);
    assert(with@ =~= seq!['\'', '\\', '\'', '\'']);
    let mut out: Vec<char> = vec!['\''];
    out.append(&mut inner);
    out.push('\'');
    assert(out@ =~= shell_quoted(s@));
    from_chars(out.as_slice())
}

/// What a shell reads as one word, outside of quotes: a quoted section, or a character behind a
/// backslash. Anything else might be taken for something other than itself, and is not read.
pub open spec fn word_unquoted(t: Seq<char>) -> Option<Seq<char>>
    decreases t.len(),
{
    if t.len() == 0 {
        Some(seq![])
    } else if t[0] == '\'' {
        word_quoted(t.drop_first())
    } else if t[0] == '\\' && t.len() > 1 {
        match word_unquoted(t.skip(2)) {
            Some(rest) => Some(seq![t[1]] + rest),
            None => None,
        }
    } else {
        None
    }
}

/// What a shell reads as one word, within single quotes: every character stands for itself up to
/// the closing quote.
pub open spec fn word_quoted(t: Seq<char>) -> Option<Seq<char>>
    decreases t.len(),
{
    if t.len() == 0 {
        None
    } else if t[0] == '\'' {
        word_unquoted(t.drop_first())
    } else {
        match word_quoted(t.drop_first()) {
            Some(rest) => Some(seq![t[0]] + rest),
            None => None,
        }
    }
}

/// A shell reads a quoted text as one word, and that word is the text.
pub proof fn law_shell_reads_back(s: Seq<char>)
    ensures
        word_unquoted(shell_quoted(s)) == Some(s),
{
    lemma_reads_back(s);
    let inner = text::replaced(s, seq!['\''], seq!['\'', '\\', '\'', '\'']);
    assert(shell_quoted(s).drop_first() =~= inner + seq!['\'']);
}

proof fn lemma_reads_back(s: Seq<char>)
    ensures
        word_quoted(
            text::replaced(s, seq!['\''], seq!['\'', '\\', '\'', '\'']) + seq!['\''],
        ) == Some(s),
    decreases s.len(),
{
    let quote = seq!['\''];
    let with = seq!['\'', '\\', '\'', '\''];
    let t = text::replaced(s, quote, with) + quote;
    reveal_with_fuel(word_quoted, 2);
    reveal_with_fuel(word_unquoted, 2);
    if s.len() == 0 {
        assert(t.drop_first() =~= seq![]);
        assert(s =~= seq![]);
    } else {
        let rest = text::replaced(s.drop_first(), quote, with) + quote;
        lemma_reads_back(s.drop_first());
        assert(s =~= seq![s[0]] + s.drop_first());
        if s[0] == '\'' {
            assert(s.subrange(0, 1) =~= quote);
            assert(text::occurs_at(s, quote, 0));
            assert(s.skip(1) =~= s.drop_first());
            assert(t =~= with + rest);
            let t1 = t.drop_first();
            assert(t1 =~= seq!['\\', '\'', '\''] + rest);
            assert(t1.skip(2) =~= seq!['\''] + rest);
            assert(t1.skip(2).drop_first() =~= rest);
            assert(word_unquoted(t1.skip(2)) == word_quoted(rest));
            assert(word_unquoted(t1) == Some(seq!['\''] + s.drop_first()));
        } else {
            if text::occurs_at(s, quote, 0) {
                assert(s.subrange(0, 1)[0] == s[0]);
            }
            assert(t =~= seq![s[0]] + rest);
            assert(t.drop_first() =~= rest);
        }
    }
}

/// Replacing one character goes by parts.
proof fn lemma_replaced_by_parts(a: Seq<char>, b: Seq<char>, c: char, with: Seq<char>)
    ensures
        text::replaced(a + b, seq![c], with) == text::replaced(a, seq![c], with) + text::replaced(
            b,
            seq![c],
            with,
        ),
    decreases a.len(),
{
    let s = a + b;
    if a.len() == 0 {
        assert(s =~= b);
        assert(text::replaced(a, seq![c], with) =~= seq![]);
        assert(seq![] + text::replaced(b, seq![c], with) =~= text::replaced(b, seq![c], with));
    } else {
        assert(s.drop_first() =~= a.drop_first() + b);
        assert(s.skip(1) =~= s.drop_first());
        assert(a.skip(1) =~= a.drop_first());
        assert(s.subrange(0, 1) =~= seq![s[0]]);
        assert(a.subrange(0, 1) =~= seq![a[0]]);
        assert(seq![c][0] == c);
        assert(seq![s[0]][0] == s[0]);
        lemma_replaced_by_parts(a.drop_first(), b, c, with);
        assert(text::occurs_at(s, seq![c], 0) == text::occurs_at(a, seq![c], 0));
        assert(text::replaced(s, seq![c], with) =~= text::replaced(a, seq![c], with)
            + text::replaced(b, seq![c], with));
    }
}

/// A text without a quote stands in quotes as it is, and a quote closes them, stands behind a
/// backslash, and opens them again.
pub proof fn law_only_quotes_are_escaped(s: Seq<char>, t: Seq<char>)
    ensures
        !s.contains('\'') ==> shell_quoted(s) == seq!['\''] + s + seq!['\''],
        shell_quoted(s + seq!['\''] + t) == shell_quoted(s) + seq!['\\', '\''] + shell_quoted(t),
{
    let with = seq!['\'', '\\', '\'', '\''];
    if !s.contains('\'') {
        lemma_no_quote_replaced(s);
    }
    lemma_replaced_by_parts(s + seq!['\''], t, '\'', with);
    lemma_replaced_by_parts(s, seq!['\''], '\'', with);
    let quote = seq!['\''];
    assert(quote.subrange(0, 1) =~= quote);
    assert(quote.skip(1) =~= seq![]);
    assert(text::replaced(seq![], quote, with) =~= seq![]);
    assert(text::replaced(quote, quote, with) =~= with);
    assert(shell_quoted(s + seq!['\''] + t) =~= shell_quoted(s) + seq!['\\', '\''] + shell_quoted(
        t,
    ));
}

/// A text without a quote is not changed by replacing quotes.
proof fn lemma_no_quote_replaced(s: Seq<char>)
    requires
        !s.contains('\''),
    ensures
        text::replaced(s, seq!['\''], seq!['\'', '\\', '\'', '\'']) == s,
    decreases s.len(),
{
    if s.len() > 0 {
        assert(s.contains(s[0]));
        assert(s.subrange(0, 1)[0] == s[0]);
        let rest = s.drop_first();
        assert(!rest.contains('\'')) by {
            if rest.contains('\'') {
                let i = choose|i: int| 0 <= i < rest.len() && rest[i] == '\'';
                assert(s[i + 1] == '\'');
            }
        }
        lemma_no_quote_replaced(rest);
        assert(seq![s[0]] + rest =~= s);
    } else {
        assert(text::replaced(s, seq!['\''], seq!['\'', '\\', '\'', '\'']) =~= s);
    }
}

} // verus!
