//! The alphabets of the two rule families.
//!
//! A logical rule is a non-empty run of the symbols `A`, `B`, `C`, the space,
//! `!`, `&&`, `||`, `==` and `!=`. An arithmetic rule is a non-empty run of the
//! characters `D`, `E`, `F`, the space, `+`, `-`, `*`, `/`, `(`, `)` and the
//! decimal digits. Whether such a run is a well-formed expression is not
//! decided here: that is the expression engine's part.

use crate::engine::{matches_pattern, pattern_match};
use vstd::prelude::*;

verus! {

/// The characters of a string, one by one.
fn chars_of(text: &str) -> (chars: Vec<char>)
    ensures
        chars@ == text@,
{
    broadcast use vstd::string::group_string_axioms;

    let mut chars: Vec<char> = Vec::new();
    for c in it: text.chars()
        invariant
            it.seq() == text@,
            chars@ == text@.take(it.index() as int),
    {
        chars.push(c);
    }
    chars
}

/// The symbols that a logical rule is made of.
pub open spec fn is_logical_symbol(word: Seq<char>) -> bool {
    ||| word == seq!['A']
    ||| word == seq!['B']
    ||| word == seq!['C']
    ||| word == seq![' ']
    ||| word == seq!['!']
    ||| word == seq!['&', '&']
    ||| word == seq!['|', '|']
    ||| word == seq!['=', '=']
    ||| word == seq!['!', '=']
}

/// Every word of the sequence is a logical symbol.
pub open spec fn are_logical_symbols(words: Seq<Seq<char>>) -> bool {
    forall|i: int| 0 <= i < words.len() ==> is_logical_symbol(#[trigger] words[i])
}

/// The text is spelled in the alphabet of the logical rules: it is not empty,
/// and it can be cut into logical symbols.
pub open spec fn is_logical_expression(text: Seq<char>) -> bool {
    &&& text.len() > 0
    &&& exists|words: Seq<Seq<char>>|
        are_logical_symbols(words) && #[trigger] words.flatten() == text
}

/// A logical symbol of one character.
pub open spec fn is_short_symbol(c: char) -> bool {
    c == 'A' || c == 'B' || c == 'C' || c == ' ' || c == '!'
}

/// A logical symbol of two characters.
pub open spec fn is_long_symbol(c: char, d: char) -> bool {
    ||| c == '&' && d == '&'
    ||| c == '|' && d == '|'
    ||| c == '=' && d == '='
    ||| c == '!' && d == '='
}

/// The text from `start` on can be cut into logical symbols. This is the
/// cutting read from left to right: the first symbol is short or long, and
/// what follows it can be cut again.
pub open spec fn spells_from(text: Seq<char>, start: int) -> bool
    decreases text.len() - start,
{
    if start >= text.len() {
        start == text.len()
    } else {
        ||| is_short_symbol(text[start]) && spells_from(text, start + 1)
        ||| start + 1 < text.len() && is_long_symbol(text[start], text[start + 1]) && spells_from(
            text,
            start + 2,
        )
    }
}

/// Putting a word in front of a sequence of words puts it in front of what
/// they spell.
proof fn lemma_flatten_front(word: Seq<char>, rest: Seq<Seq<char>>)
    ensures
        (seq![word] + rest).flatten() == word + rest.flatten(),
{
    let all = seq![word] + rest;
    assert(all.first() == word);
    assert(all.drop_first() =~= rest);
}

/// A cutting read from left to right yields the words.
proof fn lemma_cut_gives_words(text: Seq<char>, start: int) -> (words: Seq<Seq<char>>)
    requires
        0 <= start <= text.len(),
        spells_from(text, start),
    ensures
        are_logical_symbols(words),
        words.flatten() == text.skip(start),
    decreases text.len() - start,
{
    if start == text.len() {
        let words = Seq::<Seq<char>>::empty();
        assert(words.flatten() =~= text.skip(start));
        words
    } else if is_short_symbol(text[start]) && spells_from(text, start + 1) {
        let rest = lemma_cut_gives_words(text, start + 1);
        let word = seq![text[start]];
        lemma_flatten_front(word, rest);
        assert(word + text.skip(start + 1) =~= text.skip(start));
        seq![word] + rest
    } else {
        let rest = lemma_cut_gives_words(text, start + 2);
        let word = seq![text[start], text[start + 1]];
        lemma_flatten_front(word, rest);
        assert(word + text.skip(start + 2) =~= text.skip(start));
        seq![word] + rest
    }
}

/// Words that spell the rest of the text are a cutting from left to right.
proof fn lemma_words_give_cut(text: Seq<char>, start: int, words: Seq<Seq<char>>)
    requires
        0 <= start <= text.len(),
        are_logical_symbols(words),
        words.flatten() == text.skip(start),
    ensures
        spells_from(text, start),
    decreases words.len(),
{
    if words.len() == 0 {
        assert(text.skip(start).len() == 0);
    } else {
        let word = words.first();
        let rest = words.drop_first();
        assert(is_logical_symbol(words[0]));
        assert(are_logical_symbols(rest)) by {
            assert forall|i: int| 0 <= i < rest.len() implies is_logical_symbol(
                #[trigger] rest[i],
            ) by {
                assert(rest[i] == words[i + 1]);
            }
        }
        let tail = text.skip(start);
        assert(tail == word + rest.flatten());
        assert(tail.len() == word.len() + rest.flatten().len());
        assert(forall|i: int| 0 <= i < word.len() ==> tail[i] == word[i]);
        assert(rest.flatten() =~= text.skip(start + word.len())) by {
            assert forall|i: int| 0 <= i < rest.flatten().len() implies rest.flatten()[i]
                == text.skip(start + word.len())[i] by {
                assert(tail[word.len() + i] == rest.flatten()[i]);
            }
        }
        if word.len() == 1 {
            assert(tail[0] == word[0]);
            assert(is_short_symbol(text[start]));
        } else {
            assert(word.len() == 2);
            assert(tail[0] == word[0] && tail[1] == word[1]);
            assert(is_long_symbol(text[start], text[start + 1]));
        }
        lemma_words_give_cut(text, start + word.len(), rest);
    }
}

/// A text is a logical expression exactly if it is not empty and can be cut
/// into symbols from its first character on.
pub proof fn lemma_logical_expression_by_cutting(text: Seq<char>)
    ensures
        is_logical_expression(text) <==> text.len() > 0 && spells_from(text, 0),
{
    assert(text.skip(0) =~= text);
    if text.len() > 0 && spells_from(text, 0) {
        let words = lemma_cut_gives_words(text, 0);
        assert(words.flatten() == text);
    }
    if is_logical_expression(text) {
        let words = choose|words: Seq<Seq<char>>|
            are_logical_symbols(words) && #[trigger] words.flatten() == text;
        lemma_words_give_cut(text, 0, words);
    }
}

/// Decides whether `rule` is spelled in the alphabet of the logical rules.
pub fn is_logical_text(rule: &str) -> (accepted: bool)
    ensures
        accepted == is_logical_expression(rule@),
{
    let chars = chars_of(rule);
    let n = chars.len();
    proof {
        lemma_logical_expression_by_cutting(rule@);
    }
    if n == 0 {
        return false;
    }
    // `here` and `next` say whether the text can be cut from `at` and from `at + 1`.
    let mut at: usize = n;
    let mut here = true;
    let mut next = false;
    while at > 0
        invariant
            chars@ == rule@,
            n == chars@.len(),
            at <= n,
            here == spells_from(chars@, at as int),
            next == spells_from(chars@, at + 1),
        decreases at,
    {
        at -= 1;
        let c = chars[at];
        let short = (c == 'A' || c == 'B' || c == 'C' || c == ' ' || c == '!') && here;
        let long = if at + 1 < n {
            let d = chars[at + 1];
            ((c == '&' && d == '&') || (c == '|' && d == '|') || (c == '=' && d == '=') || (c
                == '!' && d == '=')) && next
        } else {
            false
        };
        next = here;
        here = short || long;
    }
    here
}

/// The pattern by which `regex` names the class of decimal digits.
pub open spec fn decimal_digit_pattern() -> Seq<char> {
    "^\\d$"@
}

/// A decimal digit. Among the ASCII characters these are `0` to `9`. Of any
/// other character `regex` decides: its class `\d` holds the decimal digits of
/// every script.
pub open spec fn is_decimal_digit(c: char) -> bool {
    if c <= '\x7f' {
        '0' <= c && c <= '9'
    } else {
        pattern_match(decimal_digit_pattern(), seq![c]) == Some(true)
    }
}

/// The characters that an arithmetic rule is made of.
pub open spec fn is_arithmetic_symbol(c: char) -> bool {
    ||| c == 'D'
    ||| c == 'E'
    ||| c == 'F'
    ||| c == ' '
    ||| c == '+'
    ||| c == '-'
    ||| c == '*'
    ||| c == '/'
    ||| c == '('
    ||| c == ')'
    ||| is_decimal_digit(c)
}

/// The text is spelled in the alphabet of the arithmetic rules: it is not
/// empty, and each of its characters is an arithmetic symbol.
pub open spec fn is_arithmetic_expression(text: Seq<char>) -> bool {
    &&& text.len() > 0
    &&& forall|i: int| 0 <= i < text.len() ==> is_arithmetic_symbol(#[trigger] text[i])
}

/// Asks `regex` whether the character is in its class of decimal digits.
fn in_digit_class(c: char) -> (found: bool)
    ensures
        found == (pattern_match(decimal_digit_pattern(), seq![c]) == Some(true)),
{
    match matches_pattern("^\\d$", c) {
        Some(found) => found,
        None => false,
    }
}

/// Decides whether `rule` is spelled in the alphabet of the arithmetic rules.
pub fn is_arithmetic_text(rule: &str) -> (accepted: bool)
    ensures
        accepted == is_arithmetic_expression(rule@),
{
    let chars = chars_of(rule);
    let n = chars.len();
    if n == 0 {
        return false;
    }
    let mut at: usize = 0;
    while at < n
        invariant
            chars@ == rule@,
            n == chars@.len(),
            at <= n,
            forall|i: int| 0 <= i < at ==> is_arithmetic_symbol(#[trigger] chars@[i]),
        decreases n - at,
    {
        let c = chars[at];
        let accepted = if c <= '\x7f' {
            c == 'D' || c == 'E' || c == 'F' || c == ' ' || c == '+' || c == '-' || c == '*' || c
                == '/' || c == '(' || c == ')' || ('0' <= c && c <= '9')
        } else {
            in_digit_class(c)
        };
        if !accepted {
            return false;
        }
        at += 1;
    }
    true
}

} // verus!
