//! Quoting for the shells that run composed commands: POSIX `sh` on servers and
//! PowerShell on Windows.

use crate::search::{replace_char, replaced};
use vstd::prelude::*;
use vstd::string::*;

verus! {

/// `s` between single quotes, with every single quote in it closed, escaped and
/// reopened.
pub open spec fn quoted(s: Seq<char>) -> Seq<char> {
    "'"@ + replaced(s, '\'', "'\\''"@) + "'"@
}

/// Quotes a text for POSIX `sh`, so that it survives blanks and shell
/// metacharacters in a remote command.
pub fn sh_quote(s: &str) -> (r: String)
    ensures
        r@ == quoted(s@),
{
    let mut r = "'".to_owned();
    r.append(replace_char(s, '\'', "'\\''").as_str());
    r.append("'");
    r
}

/// `s` with every single quote doubled, as it stands between single quotes in
/// PowerShell.
pub open spec fn doubled(s: Seq<char>) -> Seq<char> {
    replaced(s, '\'', "''"@)
}

/// Doubles the single quotes of a text that is to stand between single quotes in
/// PowerShell.
pub fn powershell_quote(s: &str) -> (r: String)
    ensures
        r@ == doubled(s@),
{
    replace_char(s, '\'', "''")
}

// ---------------------------------------------------------------- laws
/// Replacing distributes over concatenation.
proof fn lemma_replaced_concat(a: Seq<char>, b: Seq<char>, c: char, t: Seq<char>)
    ensures
        replaced(a + b, c, t) == replaced(a, c, t) + replaced(b, c, t),
    decreases b.len(),
{
    if b.len() == 0 {
        assert(a + b == a);
        assert(replaced(a, c, t) + replaced(b, c, t) == replaced(a, c, t));
    } else {
        lemma_replaced_concat(a, b.drop_last(), c, t);
        assert((a + b).drop_last() == a + b.drop_last());
        assert((a + b).last() == b.last());
        let left = replaced(a, c, t);
        let right = replaced(b.drop_last(), c, t);
        assert(left + right + t == left + (right + t));
        assert((left + right).push(b.last()) == left + right.push(b.last()));
    }
}

/// The first character of a text is replaced in front of the rest.
proof fn lemma_replaced_front(s: Seq<char>, c: char, t: Seq<char>)
    requires
        s.len() > 0,
    ensures
        replaced(s, c, t) == if s[0] == c {
            t + replaced(s.drop_first(), c, t)
        } else {
            seq![s[0]] + replaced(s.drop_first(), c, t)
        },
{
    let one = seq![s[0]];
    assert(s == one + s.drop_first());
    lemma_replaced_concat(one, s.drop_first(), c, t);
    assert(one.drop_last() == Seq::<char>::empty());
    assert(replaced(one.drop_last(), c, t) == Seq::<char>::empty());
    assert(one.last() == s[0]);
    assert(Seq::<char>::empty() + t == t);
    assert(Seq::<char>::empty().push(s[0]) == one);
}

/// How `sh` reads a word: within single quotes every character stands for itself;
/// outside, a single quote opens quotes, a backslash lets the next character stand
/// for itself, and a blank ends the word. The word and what follows it; `None`
/// where a quote stays open or another character stands unprotected.
pub open spec fn sh_word(text: Seq<char>, in_quotes: bool) -> Option<(Seq<char>, Seq<char>)>
    decreases text.len(),
{
    if in_quotes {
        if text.len() == 0 {
            None
        } else if text[0] == '\'' {
            sh_word(text.drop_first(), false)
        } else {
            match sh_word(text.drop_first(), true) {
                Some((word, rest)) => Some((seq![text[0]] + word, rest)),
                None => None,
            }
        }
    } else if text.len() == 0 || text[0] == ' ' {
        Some((seq![], text))
    } else if text[0] == '\'' {
        sh_word(text.drop_first(), true)
    } else if text[0] == '\\' && text.len() > 1 {
        match sh_word(text.skip(2), false) {
            Some((word, rest)) => Some((seq![text[1]] + word, rest)),
            None => None,
        }
    } else {
        None
    }
}

/// A quoted text is one word of a shell command and stands for exactly the text,
/// whatever it holds.
pub proof fn law_quoted_is_one_word(s: Seq<char>, rest: Seq<char>)
    requires
        rest.len() == 0 || rest[0] == ' ',
    ensures
        sh_word(quoted(s) + rest, false) == Some((s, rest)),
{
    reveal_strlit("'");
    let body = replaced(s, '\'', "'\\''"@);
    let tail = seq!['\''] + rest;
    assert(quoted(s) + rest == seq!['\''] + (body + tail));
    assert((seq!['\''] + (body + tail)).drop_first() == body + tail);
    lemma_quoted_body(s, rest);
}

proof fn lemma_quoted_body(s: Seq<char>, rest: Seq<char>)
    requires
        rest.len() == 0 || rest[0] == ' ',
    ensures
        sh_word(replaced(s, '\'', "'\\''"@) + (seq!['\''] + rest), true) == Some((s, rest)),
    decreases s.len(),
{
    reveal_strlit("'\\''");
    let escape = "'\\''"@;
    let tail = seq!['\''] + rest;
    if s.len() == 0 {
        assert(replaced(s, '\'', escape) + tail == tail);
        assert(tail.drop_first() == rest);
        assert(s == Seq::<char>::empty());
        assert(sh_word(rest, false) == Some((Seq::<char>::empty(), rest)));
    } else {
        let t = s.drop_first();
        let body = replaced(t, '\'', escape);
        lemma_quoted_body(t, rest);
        lemma_replaced_front(s, '\'', escape);
        assert(seq![s[0]] + t == s);
        if s[0] == '\'' {
            let all = escape + body + tail;
            // closing quote, escaped quote, opening quote
            let after_close = all.drop_first();
            assert(all[0] == '\'');
            assert(after_close[0] == '\\');
            assert(after_close[1] == '\'');
            let after_escape = after_close.skip(2);
            assert(after_escape[0] == '\'');
            assert(after_escape.drop_first() == body + tail);
            assert(sh_word(after_escape, false) == Some((t, rest)));
            assert(sh_word(after_close, false) == Some((seq!['\''] + t, rest)));
            assert(sh_word(all, true) == sh_word(after_close, false));
        } else {
            let all = seq![s[0]] + body + tail;
            assert(all.drop_first() == body + tail);
            assert(all[0] == s[0]);
            assert(sh_word(all, true) == Some((seq![s[0]] + t, rest)));
        }
    }
}

/// How PowerShell reads the text behind an opening single quote: two single
/// quotes stand for one, a lone one ends the string. The string and what follows
/// it; `None` where the string stays open.
pub open spec fn powershell_string(text: Seq<char>) -> Option<(Seq<char>, Seq<char>)>
    decreases text.len(),
{
    if text.len() == 0 {
        None
    } else if text[0] != '\'' {
        match powershell_string(text.drop_first()) {
            Some((s, rest)) => Some((seq![text[0]] + s, rest)),
            None => None,
        }
    } else if text.len() > 1 && text[1] == '\'' {
        match powershell_string(text.skip(2)) {
            Some((s, rest)) => Some((seq!['\''] + s, rest)),
            None => None,
        }
    } else {
        Some((seq![], text.drop_first()))
    }
}

/// Between single quotes a text with doubled quotes stands for exactly the
/// original text.
pub proof fn law_doubled_is_one_string(s: Seq<char>, rest: Seq<char>)
    requires
        rest.len() == 0 || rest[0] != '\'',
    ensures
        powershell_string(doubled(s) + seq!['\''] + rest) == Some((s, rest)),
    decreases s.len(),
{
    reveal_strlit("''");
    let pair = "''"@;
    let tail = seq!['\''] + rest;
    if s.len() == 0 {
        assert(doubled(s) + seq!['\''] + rest == tail);
        assert(tail.drop_first() == rest);
        assert(s == Seq::<char>::empty());
    } else {
        let t = s.drop_first();
        law_doubled_is_one_string(t, rest);
        lemma_replaced_front(s, '\'', pair);
        assert(seq![s[0]] + t == s);
        let below = doubled(t) + seq!['\''] + rest;
        let all = doubled(s) + seq!['\''] + rest;
        if s[0] == '\'' {
            assert(all == pair + below);
            assert(all.skip(2) == below);
        } else {
            assert(all == seq![s[0]] + below);
            assert(all.drop_first() == below);
        }
    }
}

/// Whether a character stands for itself in a word that is not quoted.
pub open spec fn is_plain(c: char) -> bool {
    ||| 'a' <= c <= 'z'
    ||| 'A' <= c <= 'Z'
    ||| '0' <= c <= '9'
    ||| c == '-'
    ||| c == '.'
    ||| c == '/'
    ||| c == '&'
}

/// Whether a word is made of plain characters.
#[verifier::opaque]
pub open spec fn is_plain_word(word: Seq<char>) -> bool {
    word.len() > 0 && forall|i: int| 0 <= i < word.len() ==> is_plain(#[trigger] word[i])
}

/// The characters of a word that is not quoted, up to the first that is not plain.
pub open spec fn plain_word(text: Seq<char>) -> Seq<char> {
    crate::text::until(text, |c: char| !is_plain(c))
}

/// A word before further words.
pub open spec fn before_words(word: Seq<char>, words: Option<Seq<Seq<char>>>) -> Option<
    Seq<Seq<char>>,
> {
    match words {
        Some(ws) => Some(seq![word] + ws),
        None => None,
    }
}

/// How `sh` reads a command: the words between blanks, quoted ones and such as are made of
/// plain characters. The operator `&&` between blanks reads as a word of its own. `None`
/// where anything else stands in the command.
#[verifier::opaque]
pub open spec fn sh_words(text: Seq<char>) -> Option<Seq<Seq<char>>>
    decreases text.len(),
{
    if text.len() == 0 {
        Some(seq![])
    } else if text[0] == ' ' {
        sh_words(text.drop_first())
    } else if is_plain(text[0]) {
        let word = plain_word(text);
        let rest = text.skip(word.len() as int);
        if 0 < word.len() <= text.len() && (rest.len() == 0 || rest[0] == ' ') {
            before_words(word, sh_words(rest))
        } else {
            None
        }
    } else {
        match sh_word(text, false) {
            Some((word, rest)) => if rest.len() < text.len() {
                before_words(word, sh_words(rest))
            } else {
                None
            },
            None => None,
        }
    }
}

/// A blank separates words and is none.
pub proof fn lemma_words_blank(rest: Seq<char>)
    ensures
        sh_words(" "@ + rest) == sh_words(rest),
{
    reveal_strlit(" ");
    reveal(sh_words);
    assert((" "@ + rest).drop_first() == rest);
}

/// A plain word stands for itself.
pub proof fn lemma_words_plain(word: Seq<char>, rest: Seq<char>)
    requires
        is_plain_word(word),
        rest.len() == 0 || rest[0] == ' ',
    ensures
        sh_words(word + rest) == before_words(word, sh_words(rest)),
{
    reveal(sh_words);
    reveal(is_plain_word);
    let text = word + rest;
    let p = |c: char| !is_plain(c);
    let k = word.len() as int;
    assert forall|i: int| 0 <= i < k implies !p(#[trigger] text[i]) by {
        assert(text[i] == word[i]);
    }
    crate::text::lemma_until(text, p, k);
    assert(text.take(k) == word);
    assert(text.skip(k) == rest);
    assert(text[0] == word[0]);
}

/// A quoted text is one word and stands for the text.
pub proof fn lemma_words_quoted(s: Seq<char>, rest: Seq<char>)
    requires
        rest.len() == 0 || rest[0] == ' ',
    ensures
        sh_words(quoted(s) + rest) == before_words(s, sh_words(rest)),
{
    reveal_strlit("'");
    reveal(sh_words);
    law_quoted_is_one_word(s, rest);
    let text = quoted(s) + rest;
    assert(text[0] == '\'');
    assert(text.len() > rest.len());
}

/// A plain word and a blank before the rest of a command.
pub proof fn lemma_words_next(word: Seq<char>, rest: Seq<char>)
    requires
        is_plain_word(word),
    ensures
        sh_words(word + (" "@ + rest)) == before_words(word, sh_words(rest)),
{
    reveal_strlit(" ");
    lemma_words_plain(word, " "@ + rest);
    lemma_words_blank(rest);
}

/// A quoted text and a blank before the rest of a command.
pub proof fn lemma_words_next_quoted(s: Seq<char>, rest: Seq<char>)
    ensures
        sh_words(quoted(s) + (" "@ + rest)) == before_words(s, sh_words(rest)),
{
    reveal_strlit(" ");
    lemma_words_quoted(s, " "@ + rest);
    lemma_words_blank(rest);
}

/// A quoted text at the end of a command.
pub proof fn lemma_words_last_quoted(s: Seq<char>)
    ensures
        sh_words(quoted(s)) == Some(seq![s]),
{
    reveal(sh_words);
    let none = Seq::<char>::empty();
    lemma_words_quoted(s, none);
    assert(quoted(s) + none == quoted(s));
    assert(sh_words(none) == Some(Seq::<Seq<char>>::empty()));
    assert(seq![s] + Seq::<Seq<char>>::empty() == seq![s]);
}

} // verus!
