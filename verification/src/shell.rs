//! Words of a Unix shell command line.
use vstd::prelude::*;

use crate::text::joined;

verus! {

/// Characters that make a word need quotes.
pub open spec fn is_special(c: char) -> bool {
    ||| c == '\n' || c == '\'' || c == '|' || c == '&' || c == ';' || c == '<' || c == '>'
    ||| c == '(' || c == ')' || c == '$' || c == '`' || c == '\\' || c == '"' || c == ' '
    ||| c == '\t' || c == '*' || c == '?' || c == '[' || c == '#' || c == '~' || c == '='
    ||| c == '%'
}

/// A word with each single quote replaced by `'\''`.
pub open spec fn escaped(word: Seq<char>) -> Seq<char>
    decreases word.len(),
{
    if word.len() == 0 {
        seq![]
    } else if word[0] == '\'' {
        seq!['\'', '\\', '\'', '\''] + escaped(word.drop_first())
    } else {
        seq![word[0]] + escaped(word.drop_first())
    }
}

/// A word as it is written on a command line.
pub open spec fn quoted(word: Seq<char>) -> Seq<char> {
    if word.len() > 0 && (forall|i: int| 0 <= i < word.len() ==> !is_special(#[trigger] word[i])) {
        word
    } else {
        seq!['\''] + escaped(word) + seq!['\'']
    }
}

/// Words as one command line.
pub open spec fn quoted_line(words: Seq<Seq<char>>) -> Seq<char> {
    joined(words.map_values(|w: Seq<char>| quoted(w)), seq![' '])
}

/// Where a reader of a command line stands: between words, there after a
/// backslash, in a comment, inside a word outside quotes, there after a
/// backslash, or inside single or double quotes.
pub enum Reading {
    Between,
    BetweenEscape,
    Comment,
    Bare,
    Escape,
    Single,
    Double,
    DoubleEscape,
}

/// The words that a POSIX shell reads from a command line on which no
/// expansion takes place, going on from `word` (the word begun so far) in the
/// given state, or `None` where a quote stays open.
pub open spec fn words_from(line: Seq<char>, at: Reading, word: Seq<char>) -> Option<Seq<Seq<char>>>
    decreases line.len(),
{
    if line.len() == 0 {
        match at {
            Reading::Between => Some(seq![]),
            Reading::BetweenEscape => Some(seq![seq!['\\']]),
            Reading::Comment => Some(seq![]),
            Reading::Bare => Some(seq![word]),
            Reading::Escape => Some(seq![word.push('\\')]),
            Reading::Single => None,
            Reading::Double => None,
            Reading::DoubleEscape => None,
        }
    } else {
        let c = line[0];
        let rest = line.drop_first();
        match at {
            Reading::Between => if c == ' ' || c == '\t' || c == '\n' {
                words_from(rest, Reading::Between, seq![])
            } else if c == '\'' {
                words_from(rest, Reading::Single, seq![])
            } else if c == '"' {
                words_from(rest, Reading::Double, seq![])
            } else if c == '\\' {
                words_from(rest, Reading::BetweenEscape, seq![])
            } else if c == '#' {
                words_from(rest, Reading::Comment, seq![])
            } else {
                words_from(rest, Reading::Bare, seq![c])
            },
            Reading::BetweenEscape => if c == '\n' {
                words_from(rest, Reading::Between, seq![])
            } else {
                words_from(rest, Reading::Bare, seq![c])
            },
            Reading::Comment => if c == '\n' {
                words_from(rest, Reading::Between, seq![])
            } else {
                words_from(rest, Reading::Comment, seq![])
            },
            Reading::Bare => if c == ' ' || c == '\t' || c == '\n' {
                match words_from(rest, Reading::Between, seq![]) {
                    Some(words) => Some(seq![word] + words),
                    None => None,
                }
            } else if c == '\'' {
                words_from(rest, Reading::Single, word)
            } else if c == '"' {
                words_from(rest, Reading::Double, word)
            } else if c == '\\' {
                words_from(rest, Reading::Escape, word)
            } else {
                words_from(rest, Reading::Bare, word.push(c))
            },
            Reading::Escape => if c == '\n' {
                words_from(rest, Reading::Bare, word)
            } else {
                words_from(rest, Reading::Bare, word.push(c))
            },
            Reading::Single => if c == '\'' {
                words_from(rest, Reading::Bare, word)
            } else {
                words_from(rest, Reading::Single, word.push(c))
            },
            Reading::Double => if c == '"' {
                words_from(rest, Reading::Bare, word)
            } else if c == '\\' {
                words_from(rest, Reading::DoubleEscape, word)
            } else {
                words_from(rest, Reading::Double, word.push(c))
            },
            Reading::DoubleEscape => if c == '\n' {
                words_from(rest, Reading::Double, word)
            } else if c == '$' || c == '`' || c == '"' || c == '\\' {
                words_from(rest, Reading::Double, word.push(c))
            } else {
                words_from(rest, Reading::Double, word.push('\\').push(c))
            },
        }
    }
}

/// The words that a shell reads from a command line.
pub open spec fn shell_words(line: Seq<char>) -> Option<Seq<Seq<char>>> {
    words_from(line, Reading::Between, seq![])
}

/// Inside single quotes, an escaped word followed by the closing quote adds
/// the word and leaves the quotes.
proof fn lemma_escaped_read(word: Seq<char>, rest: Seq<char>, before: Seq<char>)
    ensures
        words_from(escaped(word) + (seq!['\''] + rest), Reading::Single, before) == words_from(
            rest,
            Reading::Bare,
            before + word,
        ),
    decreases word.len(),
{
    let tail = seq!['\''] + rest;
    if word.len() == 0 {
        assert(escaped(word) + tail =~= tail);
        assert(tail.drop_first() =~= rest);
        assert(before + word =~= before);
    } else {
        let more = escaped(word.drop_first()) + tail;
        let line = escaped(word) + tail;
        if word[0] == '\'' {
            assert(line =~= seq!['\'', '\\', '\'', '\''] + more);
            assert(line.drop_first() =~= seq!['\\', '\'', '\''] + more);
            let line2 = line.drop_first();
            assert(line2.drop_first() =~= seq!['\'', '\''] + more);
            let line3 = line2.drop_first();
            assert(line3.drop_first() =~= seq!['\''] + more);
            let line4 = line3.drop_first();
            assert(line4.drop_first() =~= more);
            assert(words_from(line, Reading::Single, before) == words_from(line2, Reading::Bare, before));
            assert(words_from(line2, Reading::Bare, before) == words_from(line3, Reading::Escape, before));
            assert(words_from(line3, Reading::Escape, before) == words_from(line4, Reading::Bare, before.push('\'')));
            assert(words_from(line4, Reading::Bare, before.push('\'')) == words_from(more, Reading::Single, before.push('\'')));
        } else {
            assert(line =~= seq![word[0]] + more);
            assert(line.drop_first() =~= more);
            assert(words_from(line, Reading::Single, before) == words_from(more, Reading::Single, before.push(word[0])));
        }
        lemma_escaped_read(word.drop_first(), rest, before.push(word[0]));
        assert(before.push(word[0]) + word.drop_first() =~= before + word);
    }
}

/// Outside quotes, plain characters are added to the word as they stand.
proof fn lemma_plain_read(word: Seq<char>, rest: Seq<char>, before: Seq<char>)
    requires
        forall|i: int| 0 <= i < word.len() ==> !is_special(#[trigger] word[i]),
    ensures
        words_from(word + rest, Reading::Bare, before) == words_from(
            rest,
            Reading::Bare,
            before + word,
        ),
    decreases word.len(),
{
    if word.len() == 0 {
        assert(word + rest =~= rest);
        assert(before + word =~= before);
    } else {
        assert(!is_special(word[0]));
        assert((word + rest).drop_first() =~= word.drop_first() + rest);
        lemma_plain_read(word.drop_first(), rest, before.push(word[0]));
        assert(before.push(word[0]) + word.drop_first() =~= before + word);
    }
}

/// A quoted word is read back as that word.
proof fn lemma_quoted_read(word: Seq<char>, rest: Seq<char>)
    ensures
        words_from(quoted(word) + rest, Reading::Between, seq![]) == words_from(
            rest,
            Reading::Bare,
            word,
        ),
{
    let line = quoted(word) + rest;
    if word.len() > 0 && (forall|i: int| 0 <= i < word.len() ==> !is_special(#[trigger] word[i])) {
        assert(!is_special(word[0]));
        assert(line.drop_first() =~= word.drop_first() + rest);
        assert(words_from(line, Reading::Between, seq![]) == words_from(line.drop_first(), Reading::Bare, seq![word[0]]));
        lemma_plain_read(word.drop_first(), rest, seq![word[0]]);
        assert(seq![word[0]] + word.drop_first() =~= word);
    } else {
        assert(line.drop_first() =~= escaped(word) + (seq!['\''] + rest));
        lemma_escaped_read(word, rest, seq![]);
        assert(Seq::<char>::empty() + word =~= word);
    }
}

/// The command line without its last word, when read, continues with what is
/// put behind it.
proof fn lemma_line_read(words: Seq<Seq<char>>, rest: Seq<char>)
    requires
        words.len() > 0,
        words_from(rest, Reading::Bare, words.last()) is Some,
    ensures
        words_from(quoted_line(words) + rest, Reading::Between, seq![]) == Some(
            words.drop_last() + words_from(rest, Reading::Bare, words.last())->0,
        ),
    decreases words.len(),
{
    let q = words.map_values(|w: Seq<char>| quoted(w));
    let got = words_from(rest, Reading::Bare, words.last())->0;
    if words.len() == 1 {
        lemma_quoted_read(words[0], rest);
        assert(words.drop_last() + got =~= got);
    } else {
        let front = words.drop_last();
        let tail = seq![' '] + (quoted(words.last()) + rest);
        assert(q.drop_last() =~= front.map_values(|w: Seq<char>| quoted(w)));
        assert(quoted_line(words) + rest =~= quoted_line(front) + tail);
        lemma_quoted_read(words.last(), rest);
        assert(tail.drop_first() =~= quoted(words.last()) + rest);
        assert(words_from(tail, Reading::Bare, front.last()) == Some(seq![front.last()] + got));
        lemma_line_read(front, tail);
        assert(front.drop_last() + (seq![front.last()] + got) =~= front + got);
    }
}

/// A shell reads back from a command line exactly the words that it was made
/// of, whatever characters they hold.
pub proof fn shell_reads_back(words: Seq<Seq<char>>)
    ensures
        shell_words(quoted_line(words)) == Some(words),
{
    let nothing = Seq::<char>::empty();
    if words.len() == 0 {
        assert(quoted_line(words) =~= nothing);
        assert(words =~= seq![]);
    } else {
        assert(words_from(nothing, Reading::Bare, words.last()) == Some(seq![words.last()]));
        lemma_line_read(words, nothing);
        assert(quoted_line(words) + nothing =~= quoted_line(words));
        assert(words.drop_last() + seq![words.last()] =~= words);
    }
}

} // verus!
