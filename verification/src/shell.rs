//! Words for a POSIX shell.
use vstd::prelude::*;
use vstd::string::StringExecFns;

use crate::text::{chars_of, join, joined, texts};

verus! {

/// A text in which each single quote ends the quotation, stands escaped, and begins it anew.
pub open spec fn escaped(value: Seq<char>) -> Seq<char>
    decreases value.len(),
{
    if value.len() == 0 {
        Seq::empty()
    } else {
        escaped(value.drop_last()) + (if value.last() == '\'' {
            "'\\''"@
        } else {
            seq![value.last()]
        })
    }
}

/// A text as one word between single quotes.
pub open spec fn quoted(value: Seq<char>) -> Seq<char> {
    "'"@ + escaped(value) + "'"@
}

/// Each text as one word between single quotes.
pub open spec fn quoted_words(words: Seq<String>) -> Seq<Seq<char>> {
    words.map_values(|word: String| quoted(word@))
}

/// A text as one word between single quotes.
pub fn shell_quote(value: &str) -> (r: String)
    ensures
        r@ == quoted(value@),
{
    let chars = chars_of(value);
    let mut r = "'".to_owned();
    proof {
        assert(escaped(chars@.take(0)) =~= Seq::empty());
        assert("'"@ + escaped(chars@.take(0)) =~= "'"@);
    }
    for i in 0..chars.len()
        invariant
            r@ == "'"@ + escaped(chars@.take(i as int)),
    {
        proof {
            assert(chars@.take(i + 1).drop_last() =~= chars@.take(i as int));
            assert(chars@.take(i + 1).last() == chars@[i as int]);
        }
        let ghost before = r@;
        if chars[i] == '\'' {
            r.append("'\\''");
        } else {
            r.push(chars[i]);
        }
        proof {
            assert(r@ =~= "'"@ + escaped(chars@.take(i + 1)));
        }
    }
    proof {
        assert(chars@.take(chars.len() as int) =~= chars@);
    }
    r.append("'");
    r
}

/// The words of a command line, each between single quotes and set apart by spaces.
pub fn quote_words(words: &Vec<String>) -> (r: String)
    ensures
        r@ == joined(quoted_words(words@), " "@),
{
    let mut parts: Vec<String> = Vec::new();
    for i in 0..words.len()
        invariant
            parts@.len() == i,
            forall|k: int| 0 <= k < i ==> (#[trigger] parts@[k])@ == quoted(words@[k]@),
    {
        parts.push(shell_quote(words[i].as_str()));
    }
    proof {
        assert(texts(parts@) =~= quoted_words(words@));
    }
    join(&parts, " ")
}

/// What a shell reads as the value of a text that is made of quotations and escaped characters
/// alone; `inside` says whether the text begins inside a quotation. A text that is anything else,
/// or that ends inside a quotation, is no such word.
pub open spec fn word_value(text: Seq<char>, inside: bool) -> Option<Seq<char>>
    decreases text.len(),
{
    if text.len() == 0 {
        if inside {
            None
        } else {
            Some(Seq::empty())
        }
    } else if text[0] == '\'' {
        word_value(text.skip(1), !inside)
    } else if inside {
        match word_value(text.skip(1), true) {
            Some(rest) => Some(seq![text[0]] + rest),
            None => None,
        }
    } else if text[0] == '\\' && text.len() >= 2 {
        match word_value(text.skip(2), false) {
            Some(rest) => Some(seq![text[1]] + rest),
            None => None,
        }
    } else {
        None
    }
}

/// A shell reads a quoted text as one word whose value is the text itself.
pub proof fn law_quoted_text_reads_back(value: Seq<char>)
    ensures
        word_value(quoted(value), false) == Some(value),
{
    reveal_strlit("'");
    let end = seq!['\''];
    assert("'"@ =~= end);
    assert(quoted(value)[0] == '\'');
    assert(quoted(value).skip(1) =~= escaped(value) + end);
    assert(word_value(end, true) == Some(Seq::<char>::empty())) by {
        assert(end.skip(1) =~= Seq::empty());
        reveal_with_fuel(word_value, 2);
    }
    lemma_escaped_reads_back(value, end, Seq::empty());
    assert(value + Seq::<char>::empty() =~= value);
}

/// Inside a quotation, an escaped text reads as the text, whatever comes after it.
proof fn lemma_escaped_reads_back(value: Seq<char>, after: Seq<char>, rest: Seq<char>)
    requires
        word_value(after, true) == Some(rest),
    ensures
        word_value(escaped(value) + after, true) == Some(value + rest),
    decreases value.len(),
{
    if value.len() == 0 {
        assert(escaped(value) + after =~= after);
        assert(value + rest =~= rest);
    } else {
        let last = value.last();
        let tail = if last == '\'' {
            "'\\''"@ + after
        } else {
            seq![last] + after
        };
        assert(escaped(value) + after =~= escaped(value.drop_last()) + tail);
        if last == '\'' {
            reveal_strlit("'\\''");
            assert(tail[0] == '\'' && tail[1] == '\\' && tail[2] == '\'' && tail[3] == '\'');
            assert(tail.skip(1).skip(2) =~= tail.skip(3));
            assert(tail.skip(3).skip(1) =~= after);
            assert(word_value(tail.skip(3), false) == Some(rest));
            assert(tail.skip(1)[0] == '\\' && tail.skip(1)[1] == '\'');
            assert(word_value(tail.skip(1), false) == Some(seq!['\''] + rest));
            assert(word_value(tail, true) == Some(seq!['\''] + rest));
        } else {
            assert(tail.skip(1) =~= after);
            assert(word_value(tail, true) == Some(seq![last] + rest));
        }
        lemma_escaped_reads_back(value.drop_last(), tail, seq![last] + rest);
        assert(value.drop_last() + (seq![last] + rest) =~= value + rest);
    }
}

/// A text without single quotes stands between two of them as it is.
pub proof fn law_text_without_quotes_stands_as_it_is(value: Seq<char>)
    requires
        forall|i: int| 0 <= i < value.len() ==> #[trigger] value[i] != '\'',
    ensures
        quoted(value) == seq!['\''] + value + seq!['\''],
{
    reveal_strlit("'");
    assert("'"@ =~= seq!['\'']);
    lemma_nothing_to_escape(value);
}

/// Without single quotes nothing is escaped.
proof fn lemma_nothing_to_escape(value: Seq<char>)
    requires
        forall|i: int| 0 <= i < value.len() ==> #[trigger] value[i] != '\'',
    ensures
        escaped(value) == value,
    decreases value.len(),
{
    if value.len() > 0 {
        let shorter = value.drop_last();
        assert forall|i: int| 0 <= i < shorter.len() implies #[trigger] shorter[i] != '\'' by {
            assert(shorter[i] == value[i]);
        }
        lemma_nothing_to_escape(shorter);
        assert(value[value.len() - 1] == value.last());
        assert(shorter + seq![value.last()] =~= value);
    } else {
        assert(escaped(value) =~= value);
    }
}

/// Words are quoted one by one.
pub proof fn law_words_are_quoted_one_by_one(words: Seq<String>, i: int)
    ensures
        quoted_words(words).len() == words.len(),
        0 <= i < words.len() ==> quoted_words(words)[i] == quoted(words[i]@),
{
}

} // verus!
