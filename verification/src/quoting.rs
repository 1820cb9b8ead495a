//! Writing a string value as a quoted string, the way the grammar reads it.

use std::str::Chars;
use vstd::prelude::*;
use vstd::std_specs::iter::IteratorSpec;
use vstd::string::StrSliceExecFns;
use vstd::string::StringExecFns;

verus! {

broadcast use vstd::string::group_string_axioms;

/// The text that stands for a string value between quotes: `"` and `\` are
/// written with a `\` before them, all other characters as they are.
pub open spec fn escape(value: Seq<char>) -> Seq<char>
    decreases value.len(),
{
    if value.len() == 0 {
        Seq::empty()
    } else if value[0] == '"' || value[0] == '\\' {
        seq!['\\', value[0]] + escape(value.drop_first())
    } else {
        seq![value[0]] + escape(value.drop_first())
    }
}

/// The quoted string that stands for a value: its escaped text in quotes.
pub open spec fn quote(value: Seq<char>) -> Seq<char> {
    seq!['"'] + escape(value) + seq!['"']
}

/// The text of one character of a value: the character, with a `\\` before
/// it if it is `"` or `\\`.
pub open spec fn escape_char(c: char) -> Seq<char> {
    if c == '"' || c == '\\' {
        seq!['\\', c]
    } else {
        seq![c]
    }
}

/// The escaped text of a value with one more character is the escaped text
/// of the value with the text of the character behind it.
pub proof fn lemma_escape_push(value: Seq<char>, c: char)
    ensures
        escape(value.push(c)) == escape(value) + escape_char(c),
    decreases value.len(),
{
    let longer = value.push(c);
    if value.len() == 0 {
        assert(longer.drop_first() =~= Seq::<char>::empty());
        assert(escape(longer.drop_first()) =~= Seq::<char>::empty());
        assert(longer[0] == c);
        assert(escape(longer) =~= escape_char(c));
        assert(escape(value) =~= Seq::<char>::empty());
        assert(escape(value) + escape_char(c) =~= escape_char(c));
    } else {
        let tail = value.drop_first();
        lemma_escape_push(tail, c);
        assert(longer.drop_first() =~= tail.push(c));
        assert(escape_char(value[0]) + (escape(tail) + escape_char(c)) =~= (escape_char(value[0])
            + escape(tail)) + escape_char(c));
    }
}

/// Writes a value as a quoted string: the value in quotes, with a `\\`
/// before each `"` and each `\\` of it.
pub fn quote_string(value: &str) -> (text: String)
    ensures
        text@ == quote(value@),
{
    proof {
        reveal_strlit("\"");
        reveal_strlit("\\");
        assert("\""@ =~= seq!['"']);
        assert("\\"@ =~= seq!['\\']);
    }
    let mut text = String::new();
    text.append("\"");
    let mut chars: Chars<'_> = value.chars();
    let ghost mut n: int = 0;
    proof {
        assert(value@.take(0) =~= Seq::<char>::empty());
        assert(text@ =~= seq!['"'] + escape(value@.take(0)));
    }
    loop
        invariant_except_break
            0 <= n <= value@.len(),
            chars.remaining() == value@.skip(n),
            text@ == seq!['"'] + escape(value@.take(n)),
            "\\"@ == seq!['\\'],
        ensures
            text@ == seq!['"'] + escape(value@),
        decreases value@.len() - n,
    {
        let rest = chars.as_str();
        match chars.next() {
            Some(c) => {
                let ghost before = text@;
                if c == '"' || c == '\\' {
                    text.append("\\");
                }
                let piece = rest.substring_char(0, 1);
                text.append(piece);
                proof {
                    assert(piece@ =~= seq![c]);
                    assert(c == value@[n]);
                    lemma_escape_push(value@.take(n), c);
                    assert(value@.take(n + 1) =~= value@.take(n).push(c));
                    assert(text@ =~= before + escape_char(c));
                    assert((seq!['"'] + escape(value@.take(n))) + escape_char(c) =~= seq!['"'] + (
                    escape(value@.take(n)) + escape_char(c)));
                    assert(value@.skip(n).drop_first() =~= value@.skip(n + 1));
                    n = n + 1;
                }
            },
            None => {
                proof {
                    assert(value@.take(n) =~= value@);
                }
                break ;
            },
        }
    }
    text.append("\"");
    text
}

} // verus!
