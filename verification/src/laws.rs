//! What holds of the grammar and the reader on every text.

use crate::grammar::{
    decimal_value, spec_game, spec_game_termination, spec_pgn_integer, spec_pgn_string,
    spec_pgn_string_char, spec_pgn_string_chars,
};
use crate::model::{games_view, Game};
use crate::parser::parsed_as_view;
use crate::quoting::{escape, quote};
use crate::reader::{
    lemma_find_termination_splits, spec_find_termination, spec_read_games, termination_at_front,
};
use crate::scan::{lemma_run_len, run_len, CharClass, ParseResult};
use vstd::prelude::*;

verus! {

/// Whether every `\` in the body of a quoted string begins an escape, `\"`
/// or `\\`. The grammar also reads a `\` before any other character, as
/// itself; such a body is not written the way `escape` writes it.
pub open spec fn escapes_only(body: Seq<char>) -> bool
    decreases body.len(),
{
    match spec_pgn_string_char(body) {
        Some((_, rest)) => (body[0] == '\\' ==> body.len() >= 2 && (body[1] == '"' || body[1]
            == '\\')) && escapes_only(rest),
        None => true,
    }
}

/// Reading the characters of an escaped value that is followed by a quote
/// gives the value back and stops at the quote.
pub proof fn lemma_read_escaped(value: Seq<char>, rest: Seq<char>)
    ensures
        spec_pgn_string_chars(escape(value) + seq!['"'] + rest) == (value, seq!['"'] + rest),
    decreases value.len(),
{
    let text = escape(value) + seq!['"'] + rest;
    if value.len() == 0 {
        assert(text =~= seq!['"'] + rest);
        assert(spec_pgn_string_char(text) is None);
        assert(value =~= Seq::<char>::empty());
    } else {
        let tail = value.drop_first();
        let tail_text = escape(tail) + seq!['"'] + rest;
        lemma_read_escaped(tail, rest);
        if value[0] == '"' || value[0] == '\\' {
            assert(text =~= seq!['\\', value[0]] + tail_text);
            assert(text.skip(2) =~= tail_text);
            assert(spec_pgn_string_char(text) == Some((value[0], tail_text)));
        } else {
            assert(text =~= seq![value[0]] + tail_text);
            assert(text.skip(1) =~= tail_text);
            assert(spec_pgn_string_char(text) == Some((value[0], tail_text)));
        }
        assert(seq![value[0]] + tail =~= value);
    }
}

/// Writing a value as a quoted string and reading it gives the value back,
/// whatever follows the string.
pub proof fn lemma_quote_then_read(value: Seq<char>, rest: Seq<char>)
    ensures
        spec_pgn_string(quote(value) + rest) == Some((value, rest)),
{
    let text = quote(value) + rest;
    let body = escape(value) + seq!['"'] + rest;
    assert(text.drop_first() =~= body);
    lemma_read_escaped(value, rest);
    assert((seq!['"'] + rest).drop_first() =~= rest);
}

/// Escaping the value that the characters of a string body stand for gives
/// the body back, where every `\` of the body begins an escape.
pub proof fn lemma_escape_read_chars(body: Seq<char>)
    requires
        escapes_only(body),
    ensures
        escape(spec_pgn_string_chars(body).0) + spec_pgn_string_chars(body).1 == body,
    decreases body.len(),
{
    match spec_pgn_string_char(body) {
        Some((c, rest)) => {
            lemma_escape_read_chars(rest);
            let (cs, left) = spec_pgn_string_chars(rest);
            let value = seq![c] + cs;
            assert(value.drop_first() =~= cs);
            if body[0] == '\\' {
                assert(escape(value) =~= seq!['\\', c] + escape(cs));
                assert((seq!['\\', c] + escape(cs)) + left =~= seq!['\\', c] + (escape(cs) + left));
                assert(seq!['\\', c] + body.skip(2) =~= body);
            } else {
                assert(escape(value) =~= seq![c] + escape(cs));
                assert((seq![c] + escape(cs)) + left =~= seq![c] + (escape(cs) + left));
                assert(seq![c] + body.skip(1) =~= body);
            }
        },
        None => {
            assert(Seq::<char>::empty() + body =~= body);
        },
    }
}

/// Reading a quoted string and writing the value again as a quoted string
/// gives the text that was read, where every `\` between the quotes begins
/// an escape.
pub proof fn lemma_read_then_quote(text: Seq<char>)
    requires
        spec_pgn_string(text) is Some,
        escapes_only(text.drop_first()),
    ensures
        ({
            let (value, rest) = spec_pgn_string(text).unwrap();
            quote(value) + rest == text
        }),
{
    let body = text.drop_first();
    let (value, left) = spec_pgn_string_chars(body);
    lemma_escape_read_chars(body);
    let rest = left.drop_first();
    assert(seq!['"'] + rest =~= left);
    assert(quote(value) + rest =~= seq!['"'] + (escape(value) + left));
    assert(seq!['"'] + body =~= text);
}

/// An integer is read exactly where the text begins with a digit and the
/// run of digits at its front writes a number of 32 bits. It is then the
/// number that the whole run writes: the text left is the text behind the
/// run and does not begin with a digit.
pub proof fn lemma_integer_is_maximal_run(s: Seq<char>)
    ensures
        spec_pgn_integer(s) is Some <==> s.len() > 0 && CharClass::Digit.contains(s[0])
            && decimal_value(s.take(run_len(s, CharClass::Digit) as int)) <= u32::MAX,
        spec_pgn_integer(s) matches Some((value, rest)) ==> {
            let n = s.len() - rest.len();
            &&& 0 < n <= s.len()
            &&& rest == s.skip(n)
            &&& value == decimal_value(s.take(n))
            &&& forall|i: int| 0 <= i < n ==> CharClass::Digit.contains(#[trigger] s[i])
            &&& rest.len() > 0 ==> !CharClass::Digit.contains(rest[0])
        },
{
    lemma_run_len(s, CharClass::Digit);
}

/// Two readings of one text agree: either both fail, or both give a game of
/// the same value and leave the same text.
pub proof fn lemma_game_is_function_of_text<'a, 'b>(
    text: Seq<char>,
    first: ParseResult<'a, Game>,
    second: ParseResult<'b, Game>,
)
    requires
        parsed_as_view(first, spec_game(text)),
        parsed_as_view(second, spec_game(text)),
    ensures
        first is Ok <==> second is Ok,
        first matches Ok((g1, rest1)) ==> second matches Ok((g2, rest2)) && g1@ == g2@ && rest1@
            == rest2@,
{
}

/// Two lists of games read from one text have the same values in the same
/// order.
pub proof fn lemma_games_are_function_of_text(text: Seq<char>, first: Vec<Game>, second: Vec<Game>)
    requires
        games_view(first@) == spec_read_games(text),
        games_view(second@) == spec_read_games(text),
    ensures
        first@.len() == second@.len(),
        forall|i: int| 0 <= i < first@.len() ==> first@[i]@ == second@[i]@,
{
    assert(games_view(first@).len() == first@.len());
    assert(games_view(second@).len() == second@.len());
    assert forall|i: int| 0 <= i < first@.len() implies first@[i]@ == second@[i]@ by {
        assert(games_view(first@)[i] == first@[i]@);
        assert(games_view(second@)[i] == second@[i]@);
    }
}

/// Whether the first result token that can be the end of a game stands at
/// the place `j` of the text.
pub open spec fn first_termination_at(s: Seq<char>, j: int) -> bool {
    &&& 0 <= j < s.len()
    &&& termination_at_front(s.skip(j))
    &&& forall|k: int| 0 <= k < j ==> !termination_at_front(#[trigger] s.skip(k))
}

/// The split of `spec_find_termination` stands behind the first result
/// token that can be the end of a game: the second part is what the token
/// leaves, and the first part is all that stands before it.
pub proof fn lemma_find_termination_is_first(s: Seq<char>, j: int)
    requires
        first_termination_at(s, j),
    ensures
        spec_find_termination(s).1 == spec_game_termination(s.skip(j)).unwrap().1,
        spec_find_termination(s).0 + spec_find_termination(s).1 == s,
    decreases j,
{
    lemma_find_termination_splits(s);
    assert(s.skip(0) =~= s);
    if j > 0 {
        let t = s.drop_first();
        assert forall|k: int| 0 <= k < j - 1 implies !termination_at_front(#[trigger] t.skip(k)) by {
            assert(t.skip(k) =~= s.skip(k + 1));
        }
        assert(t.skip(j - 1) =~= s.skip(j));
        lemma_find_termination_is_first(t, j - 1);
    }
}

/// Where no result token that can be the end of a game stands anywhere in
/// the text, the split is at the end of the text.
pub proof fn lemma_find_termination_without_token(s: Seq<char>)
    requires
        forall|i: int| 0 <= i < s.len() ==> !termination_at_front(#[trigger] s.skip(i)),
    ensures
        spec_find_termination(s) == (s, Seq::<char>::empty()),
    decreases s.len(),
{
    if s.len() == 0 {
        assert(s =~= Seq::<char>::empty());
    } else {
        assert(s.skip(0) =~= s);
        let t = s.drop_first();
        assert forall|i: int| 0 <= i < t.len() implies !termination_at_front(#[trigger] t.skip(i)) by {
            assert(t.skip(i) =~= s.skip(i + 1));
        }
        lemma_find_termination_without_token(t);
        assert(seq![s[0]] + t =~= s);
    }
}

} // verus!
