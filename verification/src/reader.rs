//! The reader of whole records: game after game, going on behind a game
//! that cannot be read.
//!
//! A text may hold many games, and some of them may be malformed. The
//! reader takes the games that the grammar accepts and drops the others: where no
//! game can be read it looks for the next result token, which is where the
//! broken game most likely ends, and goes on behind it. It reports no
//! error: a text without any readable game gives an empty list.

use crate::grammar::{skip_whitespace, spec_game, spec_game_termination};
use crate::model::{games_view, Game, GameTermination, GameView};
use crate::parser::{game, game_termination, skip_space};
use crate::progress::{lemma_game_shrinks, lemma_skip_whitespace_keeps};
use crate::scan::{any_char, lemma_run_len, run_len, scan_class, CharClass, ParseError, ParseResult};
use vstd::prelude::*;
use vstd::string::StrSliceExecFns;

verus! {

/// Whether a result token that leaves `rest` behind it can be the end of a
/// game. It cannot where `"` or `}` follows it: there it most likely stands
/// at the end of a tag's value or of a comment.
pub open spec fn ends_game(rest: Seq<char>) -> bool {
    rest.len() == 0 || (rest[0] != '"' && rest[0] != '}')
}

/// Whether a result token that can be the end of a game stands at the
/// front of the text.
pub open spec fn termination_at_front(s: Seq<char>) -> bool {
    match spec_game_termination(s) {
        Some((_, rest)) => ends_game(rest),
        None => false,
    }
}

/// The number of characters of a result token.
pub open spec fn spec_token_len(termination: GameTermination) -> nat {
    match termination {
        GameTermination::WhiteWins => 3,
        GameTermination::BlackWins => 3,
        GameTermination::DrawnGame => 7,
        GameTermination::Unknown => 1,
    }
}

/// The text split behind the first result token that can be the end of a
/// game: what stands before the split, the token included, and what stands
/// behind it. Without such a token the split is at the end of the text.
pub open spec fn spec_find_termination(s: Seq<char>) -> (Seq<char>, Seq<char>)
    decreases s.len(),
{
    if s.len() == 0 {
        (Seq::empty(), s)
    } else if termination_at_front(s) {
        let rest = spec_game_termination(s).unwrap().1;
        (s.take(s.len() - rest.len()), rest)
    } else {
        let (skipped, rest) = spec_find_termination(s.drop_first());
        (seq![s[0]] + skipped, rest)
    }
}

/// The text behind its leading line feeds, carriage returns and spaces.
pub open spec fn spec_trim_newline_and_space(s: Seq<char>) -> Seq<char> {
    s.skip(run_len(s, CharClass::Blank) as int)
}

/// Where reading goes on behind a game that could not be read: behind the
/// first result token that can be the end of a game, and behind the line
/// ends and spaces that follow it.
pub open spec fn spec_resume(s: Seq<char>) -> Seq<char> {
    spec_trim_newline_and_space(spec_find_termination(s).1)
}

/// The games of a text. Leading white space is skipped. Where a game can be
/// read, it is the first of the games, and the others are those of the text
/// behind it. Where none can be read, the games are those of the text at
/// which reading resumes. An empty text has no games.
pub open spec fn spec_read_games(s: Seq<char>) -> Seq<GameView>
    decreases s.len(),
{
    let text = skip_whitespace(s);
    if text.len() == 0 || text.len() > s.len() {
        Seq::empty()
    } else {
        match spec_game(text) {
            Some((g, rest)) => if rest.len() < text.len() {
                seq![g] + spec_read_games(rest)
            } else {
                seq![g]
            },
            None => if spec_resume(text).len() < text.len() {
                spec_read_games(spec_resume(text))
            } else {
                Seq::empty()
            },
        }
    }
}

/// A result token stands at the front of the text that the rule reads it
/// from, and has the length of its kind.
pub proof fn lemma_termination_token(s: Seq<char>)
    ensures
        spec_game_termination(s) matches Some((termination, rest)) ==> spec_token_len(termination)
            <= s.len() && rest == s.skip(spec_token_len(termination) as int),
{
}

/// The split of `spec_find_termination` is a split of the text: the two
/// parts make up the text. Of a text that is not empty the second part is
/// shorter than the text.
pub proof fn lemma_find_termination_splits(s: Seq<char>)
    ensures
        spec_find_termination(s).0 + spec_find_termination(s).1 == s,
        s.len() > 0 ==> spec_find_termination(s).1.len() < s.len(),
    decreases s.len(),
{
    if s.len() == 0 {
        assert(Seq::<char>::empty() + s =~= s);
    } else if termination_at_front(s) {
        lemma_termination_token(s);
        let rest = spec_game_termination(s).unwrap().1;
        assert(s.take(s.len() - rest.len()) + rest =~= s);
    } else {
        let t = s.drop_first();
        lemma_find_termination_splits(t);
        let (skipped, rest) = spec_find_termination(t);
        assert((seq![s[0]] + skipped) + rest =~= seq![s[0]] + (skipped + rest));
        assert(seq![s[0]] + t =~= s);
    }
}

/// Reading resumes behind at least one character of a text that is not
/// empty.
pub proof fn lemma_resume_shrinks(s: Seq<char>)
    requires
        s.len() > 0,
    ensures
        spec_resume(s).len() < s.len(),
{
    lemma_find_termination_splits(s);
    lemma_run_len(spec_find_termination(s).1, CharClass::Blank);
}

/// The number of characters of a result token.
pub fn token_len(termination: GameTermination) -> (n: usize)
    ensures
        n == spec_token_len(termination),
{
    match termination {
        GameTermination::WhiteWins => 3,
        GameTermination::BlackWins => 3,
        GameTermination::DrawnGame => 7,
        GameTermination::Unknown => 1,
    }
}

/// Splits the input behind the first result token (`1-0`, `0-1`,
/// `1/2-1/2`, `*`) that is not followed by `"` or `}`, or at its end if
/// there is none. Gives what stands before the split and what stands behind
/// it. Never fails.
pub fn find_termination(input: &str) -> (r: ParseResult<'_, &str>)
    ensures
        r matches Ok((skipped, rest)) && (skipped@, rest@) == spec_find_termination(input@),
{
    let mut cur = input;
    let mut n: usize = 0;
    loop
        invariant
            n <= input@.len(),
            cur@ == input@.skip(n as int),
            spec_find_termination(input@) == (
                input@.take(n as int) + spec_find_termination(cur@).0,
                spec_find_termination(cur@).1,
            ),
        decreases cur@.len(),
    {
        if let Ok((termination, rest)) = game_termination(cur) {
            let accepted = match any_char(rest) {
                Ok((c, _)) => c != '"' && c != '}',
                Err(_) => true,
            };
            if accepted {
                let k = token_len(termination);
                proof {
                    lemma_termination_token(cur@);
                }
                if n > usize::MAX - k {
                    // A text has no more characters than fit in `usize`.
                    let _ = input.unicode_len();
                }
                let skipped = input.substring_char(0, n + k);
                proof {
                    assert(cur@.take(cur@.len() - rest@.len()) =~= input@.subrange(
                        n as int,
                        n + k,
                    ));
                    assert(skipped@ =~= input@.take(n as int) + input@.subrange(n as int, n + k));
                }
                return Ok((skipped, rest));
            }
        }
        match any_char(cur) {
            Ok((c, rest)) => {
                proof {
                    assert(input@.take(n + 1) =~= input@.take(n as int) + seq![c]);
                    assert((input@.take(n as int) + seq![c]) + spec_find_termination(rest@).0
                        =~= input@.take(n as int) + (seq![c] + spec_find_termination(rest@).0));
                    assert(rest@ =~= input@.skip(n + 1));
                }
                if n == usize::MAX {
                    // A text has no more characters than fit in `usize`.
                    let _ = input.unicode_len();
                }
                n += 1;
                cur = rest;
            },
            Err(_) => {
                let skipped = input.substring_char(0, n);
                proof {
                    assert(input@.take(n as int) + Seq::<char>::empty() =~= input@.take(n as int));
                }
                return Ok((skipped, cur));
            },
        }
    }
}

/// The input behind its leading line feeds, carriage returns and spaces.
pub fn trim_blank(input: &str) -> (rest: &str)
    ensures
        rest@ == spec_trim_newline_and_space(input@),
{
    scan_class(input, CharClass::Blank).1
}

/// The text without its leading line feeds, carriage returns and spaces.
pub fn trim_newline_and_space(s: String) -> (trimmed: String)
    ensures
        trimmed@ == spec_trim_newline_and_space(s@),
{
    trim_blank(s.as_str()).to_owned()
}

/// Reads all the games of a text that can be read, in the order of the
/// text, and drops those that cannot. Always gives `Ok`: a text that is
/// empty, or in which no game can be read, gives an empty list.
pub fn read_games(input: &str) -> (r: Result<Vec<Game>, ParseError>)
    ensures
        r matches Ok(games) && games_view(games@) == spec_read_games(input@),
{
    let mut games: Vec<Game> = Vec::new();
    let mut cur = input;
    loop
        invariant
            spec_read_games(input@) == games_view(games@) + spec_read_games(cur@),
        decreases cur@.len(),
    {
        let text = skip_space(cur);
        proof {
            lemma_skip_whitespace_keeps(cur@);
        }
        if text.is_empty() {
            proof {
                assert(games_view(games@) + Seq::<GameView>::empty() =~= games_view(games@));
            }
            return Ok(games);
        }
        match game(text) {
            Ok((g, rest)) => {
                proof {
                    lemma_game_shrinks(text@);
                    assert(spec_read_games(cur@) == seq![g@] + spec_read_games(rest@));
                    assert(games_view(games@.push(g)) =~= games_view(games@) + seq![g@]);
                    assert((games_view(games@) + seq![g@]) + spec_read_games(rest@) =~= games_view(
                        games@,
                    ) + (seq![g@] + spec_read_games(rest@)));
                }
                games.push(g);
                cur = rest;
            },
            Err(_) => {
                let (_, rest) = find_termination(text)?;
                proof {
                    lemma_resume_shrinks(text@);
                }
                cur = trim_blank(rest);
            },
        }
    }
}

} // verus!
