//! The writer of records: games as text that the reader reads back.

use crate::grammar::spec_game;
use crate::model::{
    games_view, lemma_game_move_view, lemma_move_sequence_view, lines_view, moves_view, tags_view,
    text_view, Game, GameMove, GameTermination, Move, MoveNumber, MoveSequence, NAG,
};
use crate::notation::{writable, write_marked_move};
use crate::quoting::quote_string;
use crate::reader::spec_read_games;
use crate::scan::{char_is_whitespace, CharClass};
use crate::writing::{
    comment_part, comment_text, decimal_text, digit_char, game_move_text, game_text, games_text,
    lemma_write_then_read_game, lemma_write_then_read_games, lines_text,
    move_number_text, moves_text, nag_part, nag_text, number_part, separators_hold, spaced,
    tag_text, tags_text, termination_text, variation_text, writable_comment, writable_game,
    writable_game_move, writable_games, writable_line, writable_lines, writable_moves,
    writable_tag_name, writable_tags,
};
use vstd::prelude::*;
use vstd::std_specs::iter::IteratorSpec;
use vstd::string::StringExecFns;

verus! {

broadcast use vstd::string::group_string_axioms;

/// Whether white space is what the writer takes it to be: the space and
/// the line feed are white space, the space is no letter or digit, and no
/// character with which a part of a record begins is white space.
pub fn check_separators() -> (ok: bool)
    ensures
        ok == separators_hold(),
{
    if !' '.is_whitespace() || !'\n'.is_whitespace() || ' '.is_alphanumeric() {
        return false;
    }
    if '0'.is_whitespace() || '1'.is_whitespace() || '2'.is_whitespace()
        || '3'.is_whitespace() || '4'.is_whitespace() || '5'.is_whitespace()
        || '6'.is_whitespace() || '7'.is_whitespace() || '8'.is_whitespace()
        || '9'.is_whitespace() {
        return false;
    }
    if 'a'.is_whitespace() || 'b'.is_whitespace() || 'c'.is_whitespace()
        || 'd'.is_whitespace() || 'e'.is_whitespace() || 'f'.is_whitespace()
        || 'g'.is_whitespace() || 'h'.is_whitespace() {
        return false;
    }
    if 'P'.is_whitespace() || 'N'.is_whitespace() || 'B'.is_whitespace()
        || 'R'.is_whitespace() || 'Q'.is_whitespace() || 'K'.is_whitespace()
        || 'x'.is_whitespace() || 'O'.is_whitespace() {
        return false;
    }
    if '$'.is_whitespace() || '{'.is_whitespace() || ';'.is_whitespace()
        || '('.is_whitespace() || ')'.is_whitespace() || '*'.is_whitespace()
        || '['.is_whitespace() || ']'.is_whitespace() || '"'.is_whitespace() {
        return false;
    }
    true
}

/// Whether a comment can be written: it holds no `}`, or no line break.
pub fn comment_is_writable(comment: &str) -> (ok: bool)
    ensures
        ok == writable_comment(comment@),
{
    let (brace, line_break) = comment_holds(comment);
    !brace || !line_break
}

/// Whether a comment holds `}`, and whether it holds a line break.
pub fn comment_holds(comment: &str) -> (found: (bool, bool))
    ensures
        found.0 == comment@.contains('}'),
        found.1 == (comment@.contains('\r') || comment@.contains('\n')),
{
    let mut chars = comment.chars();
    let mut brace = false;
    let mut line_break = false;
    let ghost mut n: int = 0;
    loop
        invariant
            0 <= n <= comment@.len(),
            chars.remaining() == comment@.skip(n),
            brace == comment@.take(n).contains('}'),
            line_break == (comment@.take(n).contains('\r') || comment@.take(n).contains('\n')),
        decreases comment@.len() - n,
    {
        match chars.next() {
            Some(c) => {
                proof {
                    let before = comment@.take(n);
                    let after = comment@.take(n + 1);
                    assert(c == comment@[n]);
                    assert(after =~= before.push(c));
                    assert forall|x: char| after.contains(x) <==> (before.contains(x) || x == c) by {
                        if before.contains(x) {
                            let i = choose|i: int| 0 <= i < before.len() && before[i] == x;
                            assert(after[i] == x);
                        }
                        if x == c {
                            assert(after[n] == x);
                        }
                        if after.contains(x) {
                            let i = choose|i: int| 0 <= i < after.len() && after[i] == x;
                            if i < n {
                                assert(before[i] == x);
                            }
                        }
                    }
                    assert(comment@.skip(n).drop_first() =~= comment@.skip(n + 1));
                    n = n + 1;
                }
                if c == '}' {
                    brace = true;
                }
                if c == '\r' || c == '\n' {
                    line_break = true;
                }
            },
            None => {
                assert(comment@.take(n) =~= comment@);
                return (brace, line_break);
            },
        }
    }
}

/// Whether the name of a tag can be written: it is a run of symbol
/// characters, not empty, that begins with no white space.
pub fn tag_name_is_writable(name: &str) -> (ok: bool)
    ensures
        ok == writable_tag_name(name@),
{
    let mut chars = name.chars();
    let ghost mut n: int = 0;
    match chars.next() {
        Some(first) => {
            assert(first == name@[0]);
            if first.is_whitespace() || !CharClass::Symbol.has(first) {
                return false;
            }
            proof {
                assert(name@.skip(0).drop_first() =~= name@.skip(1));
                n = 1;
            }
        },
        None => {
            return false;
        },
    }
    loop
        invariant
            1 <= n <= name@.len(),
            chars.remaining() == name@.skip(n),
            !char_is_whitespace(name@[0]),
            forall|i: int| 0 <= i < n ==> CharClass::Symbol.contains(#[trigger] name@[i]),
        decreases name@.len() - n,
    {
        match chars.next() {
            Some(c) => {
                assert(c == name@[n]);
                if !CharClass::Symbol.has(c) {
                    return false;
                }
                proof {
                    assert(name@.skip(n).drop_first() =~= name@.skip(n + 1));
                    n = n + 1;
                }
            },
            None => {
                return true;
            },
        }
    }
}

/// Whether a move can be written: the destination of a move of a piece is
/// a known square.
pub fn move_is_writable(m: &Move) -> (ok: bool)
    ensures
        ok == writable(*m),
{
    match m {
        Move::BasicMove { to, .. } => to.file().is_some() && to.rank().is_some(),
        _ => true,
    }
}

/// Whether an optional comment can be written.
pub fn optional_comment_is_writable(comment: &Option<String>) -> (ok: bool)
    ensures
        ok == (text_view(*comment) matches Some(c) ==> writable_comment(c)),
{
    match comment {
        Some(c) => comment_is_writable(c.as_str()),
        None => true,
    }
}

/// Whether a move of a game can be written: its move, its comment and its
/// variations.
pub fn game_move_is_writable(m: &GameMove) -> (ok: bool)
    ensures
        ok == writable_game_move(m@),
    decreases m, 1nat,
{
    proof {
        lemma_game_move_view(*m);
    }
    move_is_writable(&m.move_.move_) && optional_comment_is_writable(&m.comment)
        && lines_are_writable(&m.variations)
}

/// Whether all the variations of a list can be written.
pub fn lines_are_writable(lines: &Vec<MoveSequence>) -> (ok: bool)
    ensures
        ok == writable_lines(lines_view(lines@)),
    decreases lines, 0nat,
{
    let ghost all = lines_view(lines@);
    let mut i: usize = 0;
    proof {
        assert(all.skip(0) =~= all);
    }
    while i < lines.len()
        invariant
            i <= lines.len(),
            all == lines_view(lines@),
            writable_lines(all) == writable_lines(all.skip(i as int)),
        decreases lines.len() - i,
    {
        proof {
            assert(all.skip(i as int)[0] == lines@[i as int]@);
            assert(all.skip(i as int).drop_first() =~= all.skip(i + 1));
        }
        if !line_is_writable(&lines[i]) {
            return false;
        }
        i += 1;
    }
    proof {
        assert(all.skip(i as int).len() == 0);
    }
    true
}

/// Whether a line can be written: its comment and its moves.
pub fn line_is_writable(line: &MoveSequence) -> (ok: bool)
    ensures
        ok == writable_line(line@),
    decreases line, 1nat,
{
    proof {
        lemma_move_sequence_view(*line);
    }
    optional_comment_is_writable(&line.comment) && moves_are_writable(&line.moves)
}

/// Whether all the moves of a list can be written.
pub fn moves_are_writable(moves: &Vec<GameMove>) -> (ok: bool)
    ensures
        ok == writable_moves(moves_view(moves@)),
    decreases moves, 0nat,
{
    let ghost all = moves_view(moves@);
    let mut i: usize = 0;
    proof {
        assert(all.skip(0) =~= all);
    }
    while i < moves.len()
        invariant
            i <= moves.len(),
            all == moves_view(moves@),
            writable_moves(all) == writable_moves(all.skip(i as int)),
        decreases moves.len() - i,
    {
        proof {
            assert(all.skip(i as int)[0] == moves@[i as int]@);
            assert(all.skip(i as int).drop_first() =~= all.skip(i + 1));
        }
        if !game_move_is_writable(&moves[i]) {
            return false;
        }
        i += 1;
    }
    proof {
        assert(all.skip(i as int).len() == 0);
    }
    true
}

/// Whether all the tags of a list can be written.
pub fn tags_are_writable(tags: &Vec<(String, String)>) -> (ok: bool)
    ensures
        ok == writable_tags(tags_view(tags@)),
{
    let ghost all = tags_view(tags@);
    let mut i: usize = 0;
    while i < tags.len()
        invariant
            i <= tags.len(),
            all == tags_view(tags@),
            forall|j: int| 0 <= j < i ==> writable_tag_name(#[trigger] all[j].0),
        decreases tags.len() - i,
    {
        assert(all[i as int].0 == tags@[i as int].0@);
        if !tag_name_is_writable(tags[i].0.as_str()) {
            return false;
        }
        i += 1;
    }
    true
}

/// Whether a game can be written: its tags, its comment and its moves.
pub fn game_is_writable(g: &Game) -> (ok: bool)
    ensures
        ok == writable_game(g@),
{
    tags_are_writable(&g.tags) && optional_comment_is_writable(&g.comment) && moves_are_writable(
        &g.moves,
    )
}

/// A digit, as a text.
fn digit_text(d: u32) -> (text: &'static str)
    requires
        d < 10,
    ensures
        text@ == seq![digit_char(d as nat)],
{
    proof {
        reveal_strlit("0");
        reveal_strlit("1");
        reveal_strlit("2");
        reveal_strlit("3");
        reveal_strlit("4");
        reveal_strlit("5");
        reveal_strlit("6");
        reveal_strlit("7");
        reveal_strlit("8");
        reveal_strlit("9");
        assert("0"@ =~= seq!['0']);
        assert("1"@ =~= seq!['1']);
        assert("2"@ =~= seq!['2']);
        assert("3"@ =~= seq!['3']);
        assert("4"@ =~= seq!['4']);
        assert("5"@ =~= seq!['5']);
        assert("6"@ =~= seq!['6']);
        assert("7"@ =~= seq!['7']);
        assert("8"@ =~= seq!['8']);
        assert("9"@ =~= seq!['9']);
    }
    match d {
        0 => "0",
        1 => "1",
        2 => "2",
        3 => "3",
        4 => "4",
        5 => "5",
        6 => "6",
        7 => "7",
        8 => "8",
        _ => "9",
    }
}

/// Writes a number behind a text, in base ten and without leading zeros.
pub fn write_decimal(text: &mut String, n: u32)
    ensures
        final(text)@ == old(text)@ + decimal_text(n as nat),
    decreases n,
{
    let ghost before = text@;
    if n >= 10 {
        write_decimal(text, n / 10);
    }
    let ghost middle = text@;
    text.append(digit_text(n % 10));
    proof {
        if n >= 10 {
            assert(text@ =~= before + decimal_text((n / 10) as nat).push(
                digit_char((n % 10) as nat),
            ));
        } else {
            assert(text@ =~= before + seq![digit_char(n as nat)]);
        }
    }
}

/// Writes the number of a move behind a text, if the move has one, and a
/// space behind it.
pub fn write_number_part(text: &mut String, number: Option<MoveNumber>)
    ensures
        final(text)@ == old(text)@ + number_part(number),
{
    proof {
        reveal_strlit(". ");
        reveal_strlit("... ");
        assert(". "@ =~= seq!['.', ' ']);
        assert("... "@ =~= seq!['.', '.', '.', ' ']);
    }
    let ghost before = text@;
    match number {
        Some(MoveNumber::White(n)) => {
            write_decimal(text, n);
            text.append(". ");
            assert(text@ =~= before + spaced(move_number_text(MoveNumber::White(n))));
        },
        Some(MoveNumber::Black(n)) => {
            write_decimal(text, n);
            text.append("... ");
            assert(text@ =~= before + spaced(move_number_text(MoveNumber::Black(n))));
        },
        None => {
            assert(text@ =~= before + number_part(number));
        },
    }
}

/// Writes the glyph of a move behind a text, if the move has one, and a
/// space behind it.
pub fn write_nag_part(text: &mut String, nag: Option<NAG>)
    ensures
        final(text)@ == old(text)@ + nag_part(nag),
{
    proof {
        reveal_strlit("$");
        reveal_strlit(" ");
        assert("$"@ =~= seq!['$']);
        assert(" "@ =~= seq![' ']);
    }
    let ghost before = text@;
    match nag {
        Some(NAG(n)) => {
            text.append("$");
            write_decimal(text, n);
            text.append(" ");
            assert(text@ =~= before + spaced(nag_text(NAG(n))));
        },
        None => {
            assert(text@ =~= before + nag_part(nag));
        },
    }
}

/// Writes a comment behind a text, if there is one, and a space behind it:
/// in braces, or behind `;` on a line of its own if it holds `}`.
pub fn write_comment_part(text: &mut String, comment: &Option<String>)
    ensures
        final(text)@ == old(text)@ + comment_part(text_view(*comment)),
{
    proof {
        reveal_strlit(";");
        reveal_strlit("\n ");
        reveal_strlit("{");
        reveal_strlit("} ");
        assert(";"@ =~= seq![';']);
        assert("\n "@ =~= seq!['\n', ' ']);
        assert("{"@ =~= seq!['{']);
        assert("} "@ =~= seq!['}', ' ']);
    }
    let ghost before = text@;
    match comment {
        Some(c) => {
            if comment_holds(c.as_str()).0 {
                text.append(";");
                text.append(c.as_str());
                text.append("\n ");
            } else {
                text.append("{");
                text.append(c.as_str());
                text.append("} ");
            }
            assert(text@ =~= before + spaced(comment_text(c@)));
        },
        None => {
            assert(text@ =~= before + comment_part(text_view(*comment)));
        },
    }
}

/// Writes a move of a game behind a text: its number, its marked move, its
/// glyph and its comment, each followed by a space, and its variations.
pub fn write_game_move(text: &mut String, m: &GameMove)
    ensures
        final(text)@ == old(text)@ + game_move_text(m@),
    decreases m, 1nat,
{
    proof {
        reveal_strlit(" ");
        assert(" "@ =~= seq![' ']);
        lemma_game_move_view(*m);
    }
    let ghost before = text@;
    write_number_part(text, m.number);
    let marked = write_marked_move(&m.move_);
    text.append(marked.as_str());
    text.append(" ");
    write_nag_part(text, m.nag);
    write_comment_part(text, &m.comment);
    write_lines(text, &m.variations);
    proof {
        assert(text@ =~= before + (number_part(m@.number) + spaced(
            crate::notation::marked_move_text(m@.move_),
        ) + nag_part(m@.nag) + comment_part(m@.comment) + lines_text(m@.variations)));
    }
}

/// Writes variations behind a text, in order.
pub fn write_lines(text: &mut String, lines: &Vec<MoveSequence>)
    ensures
        final(text)@ == old(text)@ + lines_text(lines_view(lines@)),
    decreases lines, 0nat,
{
    let ghost before = text@;
    let ghost all = lines_view(lines@);
    let mut i: usize = 0;
    proof {
        assert(all.skip(0) =~= all);
    }
    while i < lines.len()
        invariant
            i <= lines.len(),
            all == lines_view(lines@),
            before + lines_text(all) == text@ + lines_text(all.skip(i as int)),
        decreases lines.len() - i,
    {
        let ghost now = text@;
        proof {
            assert(all.skip(i as int)[0] == lines@[i as int]@);
            assert(all.skip(i as int).drop_first() =~= all.skip(i + 1));
        }
        write_variation(text, &lines[i]);
        proof {
            assert((now + variation_text(lines@[i as int]@)) + lines_text(all.skip(i + 1)) =~= now
                + (variation_text(lines@[i as int]@) + lines_text(all.skip(i + 1))));
        }
        i += 1;
    }
    proof {
        assert(all.skip(i as int).len() == 0);
        assert(text@ + lines_text(all.skip(i as int)) =~= text@);
    }
}

/// Writes a variation behind a text: its line in round brackets, and a
/// space.
pub fn write_variation(text: &mut String, line: &MoveSequence)
    ensures
        final(text)@ == old(text)@ + variation_text(line@),
    decreases line, 1nat,
{
    proof {
        reveal_strlit("(");
        reveal_strlit(") ");
        assert("("@ =~= seq!['(']);
        assert(") "@ =~= seq![')', ' ']);
        lemma_move_sequence_view(*line);
    }
    let ghost before = text@;
    text.append("(");
    write_comment_part(text, &line.comment);
    write_moves(text, &line.moves);
    text.append(") ");
    proof {
        assert(text@ =~= before + (seq!['('] + (comment_part(line@.comment) + moves_text(
            line@.moves,
        )) + seq![')', ' ']));
    }
}

/// Writes moves behind a text, in order.
pub fn write_moves(text: &mut String, moves: &Vec<GameMove>)
    ensures
        final(text)@ == old(text)@ + moves_text(moves_view(moves@)),
    decreases moves, 0nat,
{
    let ghost before = text@;
    let ghost all = moves_view(moves@);
    let mut i: usize = 0;
    proof {
        assert(all.skip(0) =~= all);
    }
    while i < moves.len()
        invariant
            i <= moves.len(),
            all == moves_view(moves@),
            before + moves_text(all) == text@ + moves_text(all.skip(i as int)),
        decreases moves.len() - i,
    {
        let ghost now = text@;
        proof {
            assert(all.skip(i as int)[0] == moves@[i as int]@);
            assert(all.skip(i as int).drop_first() =~= all.skip(i + 1));
        }
        write_game_move(text, &moves[i]);
        proof {
            assert((now + game_move_text(moves@[i as int]@)) + moves_text(all.skip(i + 1)) =~= now
                + (game_move_text(moves@[i as int]@) + moves_text(all.skip(i + 1))));
        }
        i += 1;
    }
    proof {
        assert(all.skip(i as int).len() == 0);
        assert(text@ + moves_text(all.skip(i as int)) =~= text@);
    }
}

/// Writes the tags of a game behind a text, each on a line of its own.
pub fn write_tags(text: &mut String, tags: &Vec<(String, String)>)
    ensures
        final(text)@ == old(text)@ + tags_text(tags_view(tags@)),
{
    proof {
        reveal_strlit("[");
        reveal_strlit(" ");
        reveal_strlit("]\n");
        assert("["@ =~= seq!['[']);
        assert(" "@ =~= seq![' ']);
        assert("]\n"@ =~= seq![']', '\n']);
    }
    let ghost before = text@;
    let ghost all = tags_view(tags@);
    let mut i: usize = 0;
    proof {
        assert(all.skip(0) =~= all);
    }
    while i < tags.len()
        invariant
            i <= tags.len(),
            all == tags_view(tags@),
            before + tags_text(all) == text@ + tags_text(all.skip(i as int)),
            "["@ == seq!['['],
            " "@ == seq![' '],
            "]\n"@ == seq![']', '\n'],
        decreases tags.len() - i,
    {
        let ghost now = text@;
        proof {
            assert(all.skip(i as int)[0] == all[i as int]);
            assert(all[i as int] == (tags@[i as int].0@, tags@[i as int].1@));
            assert(all.skip(i as int).drop_first() =~= all.skip(i + 1));
        }
        text.append("[");
        text.append(tags[i].0.as_str());
        text.append(" ");
        let quoted = quote_string(tags[i].1.as_str());
        text.append(quoted.as_str());
        text.append("]\n");
        proof {
            let line = tag_text(all[i as int]) + seq!['\n'];
            assert(text@ =~= now + line);
            assert((now + line) + tags_text(all.skip(i + 1)) =~= now + (line + tags_text(
                all.skip(i + 1),
            )));
        }
        i += 1;
    }
    proof {
        assert(all.skip(i as int).len() == 0);
        assert(text@ + tags_text(all.skip(i as int)) =~= text@);
    }
}

/// The text of the result of a game.
pub fn termination_token(termination: GameTermination) -> (text: &'static str)
    ensures
        text@ == termination_text(termination),
{
    proof {
        reveal_strlit("1-0");
        reveal_strlit("0-1");
        reveal_strlit("1/2-1/2");
        reveal_strlit("*");
        assert("1-0"@ =~= seq!['1', '-', '0']);
        assert("0-1"@ =~= seq!['0', '-', '1']);
        assert("1/2-1/2"@ =~= seq!['1', '/', '2', '-', '1', '/', '2']);
        assert("*"@ =~= seq!['*']);
    }
    match termination {
        GameTermination::WhiteWins => "1-0",
        GameTermination::BlackWins => "0-1",
        GameTermination::DrawnGame => "1/2-1/2",
        GameTermination::Unknown => "*",
    }
}

/// The text of a game, whether or not the game can be written: its tags,
/// its comment and its moves, and its result.
pub fn game_to_text(g: &Game) -> (text: String)
    ensures
        text@ == game_text(g@),
{
    let mut text = String::new();
    write_tags(&mut text, &g.tags);
    write_comment_part(&mut text, &g.comment);
    write_moves(&mut text, &g.moves);
    text.append(termination_token(g.termination));
    proof {
        assert(text@ =~= tags_text(g@.tags) + (comment_part(g@.comment) + moves_text(g@.moves))
            + termination_text(g@.termination));
    }
    text
}

/// Writes a game as a text that reads back as the game. Gives nothing where
/// the game cannot be written, or where white space is not what the writer
/// takes it to be.
pub fn write_game(g: &Game) -> (written: Option<String>)
    ensures
        match written {
            Some(text) => {
                &&& separators_hold()
                &&& writable_game(g@)
                &&& text@ == game_text(g@)
                &&& spec_game(text@) == Some((g@, Seq::<char>::empty()))
            },
            None => !(separators_hold() && writable_game(g@)),
        },
{
    if !check_separators() || !game_is_writable(g) {
        return None;
    }
    let text = game_to_text(g);
    proof {
        lemma_write_then_read_game(g@, Seq::empty());
        assert(game_text(g@) + Seq::<char>::empty() =~= game_text(g@));
        crate::scan::lemma_run_len_is(Seq::<char>::empty(), CharClass::Whitespace, 0);
        assert(crate::grammar::skip_whitespace(Seq::<char>::empty()) =~= Seq::<char>::empty());
    }
    Some(text)
}

/// Whether all the games of a list can be written.
pub fn games_are_writable(games: &Vec<Game>) -> (ok: bool)
    ensures
        ok == writable_games(games_view(games@)),
{
    let ghost all = games_view(games@);
    let mut i: usize = 0;
    while i < games.len()
        invariant
            i <= games.len(),
            all == games_view(games@),
            forall|j: int| 0 <= j < i ==> writable_game(#[trigger] all[j]),
        decreases games.len() - i,
    {
        assert(all[i as int] == games@[i as int]@);
        if !game_is_writable(&games[i]) {
            return false;
        }
        i += 1;
    }
    true
}

/// Writes games as a text that reads back as the games, each game behind
/// the other and a line feed behind each. Gives nothing where one of the
/// games cannot be written, or where white space is not what the writer
/// takes it to be.
pub fn write_games(games: &Vec<Game>) -> (written: Option<String>)
    ensures
        match written {
            Some(text) => {
                &&& separators_hold()
                &&& writable_games(games_view(games@))
                &&& text@ == games_text(games_view(games@))
                &&& spec_read_games(text@) == games_view(games@)
            },
            None => !(separators_hold() && writable_games(games_view(games@))),
        },
{
    if !check_separators() || !games_are_writable(games) {
        return None;
    }
    proof {
        reveal_strlit("\n");
        assert("\n"@ =~= seq!['\n']);
    }
    let ghost all = games_view(games@);
    let mut text = String::new();
    let mut i: usize = 0;
    proof {
        assert(all.skip(0) =~= all);
        assert(text@ + games_text(all) =~= games_text(all));
    }
    while i < games.len()
        invariant
            i <= games.len(),
            all == games_view(games@),
            games_text(all) == text@ + games_text(all.skip(i as int)),
            "\n"@ == seq!['\n'],
        decreases games.len() - i,
    {
        let ghost now = text@;
        proof {
            assert(all.skip(i as int)[0] == games@[i as int]@);
            assert(all.skip(i as int).drop_first() =~= all.skip(i + 1));
        }
        let one = game_to_text(&games[i]);
        text.append(one.as_str());
        text.append("\n");
        proof {
            let line = game_text(games@[i as int]@) + seq!['\n'];
            assert(text@ =~= now + line);
            assert((now + line) + games_text(all.skip(i + 1)) =~= now + (line + games_text(
                all.skip(i + 1),
            )));
        }
        i += 1;
    }
    proof {
        assert(all.skip(i as int).len() == 0);
        assert(text@ + games_text(all.skip(i as int)) =~= text@);
        lemma_write_then_read_games(all);
    }
    Some(text)
}

} // verus!
