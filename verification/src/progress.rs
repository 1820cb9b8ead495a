//! Every rule takes its value off the front of the text: what it leaves is
//! a part of the end of what it was given, and not all of it wherever the
//! rule cannot match the empty text. Repetitions and the recursion through
//! variations end for this reason.

use crate::grammar::{
    optional, skip_whitespace, spec_annotation_symbol, spec_bare_move, spec_basic_move,
    spec_block_comment, spec_block_comment_contents, spec_char, spec_comment, spec_comment_ws,
    spec_file, spec_game, spec_game_move, spec_game_moves, spec_game_termination,
    spec_inline_comment, spec_inline_comment_contents, spec_line_end, spec_marked_move,
    spec_marked_move_ws, spec_move_disambiguation, spec_move_number, spec_move_number_ws,
    spec_move_sequence, spec_nag, spec_nag_ws, spec_origin, spec_pgn_integer, spec_pgn_string,
    spec_pgn_string_char, spec_pgn_string_chars, spec_pgn_symbol, spec_piece, spec_promotion,
    spec_rank, spec_square, spec_tag_pair, spec_tag_section, spec_variation, spec_variations,
    spec_whitespace, then_whitespace, Parsed,
};
use crate::scan::{lemma_run_len, CharClass};
use vstd::prelude::*;

verus! {

/// Whether `rest` is what is left of `s` when some of its first characters
/// are taken off.
pub open spec fn is_suffix(rest: Seq<char>, s: Seq<char>) -> bool {
    rest.len() <= s.len() && rest == s.skip(s.len() - rest.len())
}

/// A rule's result leaves a part of the end of the text that the rule was
/// given, and not all of it.
pub open spec fn shrinks<T>(r: Parsed<T>, s: Seq<char>) -> bool {
    r matches Some((_, rest)) ==> rest.len() < s.len() && is_suffix(rest, s)
}

/// A result that cannot fail leaves a part of the end of the text that was
/// given, or all of it.
pub open spec fn keeps<T>(r: (T, Seq<char>), s: Seq<char>) -> bool {
    is_suffix(r.1, s)
}

/// A text is left of itself, and so is the text behind any number of its
/// first characters.
pub proof fn lemma_suffix_by_skip(s: Seq<char>, n: int)
    requires
        0 <= n <= s.len(),
    ensures
        is_suffix(s.skip(n), s),
        is_suffix(s, s),
{
    assert(s.skip(0) =~= s);
}

/// What is left of what is left of a text is left of the text.
pub proof fn lemma_suffix_of_suffix(a: Seq<char>, b: Seq<char>, c: Seq<char>)
    requires
        is_suffix(a, b),
        is_suffix(b, c),
    ensures
        is_suffix(a, c),
{
    assert(c.skip(c.len() - b.len()).skip(b.len() - a.len()) =~= c.skip(c.len() - a.len()));
}

/// A rule that shrinks what another rule left shrinks the text.
pub proof fn lemma_shrinks_after<T>(r: Parsed<T>, s1: Seq<char>, s: Seq<char>)
    requires
        shrinks(r, s1),
        is_suffix(s1, s),
    ensures
        shrinks(r, s),
{
    if let Some((_, rest)) = r {
        lemma_suffix_of_suffix(rest, s1, s);
    }
}

/// An optional rule keeps the text if the rule shrinks it.
pub proof fn lemma_optional_keeps<T>(r: Parsed<T>, s: Seq<char>)
    requires
        shrinks(r, s),
    ensures
        keeps(optional(r, s), s),
{
    lemma_suffix_by_skip(s, 0);
}

/// Skipping white space leaves a part of the end of the text.
pub proof fn lemma_skip_whitespace_keeps(s: Seq<char>)
    ensures
        skip_whitespace(s).len() <= s.len(),
        is_suffix(skip_whitespace(s), s),
{
    lemma_run_len(s, CharClass::Whitespace);
}

/// A rule followed by optional white space shrinks the text if the rule
/// does.
pub proof fn lemma_then_whitespace_shrinks<T>(r: Parsed<T>, s: Seq<char>)
    requires
        shrinks(r, s),
    ensures
        shrinks(then_whitespace(r), s),
{
    if let Some((_, rest)) = r {
        lemma_skip_whitespace_keeps(rest);
        lemma_suffix_of_suffix(skip_whitespace(rest), rest, s);
    }
}

/// The rules that are runs of a character class shrink the text, and the
/// texts of comments keep it.
pub proof fn lemma_runs_shrink(s: Seq<char>)
    ensures
        shrinks(spec_pgn_integer(s), s),
        shrinks(spec_pgn_symbol(s), s),
        shrinks(spec_whitespace(s), s),
        keeps(spec_inline_comment_contents(s), s),
        keeps(spec_block_comment_contents(s), s),
{
    lemma_run_len(s, CharClass::Digit);
    lemma_run_len(s, CharClass::Symbol);
    lemma_run_len(s, CharClass::Whitespace);
    lemma_run_len(s, CharClass::LineText);
    lemma_run_len(s, CharClass::BlockText);
}

/// The characters of a quoted string keep the text.
pub proof fn lemma_string_chars_keep(s: Seq<char>)
    ensures
        keeps(spec_pgn_string_chars(s), s),
    decreases s.len(),
{
    match spec_pgn_string_char(s) {
        Some((_, rest)) => {
            lemma_string_chars_keep(rest);
            lemma_suffix_of_suffix(spec_pgn_string_chars(rest).1, rest, s);
        },
        None => {
            lemma_suffix_by_skip(s, 0);
        },
    }
}

/// A quoted string shrinks the text.
pub proof fn lemma_string_shrinks(s: Seq<char>)
    ensures
        shrinks(spec_pgn_string(s), s),
{
    if let Some((_, s1)) = spec_char(s, '"') {
        lemma_string_chars_keep(s1);
        let s2 = spec_pgn_string_chars(s1).1;
        lemma_suffix_of_suffix(s2, s1, s);
        lemma_shrinks_after(spec_char(s2, '"'), s2, s);
    }
}

/// A tag pair shrinks the text.
pub proof fn lemma_tags_shrink(s: Seq<char>)
    ensures
        shrinks(spec_tag_pair(s), s),
{
    if let Some((_, s1)) = spec_char(s, '[') {
        lemma_skip_whitespace_keeps(s1);
        let t = skip_whitespace(s1);
        lemma_suffix_of_suffix(t, s1, s);
        lemma_runs_shrink(t);
        if let Some((_, s2)) = spec_pgn_symbol(t) {
            lemma_suffix_of_suffix(s2, t, s);
            lemma_runs_shrink(s2);
            if let Some((_, s3)) = spec_whitespace(s2) {
                lemma_suffix_of_suffix(s3, s2, s);
                lemma_string_shrinks(s3);
                if let Some((_, s4)) = spec_pgn_string(s3) {
                    lemma_suffix_of_suffix(s4, s3, s);
                    lemma_skip_whitespace_keeps(s4);
                    let u = skip_whitespace(s4);
                    lemma_suffix_of_suffix(u, s4, s);
                    lemma_shrinks_after(spec_char(u, ']'), u, s);
                }
            }
        }
    }
}

/// The tag section keeps the text.
pub proof fn lemma_tag_section_keeps(s: Seq<char>)
    ensures
        keeps(spec_tag_section(s), s),
    decreases s.len(),
{
    lemma_tags_shrink(s);
    match spec_tag_pair(s) {
        Some((_, rest)) => {
            let s1 = skip_whitespace(rest);
            lemma_skip_whitespace_keeps(rest);
            lemma_suffix_of_suffix(s1, rest, s);
            lemma_tag_section_keeps(s1);
            lemma_suffix_of_suffix(spec_tag_section(s1).1, s1, s);
        },
        None => {
            lemma_suffix_by_skip(s, 0);
        },
    }
}

/// The result of a game shrinks the text.
pub proof fn lemma_termination_shrinks(s: Seq<char>)
    ensures
        shrinks(spec_game_termination(s), s),
{
}

/// A move number and a glyph shrink the text.
pub proof fn lemma_numbers_shrink(s: Seq<char>)
    ensures
        shrinks(spec_move_number(s), s),
        shrinks(spec_nag(s), s),
{
    lemma_runs_shrink(s);
    if let Some((_, s1)) = spec_pgn_integer(s) {
        if let Some((_, s2)) = spec_char(s1, '.') {
            lemma_suffix_of_suffix(s2, s1, s);
            lemma_shrinks_after(crate::grammar::spec_literal(s2, seq!['.', '.']), s2, s);
        }
    }
    if let Some((_, s1)) = spec_char(s, '$') {
        lemma_runs_shrink(s1);
        lemma_shrinks_after(spec_pgn_integer(s1), s1, s);
    }
}

/// The rules of one character shrink the text, and so does a square.
pub proof fn lemma_move_parts_shrink(s: Seq<char>)
    ensures
        shrinks(spec_file(s), s),
        shrinks(spec_rank(s), s),
        shrinks(spec_piece(s), s),
        shrinks(spec_square(s), s),
        shrinks(spec_annotation_symbol(s), s),
{
    if let Some((_, s1)) = spec_file(s) {
        lemma_shrinks_after(spec_rank(s1), s1, s);
    }
}

/// What a move tells of its origin, and a promotion, shrink the text.
pub proof fn lemma_origin_shrinks(s: Seq<char>)
    ensures
        shrinks(spec_origin(s), s),
        shrinks(spec_move_disambiguation(s), s),
        shrinks(spec_promotion(s), s),
{
    lemma_move_parts_shrink(s);
    if let Some((_, s1)) = spec_char(s, '=') {
        lemma_move_parts_shrink(s1);
        lemma_shrinks_after(spec_piece(s1), s1, s);
    }
}

/// A move of a piece shrinks the text.
pub proof fn lemma_basic_move_shrinks(s: Seq<char>)
    ensures
        shrinks(spec_basic_move(s), s),
{
    let (piece, s1) = optional(spec_piece(s), s);
    let (from, s2) = optional(spec_move_disambiguation(s1), s1);
    let (capture, s3) = optional(spec_char(s2, 'x'), s2);
    lemma_move_parts_shrink(s);
    lemma_optional_keeps(spec_piece(s), s);
    lemma_origin_shrinks(s1);
    lemma_optional_keeps(spec_move_disambiguation(s1), s1);
    lemma_suffix_of_suffix(s2, s1, s);
    lemma_optional_keeps(spec_char(s2, 'x'), s2);
    lemma_suffix_of_suffix(s3, s2, s);
    lemma_move_parts_shrink(s3);
    if let Some((_, s4)) = spec_square(s3) {
        lemma_suffix_of_suffix(s4, s3, s);
        lemma_origin_shrinks(s4);
        lemma_optional_keeps(spec_promotion(s4), s4);
        lemma_suffix_of_suffix(optional(spec_promotion(s4), s4).1, s4, s);
    }
}

/// A move without its marks shrinks the text.
pub proof fn lemma_bare_move_shrinks(s: Seq<char>)
    ensures
        shrinks(spec_bare_move(s), s),
{
    lemma_basic_move_shrinks(s);
}

/// A move with its marks shrinks the text.
pub proof fn lemma_marked_move_shrinks(s: Seq<char>)
    ensures
        shrinks(spec_marked_move(s), s),
{
    lemma_bare_move_shrinks(s);
    if let Some((_, s1)) = spec_bare_move(s) {
        let (check, s2) = optional(spec_char(s1, '+'), s1);
        let (checkmate, s3) = optional(spec_char(s2, '#'), s2);
        lemma_optional_keeps(spec_char(s1, '+'), s1);
        lemma_suffix_of_suffix(s2, s1, s);
        lemma_optional_keeps(spec_char(s2, '#'), s2);
        lemma_suffix_of_suffix(s3, s2, s);
        lemma_move_parts_shrink(s3);
        lemma_optional_keeps(spec_annotation_symbol(s3), s3);
        lemma_suffix_of_suffix(optional(spec_annotation_symbol(s3), s3).1, s3, s);
    }
}

/// The end of a line shrinks the text.
pub proof fn lemma_line_end_shrinks(s: Seq<char>)
    ensures
        shrinks(spec_line_end(s), s),
{
}

/// The comments shrink the text.
pub proof fn lemma_comments_shrink(s: Seq<char>)
    ensures
        shrinks(spec_inline_comment(s), s),
        shrinks(spec_block_comment(s), s),
        shrinks(spec_comment(s), s),
{
    if let Some((_, s1)) = spec_char(s, ';') {
        lemma_runs_shrink(s1);
        let s2 = spec_inline_comment_contents(s1).1;
        lemma_suffix_of_suffix(s2, s1, s);
        lemma_line_end_shrinks(s2);
        lemma_shrinks_after(spec_line_end(s2), s2, s);
    }
    if let Some((_, s1)) = spec_char(s, '{') {
        lemma_runs_shrink(s1);
        let s2 = spec_block_comment_contents(s1).1;
        lemma_suffix_of_suffix(s2, s1, s);
        lemma_shrinks_after(spec_char(s2, '}'), s2, s);
    }
}

/// The rules that take the white space behind them shrink the text.
pub proof fn lemma_spaced_rules_shrink(s: Seq<char>)
    ensures
        shrinks(spec_move_number_ws(s), s),
        shrinks(spec_marked_move_ws(s), s),
        shrinks(spec_nag_ws(s), s),
        shrinks(spec_comment_ws(s), s),
{
    lemma_numbers_shrink(s);
    lemma_marked_move_shrinks(s);
    lemma_comments_shrink(s);
    lemma_then_whitespace_shrinks(spec_move_number(s), s);
    lemma_then_whitespace_shrinks(spec_marked_move(s), s);
    lemma_then_whitespace_shrinks(spec_nag(s), s);
    lemma_then_whitespace_shrinks(spec_comment(s), s);
}

/// What stands in a move of a game before its variations shrinks the text:
/// the number, the marked move, the glyph and the comment.
pub proof fn lemma_move_head_shrinks(s: Seq<char>)
    ensures
        ({
            let (number, s1) = optional(spec_move_number_ws(s), s);
            spec_marked_move_ws(s1) matches Some((move_, s2)) ==> {
                let (nag, s3) = optional(spec_nag_ws(s2), s2);
                let (comment, s4) = optional(spec_comment_ws(s3), s3);
                s4.len() < s.len() && is_suffix(s4, s)
            }
        }),
{
    let (number, s1) = optional(spec_move_number_ws(s), s);
    lemma_spaced_rules_shrink(s);
    lemma_optional_keeps(spec_move_number_ws(s), s);
    lemma_spaced_rules_shrink(s1);
    if let Some((_, s2)) = spec_marked_move_ws(s1) {
        lemma_suffix_of_suffix(s2, s1, s);
        let (nag, s3) = optional(spec_nag_ws(s2), s2);
        lemma_spaced_rules_shrink(s2);
        lemma_optional_keeps(spec_nag_ws(s2), s2);
        lemma_suffix_of_suffix(s3, s2, s);
        lemma_spaced_rules_shrink(s3);
        lemma_optional_keeps(spec_comment_ws(s3), s3);
        lemma_suffix_of_suffix(optional(spec_comment_ws(s3), s3).1, s3, s);
    }
}

/// A move of a game shrinks the text.
pub proof fn lemma_game_move_shrinks(s: Seq<char>)
    ensures
        shrinks(spec_game_move(s), s),
    decreases s.len(), 0nat,
{
    lemma_move_head_shrinks(s);
    let (number, s1) = optional(spec_move_number_ws(s), s);
    if let Some((_, s2)) = spec_marked_move_ws(s1) {
        let (nag, s3) = optional(spec_nag_ws(s2), s2);
        let (comment, s4) = optional(spec_comment_ws(s3), s3);
        lemma_variations_keep(s4);
        lemma_suffix_of_suffix(spec_variations(s4).1, s4, s);
    }
}

/// The moves of a line keep the text.
pub proof fn lemma_game_moves_keep(s: Seq<char>)
    ensures
        keeps(spec_game_moves(s), s),
    decreases s.len(), 1nat,
{
    lemma_game_move_shrinks(s);
    match spec_game_move(s) {
        Some((_, rest)) => {
            lemma_skip_whitespace_keeps(rest);
            let s1 = skip_whitespace(rest);
            lemma_suffix_of_suffix(s1, rest, s);
            lemma_game_moves_keep(s1);
            lemma_suffix_of_suffix(spec_game_moves(s1).1, s1, s);
        },
        None => {
            lemma_suffix_by_skip(s, 0);
        },
    }
}

/// A line of play keeps the text.
pub proof fn lemma_move_sequence_keeps(s: Seq<char>)
    ensures
        keeps(spec_move_sequence(s), s),
    decreases s.len(), 2nat,
{
    lemma_spaced_rules_shrink(s);
    lemma_optional_keeps(spec_comment_ws(s), s);
    let (comment, s1) = optional(spec_comment_ws(s), s);
    lemma_game_moves_keep(s1);
    lemma_suffix_of_suffix(spec_game_moves(s1).1, s1, s);
}

/// A variation shrinks the text.
pub proof fn lemma_variation_shrinks(s: Seq<char>)
    ensures
        shrinks(spec_variation(s), s),
    decreases s.len(), 3nat,
{
    if let Some((_, s1)) = spec_char(s, '(') {
        lemma_skip_whitespace_keeps(s1);
        let s2 = skip_whitespace(s1);
        lemma_suffix_of_suffix(s2, s1, s);
        lemma_move_sequence_keeps(s2);
        let (line, s3) = spec_move_sequence(s2);
        lemma_suffix_of_suffix(s3, s2, s);
        if let Some((_, s4)) = spec_char(s3, ')') {
            lemma_suffix_of_suffix(s4, s3, s);
            lemma_skip_whitespace_keeps(s4);
            lemma_suffix_of_suffix(skip_whitespace(s4), s4, s);
        }
    }
}

/// The variations of a move keep the text.
pub proof fn lemma_variations_keep(s: Seq<char>)
    ensures
        keeps(spec_variations(s), s),
    decreases s.len(), 4nat,
{
    lemma_variation_shrinks(s);
    match spec_variation(s) {
        Some((_, rest)) => {
            lemma_variations_keep(rest);
            lemma_suffix_of_suffix(spec_variations(rest).1, rest, s);
        },
        None => {
            lemma_suffix_by_skip(s, 0);
        },
    }
}

/// A game shrinks the text.
pub proof fn lemma_game_shrinks(s: Seq<char>)
    ensures
        shrinks(spec_game(s), s),
{
    lemma_tag_section_keeps(s);
    let (tags, s1) = spec_tag_section(s);
    lemma_move_sequence_keeps(s1);
    let (line, s2) = spec_move_sequence(s1);
    lemma_suffix_of_suffix(s2, s1, s);
    lemma_termination_shrinks(s2);
    if let Some((_, s3)) = spec_game_termination(s2) {
        lemma_suffix_of_suffix(s3, s2, s);
        lemma_skip_whitespace_keeps(s3);
        lemma_suffix_of_suffix(skip_whitespace(s3), s3, s);
    }
}

} // verus!
