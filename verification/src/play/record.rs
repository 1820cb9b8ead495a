//! Reading the games of a record as a viewer of games wants them: with the
//! variations taken out of the text, so that each game is its main line.

use crate::model::{games_view, Game};
use crate::reader::{read_games, spec_read_games};
use vstd::prelude::*;

verus! {

/// A round bracket with all that stands in it up to its closing bracket,
/// brackets inside it included down to two levels.
pub const BRACKETED: &'static str = r"\((?:[^)(]|\((?:[^)(]|\([^)(]*\))*\))*\)";

/// A line feed.
pub const LINE_FEED: &'static str = r"\n";

/// Two characters of white space.
pub const TWO_SPACES: &'static str = r"\s\s";

/// What `Regex::replace_all` of the crate `regex` gives for the regular
/// expression `pattern`, the text `text` and the replacement `with`: the
/// text with every match of the expression replaced, the matches taken
/// from the left and not overlapping, and a `$` in the replacement read as
/// the crate reads it. `None` where `pattern` is no regular expression.
pub uninterp spec fn regex_replaced(
    pattern: Seq<char>,
    text: Seq<char>,
    with: Seq<char>,
) -> Option<Seq<char>>;

/// `Regex::new` and `Regex::replace_all` of the crate `regex`. The result
/// is a function of the three texts alone; the contract gives it a name and
/// says no more of it.
#[verifier::external_body]
fn replace_all(pattern: &str, text: &str, with: &str) -> (replaced: Option<String>)
    ensures
        crate::model::text_view(replaced) == regex_replaced(pattern@, text@, with@),
{
    match regex::Regex::new(pattern) {
        Ok(expression) => Some(expression.replace_all(text, with).into_owned()),
        Err(_) => None,
    }
}

/// The text after one replacement, or the text itself where the pattern is
/// no regular expression.
pub open spec fn spec_replaced_or_same(pattern: Seq<char>, text: Seq<char>, with: Seq<char>) -> Seq<
    char,
> {
    match regex_replaced(pattern, text, with) {
        Some(replaced) => replaced,
        None => text,
    }
}

/// The text of a record made ready for reading: what stands in round
/// brackets is taken out, each line feed becomes a space, and each pair of
/// white-space characters becomes one space.
pub open spec fn spec_prepare_record(text: Seq<char>) -> Seq<char> {
    let without_brackets = spec_replaced_or_same(BRACKETED@, text, ""@);
    let one_line = spec_replaced_or_same(LINE_FEED@, without_brackets, " "@);
    spec_replaced_or_same(TWO_SPACES@, one_line, " "@)
}

/// The text after one replacement, or a copy of the text where the pattern
/// is no regular expression.
pub fn replaced_or_same(pattern: &str, text: &str, with: &str) -> (replaced: String)
    ensures
        replaced@ == spec_replaced_or_same(pattern@, text@, with@),
{
    match replace_all(pattern, text, with) {
        Some(replaced) => replaced,
        None => text.to_owned(),
    }
}

/// The text of a record made ready for reading.
pub fn prepare_record(text: &str) -> (prepared: String)
    ensures
        prepared@ == spec_prepare_record(text@),
{
    let without_brackets = replaced_or_same(BRACKETED, text, "");
    let one_line = replaced_or_same(LINE_FEED, without_brackets.as_str(), " ");
    replaced_or_same(TWO_SPACES, one_line.as_str(), " ")
}

/// The games that are read from a record once it is made ready: the games
/// of the prepared text, as `read_games` gives them.
pub fn read_record(text: &str) -> (games: Vec<Game>)
    ensures
        games_view(games@) == spec_read_games(spec_prepare_record(text@)),
{
    let prepared = prepare_record(text);
    match read_games(prepared.as_str()) {
        Ok(games) => games,
        Err(_) => Vec::new(),
    }
}

} // verus!
