//! Scanners: the primitives that take characters off the front of a text.
//!
//! A text is modelled by its sequence of characters, so a scanner works on
//! character boundaries whatever the encoding. Each scanner hands back what
//! it matched together with the text that it left, which is always a suffix
//! of its input.

use std::str::Chars;
use vstd::prelude::*;
use vstd::std_specs::iter::IteratorSpec;

verus! {

broadcast use vstd::string::group_string_axioms;

/// The failure of a rule to match at the front of its input.
#[derive(PartialEq, Eq, Debug, Copy, Clone)]
pub struct ParseError;

/// What a rule gives: its value and the input that it left, or a failure.
pub type ParseResult<'a, T> = Result<(T, &'a str), ParseError>;

/// Whether `char::is_whitespace` of std holds of `c`: whether `c` has the
/// Unicode property White_Space.
pub uninterp spec fn char_is_whitespace(c: char) -> bool;

/// Whether `char::is_alphanumeric` of std holds of `c`: whether `c` is
/// alphabetic or numeric as Unicode defines it.
pub uninterp spec fn char_is_alphanumeric(c: char) -> bool;

/// `char::is_whitespace` of std. The result is a function of the character
/// alone; the contract gives it a name and says no more of it.
pub assume_specification[ char::is_whitespace ](c: char) -> (b: bool)
    ensures
        b == char_is_whitespace(c),
;

/// `char::is_alphanumeric` of std. The result is a function of the
/// character alone; the contract gives it a name and says no more of it.
pub assume_specification[ char::is_alphanumeric ](c: char) -> (b: bool)
    ensures
        b == char_is_alphanumeric(c),
;

/// `Chars::as_str` of std: the part of the text that the iterator has not
/// yet handed out, as a slice of the text it was made from.
pub assume_specification<'a>[ Chars::<'a>::as_str ](chars: &Chars<'a>) -> (rest: &'a str)
    ensures
        rest@ == chars.remaining(),
;

/// The sets of characters that the notation's tokens are runs of.
#[derive(PartialEq, Eq, Debug, Copy, Clone)]
pub enum CharClass {
    /// The decimal digits `0` to `9`.
    Digit,
    /// Letters and digits of any script, and the characters `_+#=:`.
    Symbol,
    /// White space.
    Whitespace,
    /// All but carriage return and line feed: the text of a line comment.
    LineText,
    /// All but `}`: the text of a block comment.
    BlockText,
    /// Line feed, carriage return and the space character.
    Blank,
}

impl CharClass {
    /// Whether `c` belongs to the class.
    pub open spec fn contains(self, c: char) -> bool {
        match self {
            CharClass::Digit => '0' <= c && c <= '9',
            CharClass::Symbol => char_is_alphanumeric(c) || c == '_' || c == '+' || c == '#' || c
                == '=' || c == ':',
            CharClass::Whitespace => char_is_whitespace(c),
            CharClass::LineText => c != '\r' && c != '\n',
            CharClass::BlockText => c != '}',
            CharClass::Blank => c == '\n' || c == '\r' || c == ' ',
        }
    }

    /// Whether `c` belongs to the class.
    pub fn has(self, c: char) -> (b: bool)
        ensures
            b == self.contains(c),
    {
        match self {
            CharClass::Digit => '0' <= c && c <= '9',
            CharClass::Symbol => c.is_alphanumeric() || c == '_' || c == '+' || c == '#' || c == '='
                || c == ':',
            CharClass::Whitespace => c.is_whitespace(),
            CharClass::LineText => c != '\r' && c != '\n',
            CharClass::BlockText => c != '}',
            CharClass::Blank => c == '\n' || c == '\r' || c == ' ',
        }
    }
}

/// Length of the longest prefix of `s` whose characters all belong to
/// `class`.
pub open spec fn run_len(s: Seq<char>, class: CharClass) -> nat
    decreases s.len(),
{
    if s.len() > 0 && class.contains(s[0]) {
        1 + run_len(s.drop_first(), class)
    } else {
        0
    }
}

/// The run is a prefix of the text, all its characters belong to the class,
/// and the character after it, if there is one, does not.
pub proof fn lemma_run_len(s: Seq<char>, class: CharClass)
    ensures
        run_len(s, class) <= s.len(),
        forall|i: int| 0 <= i < run_len(s, class) ==> class.contains(#[trigger] s[i]),
        run_len(s, class) < s.len() ==> !class.contains(s[run_len(s, class) as int]),
    decreases s.len(),
{
    if s.len() > 0 && class.contains(s[0]) {
        let t = s.drop_first();
        lemma_run_len(t, class);
        assert forall|i: int| 0 <= i < run_len(s, class) implies class.contains(#[trigger] s[i]) by {
            if i > 0 {
                assert(s[i] == t[i - 1]);
            }
        }
        if run_len(s, class) < s.len() {
            assert(s[run_len(s, class) as int] == t[run_len(t, class) as int]);
        }
    }
}

/// A prefix whose characters all belong to the class, and which ends the
/// text or is followed by a character outside the class, is the run.
pub proof fn lemma_run_len_is(s: Seq<char>, class: CharClass, n: nat)
    requires
        n <= s.len(),
        forall|i: int| 0 <= i < n ==> class.contains(#[trigger] s[i]),
        n < s.len() ==> !class.contains(s[n as int]),
    ensures
        run_len(s, class) == n,
    decreases s.len(),
{
    if n > 0 {
        let t = s.drop_first();
        assert(class.contains(s[0]));
        assert forall|i: int| 0 <= i < n - 1 implies class.contains(#[trigger] t[i]) by {
            assert(t[i] == s[i + 1]);
        }
        lemma_run_len_is(t, class, (n - 1) as nat);
    }
}

/// Takes the first character off the input. Fails on empty input.
pub fn any_char(input: &str) -> (r: ParseResult<'_, char>)
    ensures
        match r {
            Ok((c, rest)) => input@.len() > 0 && c == input@[0] && rest@ == input@.drop_first(),
            Err(_) => input@.len() == 0,
        },
{
    let mut chars = input.chars();
    match chars.next() {
        Some(c) => Ok((c, chars.as_str())),
        None => Err(ParseError),
    }
}

/// Splits the input behind the longest prefix on whose characters
/// `predicate` answers `true`.
///
/// The contract speaks of the predicate through its own contract: each
/// character of the prefix is one on which it may answer `true`, and the
/// first character left, if any, is one on which it may answer `false`.
pub fn scan_while<'a, F: Fn(char) -> bool>(input: &'a str, predicate: F) -> (r: (&'a str, &'a str))
    requires
        forall|c: char| call_requires(predicate, (c,)),
    ensures
        r.0@ + r.1@ == input@,
        forall|i: int| 0 <= i < r.0@.len() ==> call_ensures(predicate, (#[trigger] r.0@[i],), true),
        r.1@.len() > 0 ==> call_ensures(predicate, (r.1@[0],), false),
{
    let mut chars = input.chars();
    let mut n: usize = 0;
    loop
        invariant
            forall|c: char| call_requires(predicate, (c,)),
            n <= input@.len(),
            chars.remaining() == input@.skip(n as int),
            forall|i: int| 0 <= i < n ==> call_ensures(predicate, (#[trigger] input@[i],), true),
        decreases input@.len() - n,
    {
        let rest = chars.as_str();
        match chars.next() {
            Some(c) => {
                assert(c == input@[n as int]);
                if !predicate(c) {
                    let prefix = input.substring_char(0, n);
                    assert(prefix@ + rest@ =~= input@);
                    return (prefix, rest);
                }
                if n == usize::MAX {
                    // A text has no more characters than fit in `usize`.
                    let _ = input.unicode_len();
                }
                assert(input@.skip(n as int).drop_first() =~= input@.skip(n + 1));
                n += 1;
            },
            None => {
                let prefix = input.substring_char(0, n);
                assert(prefix@ + rest@ =~= input@);
                return (prefix, rest);
            },
        }
    }
}

/// Splits the input behind its longest prefix of characters of `class`.
pub fn scan_class<'a>(input: &'a str, class: CharClass) -> (r: (&'a str, &'a str))
    ensures
        r.0@ == input@.take(run_len(input@, class) as int),
        r.1@ == input@.skip(run_len(input@, class) as int),
        r.0@.len() == run_len(input@, class),
{
    let member = |c: char| -> (b: bool)
        ensures
            b == class.contains(c),
        { class.has(c) };
    let r = scan_while(input, member);
    proof {
        let n = r.0@.len();
        assert forall|i: int| 0 <= i < n implies class.contains(#[trigger] input@[i]) by {
            assert(input@[i] == r.0@[i]);
        }
        if n < input@.len() {
            assert(input@[n as int] == r.1@[0]);
        }
        lemma_run_len_is(input@, class, n);
        assert(r.0@ =~= input@.take(n as int));
        assert(r.1@ =~= input@.skip(n as int));
    }
    r
}

/// The longest prefix on whose characters `predicate` answers `true`, and
/// the input behind it. Never fails; the prefix may be empty.
pub fn read_zero_or_more<'a, F: Fn(char) -> bool>(input: &'a str, predicate: F) -> (r: ParseResult<
    'a,
    &'a str,
>)
    requires
        forall|c: char| call_requires(predicate, (c,)),
    ensures
        r matches Ok((prefix, rest)) && {
            &&& prefix@ + rest@ == input@
            &&& forall|i: int|
                0 <= i < prefix@.len() ==> call_ensures(predicate, (#[trigger] prefix@[i],), true)
            &&& rest@.len() > 0 ==> call_ensures(predicate, (rest@[0],), false)
        },
{
    Ok(scan_while(input, predicate))
}

/// As [`read_zero_or_more`], but fails when the prefix is empty: when the
/// input is empty or `predicate` answers `false` on its first character.
pub fn read_one_or_more<'a, F: Fn(char) -> bool>(input: &'a str, predicate: F) -> (r: ParseResult<
    'a,
    &'a str,
>)
    requires
        forall|c: char| call_requires(predicate, (c,)),
    ensures
        match r {
            Ok((prefix, rest)) => {
                &&& prefix@.len() > 0
                &&& prefix@ + rest@ == input@
                &&& forall|i: int|
                    0 <= i < prefix@.len() ==> call_ensures(
                        predicate,
                        (#[trigger] prefix@[i],),
                        true,
                    )
                &&& rest@.len() > 0 ==> call_ensures(predicate, (rest@[0],), false)
            },
            Err(_) => input@.len() == 0 || call_ensures(predicate, (input@[0],), false),
        },
{
    let (prefix, rest) = scan_while(input, predicate);
    if prefix.is_empty() {
        assert(rest@ =~= input@);
        Err(ParseError)
    } else {
        Ok((prefix, rest))
    }
}

} // verus!
