//! The character-level scanners that the grammar is built from.
//!
//! The scanners themselves are `nom`'s; this module states what each of them
//! does to a string, and the grammar is proved against those statements.

use vstd::prelude::*;

verus! {

/// The sets of characters that the scanners tell apart.
pub enum CharClass {
    /// `0` to `9`.
    Digit,
    /// `a` to `z` and `A` to `Z`.
    Alpha,
    /// A digit or a letter.
    Alphanumeric,
    /// A blank or a tab.
    Space,
    /// A blank, a tab, a carriage return or a line feed.
    Multispace,
    /// Every character but the one given.
    Except(char),
}

impl CharClass {
    /// Whether `c` belongs to this set.
    pub open spec fn holds(self, c: char) -> bool {
        match self {
            CharClass::Digit => '0' <= c <= '9',
            CharClass::Alpha => 'a' <= c <= 'z' || 'A' <= c <= 'Z',
            CharClass::Alphanumeric => '0' <= c <= '9' || 'a' <= c <= 'z' || 'A' <= c <= 'Z',
            CharClass::Space => c == ' ' || c == '\t',
            CharClass::Multispace => c == ' ' || c == '\t' || c == '\r' || c == '\n',
            CharClass::Except(stop) => c != stop,
        }
    }
}

/// Length of the longest prefix of `s` whose characters all belong to
/// `class`.
pub open spec fn run_len(s: Seq<char>, class: CharClass) -> nat
    decreases s.len(),
{
    if s.len() == 0 || !class.holds(s[0]) {
        0
    } else {
        1 + run_len(s.drop_first(), class)
    }
}

/// The longest prefix of `s` whose characters all belong to `class`.
pub open spec fn run(s: Seq<char>, class: CharClass) -> Seq<char> {
    s.take(run_len(s, class) as int)
}

/// What follows the longest prefix of `s` whose characters all belong to
/// `class`.
pub open spec fn after_run(s: Seq<char>, class: CharClass) -> Seq<char> {
    s.skip(run_len(s, class) as int)
}

/// What follows `pattern` at the front of `s`, if `s` begins with it.
pub open spec fn after_tag(pattern: Seq<char>, s: Seq<char>) -> Option<Seq<char>> {
    if pattern.is_prefix_of(s) {
        Some(s.skip(pattern.len() as int))
    } else {
        None
    }
}

/// What follows the line ending at the front of `s`, if `s` begins with a
/// line feed or with a carriage return and a line feed.
pub open spec fn after_line_ending(s: Seq<char>) -> Option<Seq<char>> {
    if s.len() >= 1 && s[0] == '\n' {
        Some(s.skip(1))
    } else if s.len() >= 2 && s[0] == '\r' && s[1] == '\n' {
        Some(s.skip(2))
    } else {
        None
    }
}

/// `s` from the first occurrence of `stop` on, if there is one.
pub open spec fn from_first(stop: char, s: Seq<char>) -> Option<Seq<char>> {
    if run_len(s, CharClass::Except(stop)) < s.len() {
        Some(after_run(s, CharClass::Except(stop)))
    } else {
        None
    }
}

/// A run of the class is as long as the sequence at most, holds only
/// characters of the class, and ends at the first character that is not of
/// the class.
pub proof fn lemma_run_len(s: Seq<char>, class: CharClass)
    ensures
        run_len(s, class) <= s.len(),
        forall|i: int| 0 <= i < run_len(s, class) ==> class.holds(#[trigger] s[i]),
        run_len(s, class) < s.len() ==> !class.holds(s[run_len(s, class) as int]),
    decreases s.len(),
{
    if s.len() > 0 && class.holds(s[0]) {
        let tail = s.drop_first();
        lemma_run_len(tail, class);
        assert forall|i: int| 0 <= i < run_len(s, class) implies class.holds(#[trigger] s[i]) by {
            if i > 0 {
                assert(s[i] == tail[i - 1]);
            }
        }
        if run_len(s, class) < s.len() {
            assert(s[run_len(s, class) as int] == tail[run_len(tail, class) as int]);
        }
    }
}

/// A prefix of characters of the class that ends the sequence, or stands
/// before a character that is not of the class, is the run of the class.
pub proof fn lemma_run_is(s: Seq<char>, class: CharClass, n: nat)
    requires
        n <= s.len(),
        forall|i: int| 0 <= i < n ==> class.holds(#[trigger] s[i]),
        n < s.len() ==> !class.holds(s[n as int]),
    ensures
        run_len(s, class) == n,
    decreases n,
{
    if n > 0 {
        let tail = s.drop_first();
        assert(class.holds(s[0]));
        assert forall|i: int| 0 <= i < n - 1 implies class.holds(#[trigger] tail[i]) by {
            assert(tail[i] == s[i + 1]);
        }
        if n < s.len() {
            assert(tail[n - 1] == s[n as int]);
        }
        lemma_run_is(tail, class, (n - 1) as nat);
    }
}

/// Splits off the longest prefix of decimal digits, which must not be
/// empty. Returns what follows it, and the prefix.
///
/// This is `nom::character::complete::digit1` on a `&str`, which looks for
/// the first character that is no ASCII digit and splits there, and fails
/// where that is the first character or the input is empty.
#[verifier::external_body]
pub(crate) fn digit1<'a>(input: &'a str) -> (r: Option<(&'a str, &'a str)>)
    ensures
        r.is_some() <==> run_len(input@, CharClass::Digit) > 0,
        r matches Some((rest, taken)) ==> rest@ == after_run(input@, CharClass::Digit) && taken@
            == run(input@, CharClass::Digit),
{
    match nom::character::complete::digit1::<&str, nom::error::Error<&str>>(input) {
        Ok((rest, taken)) => Some((rest, taken)),
        Err(_) => None,
    }
}

/// Splits off the longest prefix of letters, which must not be empty.
/// Returns what follows it, and the prefix.
///
/// This is `nom::character::complete::alpha1` on a `&str`, which looks for
/// the first character that is no ASCII letter and splits there, and fails
/// where that is the first character or the input is empty.
#[verifier::external_body]
pub(crate) fn alpha1<'a>(input: &'a str) -> (r: Option<(&'a str, &'a str)>)
    ensures
        r.is_some() <==> run_len(input@, CharClass::Alpha) > 0,
        r matches Some((rest, taken)) ==> rest@ == after_run(input@, CharClass::Alpha) && taken@
            == run(input@, CharClass::Alpha),
{
    match nom::character::complete::alpha1::<&str, nom::error::Error<&str>>(input) {
        Ok((rest, taken)) => Some((rest, taken)),
        Err(_) => None,
    }
}

/// Splits off the longest prefix of letters and digits, which must not be
/// empty. Returns what follows it, and the prefix.
///
/// This is `nom::character::complete::alphanumeric1` on a `&str`, which
/// looks for the first character that is neither an ASCII letter nor an
/// ASCII digit and splits there, and fails where that is the first
/// character or the input is empty.
#[verifier::external_body]
pub(crate) fn alphanumeric1<'a>(input: &'a str) -> (r: Option<(&'a str, &'a str)>)
    ensures
        r.is_some() <==> run_len(input@, CharClass::Alphanumeric) > 0,
        r matches Some((rest, taken)) ==> rest@ == after_run(input@, CharClass::Alphanumeric)
            && taken@ == run(input@, CharClass::Alphanumeric),
{
    match nom::character::complete::alphanumeric1::<&str, nom::error::Error<&str>>(input) {
        Ok((rest, taken)) => Some((rest, taken)),
        Err(_) => None,
    }
}

/// Skips the blanks and tabs at the front of the input, of which there may
/// be none. Returns what follows them.
///
/// This is `nom::character::complete::space0` on a `&str`, which splits at
/// the first character that is neither a blank nor a tab, or at the end,
/// and never fails.
#[verifier::external_body]
pub(crate) fn space0<'a>(input: &'a str) -> (r: Option<&'a str>)
    ensures
        r.is_some(),
        r.unwrap()@ == after_run(input@, CharClass::Space),
{
    match nom::character::complete::space0::<&str, nom::error::Error<&str>>(input) {
        Ok((rest, _)) => Some(rest),
        Err(_) => None,
    }
}

/// Skips the blanks and tabs at the front of the input, of which there must
/// be one at least. Returns what follows them.
///
/// This is `nom::character::complete::space1` on a `&str`, which splits at
/// the first character that is neither a blank nor a tab, or at the end,
/// and fails where it would split at the front.
#[verifier::external_body]
pub(crate) fn space1<'a>(input: &'a str) -> (r: Option<&'a str>)
    ensures
        r.is_some() <==> run_len(input@, CharClass::Space) > 0,
        r matches Some(rest) ==> rest@ == after_run(input@, CharClass::Space),
{
    match nom::character::complete::space1::<&str, nom::error::Error<&str>>(input) {
        Ok((rest, _)) => Some(rest),
        Err(_) => None,
    }
}

/// Skips the blanks, tabs, carriage returns and line feeds at the front of
/// the input, of which there may be none. Returns what follows them.
///
/// This is `nom::character::complete::multispace0` on a `&str`, which
/// splits at the first character that is none of these four, or at the end,
/// and never fails.
#[verifier::external_body]
pub(crate) fn multispace0<'a>(input: &'a str) -> (r: Option<&'a str>)
    ensures
        r.is_some(),
        r.unwrap()@ == after_run(input@, CharClass::Multispace),
{
    match nom::character::complete::multispace0::<&str, nom::error::Error<&str>>(input) {
        Ok((rest, _)) => Some(rest),
        Err(_) => None,
    }
}

/// Skips one line ending at the front of the input. Returns what follows
/// it.
///
/// This is `nom::character::complete::line_ending` on a `&str`, which
/// accepts a line feed, or a carriage return followed by a line feed, and
/// fails on anything else.
#[verifier::external_body]
pub(crate) fn line_ending<'a>(input: &'a str) -> (r: Option<&'a str>)
    ensures
        r.is_some() <==> after_line_ending(input@).is_some(),
        r matches Some(rest) ==> Some(rest@) == after_line_ending(input@),
{
    match nom::character::complete::line_ending::<&str, nom::error::Error<&str>>(input) {
        Ok((rest, _)) => Some(rest),
        Err(_) => None,
    }
}

/// Skips `pattern` at the front of the input. Returns what follows it.
///
/// This is `nom::bytes::complete::tag` on a `&str`, which compares the
/// bytes of the pattern with those at the front of the input, and fails
/// where they differ or the input is shorter.
#[verifier::external_body]
pub(crate) fn tag<'a>(pattern: &str, input: &'a str) -> (r: Option<&'a str>)
    ensures
        r.is_some() <==> after_tag(pattern@, input@).is_some(),
        r matches Some(rest) ==> Some(rest@) == after_tag(pattern@, input@),
{
    match nom::bytes::complete::tag::<&str, &str, nom::error::Error<&str>>(pattern)(input) {
        Ok((rest, _)) => Some(rest),
        Err(_) => None,
    }
}

/// Skips the input up to the first occurrence of `pattern`, which is one
/// character long. Returns the input from that occurrence on.
///
/// This is `nom::bytes::complete::take_until` on a `&str`, which finds the
/// first place where the pattern stands and splits there, and fails where
/// the pattern does not occur.
#[verifier::external_body]
pub(crate) fn take_until<'a>(pattern: &str, input: &'a str) -> (r: Option<&'a str>)
    requires
        pattern@.len() == 1,
    ensures
        r.is_some() <==> from_first(pattern@[0], input@).is_some(),
        r matches Some(rest) ==> Some(rest@) == from_first(pattern@[0], input@),
{
    match nom::bytes::complete::take_until::<&str, &str, nom::error::Error<&str>>(pattern)(input) {
        Ok((rest, _)) => Some(rest),
        Err(_) => None,
    }
}

} // verus!
