//! Emoji comparison, mentions of the bot at the start of a message, and the
//! lists of warnings and notes that the bot posts.

use vstd::prelude::*;
use vstd::string::*;
use crate::text::{chars_of, option_view, string_of, strip_char, views, without_char};

verus! {

/// The variation selector that asks for the emoji presentation of the
/// character before it. Clients add or leave it out at will.
pub open spec fn variation_selector() -> char {
    '\u{fe0f}'
}

/// Two emoji are the same when they agree after all variation selectors
/// have been left out.
pub open spec fn same_emoji(a: Seq<char>, b: Seq<char>) -> bool {
    without_char(a, variation_selector()) == without_char(b, variation_selector())
}

/// Returns `true` if the emojis are matching: variation selectors do not
/// count, everything else does.
pub fn emoji_cmp(a: &str, b: &str) -> (r: bool)
    ensures
        r == same_emoji(a@, b@),
{
    let x = strip_char(a, '\u{fe0f}');
    let y = strip_char(b, '\u{fe0f}');
    x == y
}

/// Variation selectors never make a difference, and every emoji matches
/// itself.
pub proof fn law_same_emoji(a: Seq<char>, b: Seq<char>)
    ensures
        same_emoji(a, a),
        same_emoji(a, b) == same_emoji(b, a),
        same_emoji(without_char(a, variation_selector()), a),
{
    crate::text::lemma_without_char_idempotent(a, variation_selector());
}

/// The sign in front of a warning.
pub open spec fn warning_sign() -> Seq<char> {
    "⚠️"@
}

/// The sign in front of a note.
pub open spec fn note_sign() -> Seq<char> {
    "ℹ️"@
}

/// One line for each message: a dash, the sign, the message and a line
/// break.
pub open spec fn formatted_messages(sign: Seq<char>, list: Seq<Seq<char>>) -> Seq<char>
    decreases list.len(),
{
    if list.len() == 0 {
        Seq::empty()
    } else {
        formatted_messages(sign, list.drop_last()) + "- "@ + sign + " "@ + list.last()
            + "<br>"@
    }
}

/// Lays out a list of warnings or of notes as HTML, one line for each.
pub fn format_messages(is_warning: bool, list: &[String]) -> (r: String)
    ensures
        r@ == formatted_messages(
            if is_warning {
                warning_sign()
            } else {
                note_sign()
            },
            views(list@),
        ),
{
    let emoji = if is_warning {
        "⚠️"
    } else {
        "ℹ️"
    };
    let mut messages = String::new();
    let mut i: usize = 0;
    proof {
        assert(views(list@).take(0) =~= Seq::<Seq<char>>::empty());
    }
    while i < list.len()
        invariant
            i <= list.len(),
            emoji@ == (if is_warning {
                warning_sign()
            } else {
                note_sign()
            }),
            messages@ == formatted_messages(emoji@, views(list@).take(i as int)),
        decreases list.len() - i,
    {
        proof {
            assert(views(list@).take(i + 1).drop_last() =~= views(list@).take(i as int));
            assert(views(list@).take(i + 1).last() == list@[i as int]@);
        }
        messages.append("- ");
        messages.append(emoji);
        messages.append(" ");
        messages.append(list[i].as_str());
        messages.append("<br>");
        i += 1;
    }
    proof {
        assert(views(list@).take(list.len() as int) =~= views(list@));
    }
    messages
}

/// The characters that mean something to the regular expression syntax.
pub open spec fn is_meta_character(c: char) -> bool {
    c == '\\' || c == '.' || c == '+' || c == '*' || c == '?' || c == '(' || c == ')' || c == '|'
        || c == '[' || c == ']' || c == '{' || c == '}' || c == '^' || c == '$' || c == '#' || c
        == '&' || c == '-' || c == '~'
}

/// `s` with a backslash in front of every meta character.
pub open spec fn escaped(s: Seq<char>) -> Seq<char>
    decreases s.len(),
{
    if s.len() == 0 {
        Seq::empty()
    } else if is_meta_character(s.last()) {
        escaped(s.drop_last()).push('\\').push(s.last())
    } else {
        escaped(s.drop_last()).push(s.last())
    }
}

/// `regex::escape`: the text with each meta character of the regular
/// expression syntax preceded by a backslash, so that the result matches the
/// text literally.
pub assume_specification[ regex::escape ](pattern: &str) -> (r: String)
    ensures
        r@ == escaped(pattern@),
;

/// Whether the regular expression `pattern` has a match in `text`; `None`
/// where `pattern` is not an expression that the regex crate compiles.
pub uninterp spec fn regex_match(pattern: Seq<char>, text: Seq<char>) -> Option<bool>;

/// `text` with the leftmost match of the regular expression `pattern` cut
/// out; `None` where `pattern` is not an expression that the regex crate
/// compiles.
pub uninterp spec fn regex_cut(pattern: Seq<char>, text: Seq<char>) -> Option<Seq<char>>;

/// `regex::Regex::is_match` on the expression that `regex::Regex::new`
/// compiles from `pattern`. The result is the one that the crate gives for
/// this pattern and this text, `None` where compiling fails.
#[verifier::external_body]
pub(crate) fn is_match(pattern: &str, text: &str) -> (r: Option<bool>)
    ensures
        r == regex_match(pattern@, text@),
{
    match regex::Regex::new(pattern) {
        Ok(re) => Some(re.is_match(text)),
        Err(_) => None,
    }
}

/// `regex::Regex::replace` with an empty replacement, on the expression that
/// `regex::Regex::new` compiles from `pattern`: the leftmost match leaves the
/// text. The result is the one that the crate gives for this pattern and
/// this text, `None` where compiling fails.
#[verifier::external_body]
pub(crate) fn cut_first(pattern: &str, text: &str) -> (r: Option<String>)
    ensures
        r is Some == regex_cut(pattern@, text@) is Some,
        r matches Some(s) ==> Some(s@) == regex_cut(pattern@, text@),
{
    match regex::Regex::new(pattern) {
        Ok(re) => Some(re.replace(text, "").into_owned()),
        Err(_) => None,
    }
}

/// The characters that count as white space (the Unicode property
/// `White_Space`).
pub open spec fn is_white_space(c: char) -> bool {
    ('\u{9}' <= c && c <= '\u{d}') || c == ' ' || c == '\u{85}' || c == '\u{a0}' || c
        == '\u{1680}' || ('\u{2000}' <= c && c <= '\u{200a}') || c == '\u{2028}' || c
        == '\u{2029}' || c == '\u{202f}' || c == '\u{205f}' || c == '\u{3000}'
}

/// `s` without the white space at its start.
pub open spec fn trimmed_start(s: Seq<char>) -> Seq<char>
    decreases s.len(),
{
    if s.len() > 0 && is_white_space(s[0]) {
        trimmed_start(s.drop_first())
    } else {
        s
    }
}

/// `s` without the white space at its end.
pub open spec fn trimmed_end(s: Seq<char>) -> Seq<char>
    decreases s.len(),
{
    if s.len() > 0 && is_white_space(s.last()) {
        trimmed_end(s.drop_last())
    } else {
        s
    }
}

/// `s` without the white space at its start and at its end.
pub open spec fn trimmed(s: Seq<char>) -> Seq<char> {
    trimmed_end(trimmed_start(s))
}

/// `str::trim` of the standard library: the text without leading and
/// trailing white space, where white space is what the Unicode property
/// `White_Space` says.
pub assume_specification[ str::trim ](s: &str) -> (r: &str)
    ensures
        r@ == trimmed(s@),
;

/// The place of the first `c` in `s`; the length of `s` where it has none.
pub open spec fn position_of(s: Seq<char>, c: char) -> int
    decreases s.len(),
{
    if s.len() == 0 {
        0
    } else if s[0] == c {
        0
    } else {
        1 + position_of(s.drop_first(), c)
    }
}

/// A place before which `c` does not occur, and at which it stands unless
/// the place is the end, is the one that `position_of` gives.
pub proof fn lemma_position_of(s: Seq<char>, c: char, k: int)
    requires
        0 <= k <= s.len(),
        forall|j: int| 0 <= j < k ==> s[j] != c,
        k < s.len() ==> s[k] == c,
    ensures
        position_of(s, c) == k,
    decreases k,
{
    if k > 0 {
        let rest = s.drop_first();
        assert forall|j: int| 0 <= j < k - 1 implies rest[j] != c by {
            assert(rest[j] == s[j + 1]);
        }
        lemma_position_of(rest, c, k - 1);
    }
}

/// A user id without the `@` that it starts with.
pub open spec fn bare_user_id(user_id: Seq<char>) -> Seq<char> {
    if user_id.len() > 0 && user_id[0] == '@' {
        user_id.drop_first()
    } else {
        user_id
    }
}

/// The part of a user id between the leading `@` and the first colon.
pub open spec fn localpart(user_id: Seq<char>) -> Seq<char> {
    let bare = bare_user_id(user_id);
    bare.take(position_of(bare, ':'))
}

/// The part of a user id after the first colon; empty where there is none.
pub open spec fn server_name(user_id: Seq<char>) -> Seq<char> {
    let bare = bare_user_id(user_id);
    if position_of(bare, ':') < bare.len() {
        bare.skip(position_of(bare, ':') + 1)
    } else {
        Seq::empty()
    }
}

/// Splits a user id of the form `@localpart:server` into its two parts.
pub fn user_id_parts(user_id: &str) -> (r: (String, String))
    ensures
        r.0@ == localpart(user_id@),
        r.1@ == server_name(user_id@),
{
    let chars = chars_of(user_id);
    let start: usize = if chars.len() > 0 && chars[0] == '@' {
        1
    } else {
        0
    };
    let ghost bare = bare_user_id(chars@);
    proof {
        assert(bare =~= chars@.skip(start as int));
    }
    let mut local: Vec<char> = Vec::new();
    let mut i: usize = start;
    while i < chars.len() && chars[i] != ':'
        invariant
            start <= i <= chars.len(),
            bare == chars@.skip(start as int),
            local@ == bare.take(i - start),
            forall|j: int| 0 <= j < i - start ==> bare[j] != ':',
        decreases chars.len() - i,
    {
        local.push(chars[i]);
        proof {
            assert(bare.take(i - start).push(bare[i - start]) =~= bare.take(i + 1 - start));
        }
        i += 1;
    }
    proof {
        lemma_position_of(bare, ':', i - start);
    }
    let mut server: Vec<char> = Vec::new();
    if i < chars.len() {
        let mut j: usize = i + 1;
        while j < chars.len()
            invariant
                i + 1 <= j <= chars.len(),
                start <= i,
                bare == chars@.skip(start as int),
                server@ == bare.skip(i + 1 - start).take(j - i - 1),
            decreases chars.len() - j,
        {
            server.push(chars[j]);
            proof {
                let tail = bare.skip(i + 1 - start);
                assert(tail.take(j - i - 1).push(tail[j - i - 1]) =~= tail.take(j - i));
            }
            j += 1;
        }
        proof {
            let tail = bare.skip(i + 1 - start);
            assert(tail.take(tail.len() as int) =~= tail);
        }
    }
    (string_of(&local), string_of(&server))
}

/// The regular expression for a mention of the user at the start of a
/// message: case-insensitive, with or without the leading `@`, with or
/// without the server name, with or without a colon after it.
pub open spec fn user_id_mention_pattern(user_id: Seq<char>) -> Seq<char> {
    "(?i)^@?"@ + escaped(localpart(user_id)) + "(:"@ + escaped(server_name(user_id)) + ")?:?"@
}

/// The regular expression for a mention by display name at the start of a
/// message: case-insensitive, with or without a colon after it.
pub open spec fn display_name_mention_pattern(display_name: Seq<char>) -> Seq<char> {
    "(?i)^"@ + escaped(display_name) + ":?"@
}

/// Builds the regular expression that matches a mention by user id.
pub fn user_id_mention_regex(user_id: &str) -> (r: String)
    ensures
        r@ == user_id_mention_pattern(user_id@),
{
    let (local, server) = user_id_parts(user_id);
    let mut out = String::from_str("(?i)^@?");
    out.append(regex::escape(local.as_str()).as_str());
    out.append("(:");
    out.append(regex::escape(server.as_str()).as_str());
    out.append(")?:?");
    out
}

/// Builds the regular expression that matches a mention by display name.
pub fn display_name_mention_regex(display_name: &str) -> (r: String)
    ensures
        r@ == display_name_mention_pattern(display_name@),
{
    let mut out = String::from_str("(?i)^");
    out.append(regex::escape(display_name).as_str());
    out.append(":?");
    out
}

/// A message mentions the bot when the expression for the user id matches
/// it, or, where the bot has a display name, the expression for that name.
/// An expression that does not compile matches nothing.
pub open spec fn mention_found(by_user_id: Option<bool>, by_display_name: Option<Option<bool>>) -> bool {
    by_user_id == Some(true) || by_display_name == Some(Some(true))
}

/// Tells whether a matcher found something: only a pattern that compiled
/// and matched counts.
pub fn matched(found: Option<bool>) -> (r: bool)
    ensures
        r == (found == Some(true)),
{
    match found {
        Some(true) => true,
        _ => false,
    }
}

/// Decides from the results of the two matchers whether a message starts
/// with a mention. `by_display_name` is `None` where the bot has no display
/// name.
pub fn mention_verdict(by_user_id: Option<bool>, by_display_name: Option<Option<bool>>) -> (r: bool)
    ensures
        r == mention_found(by_user_id, by_display_name),
{
    matched(by_user_id) || match by_display_name {
        Some(found) => matched(found),
        None => false,
    }
}

/// Whether `msg` starts with a mention of the user or of the display name.
pub open spec fn starts_with_mention(
    user_id: Seq<char>,
    display_name: Option<Seq<char>>,
    msg: Seq<char>,
) -> bool {
    mention_found(
        regex_match(user_id_mention_pattern(user_id), msg),
        match display_name {
            Some(name) => Some(regex_match(display_name_mention_pattern(name), msg)),
            None => None,
        },
    )
}

/// Checks if a message starts with a user ID or display name mention.
///
/// The mention is case-insensitive and may be followed by `:`. For the user
/// id it may start with `@` and may include the server name.
pub fn msg_starts_with_mention(user_id: &str, display_name: Option<String>, msg: &str) -> (r: bool)
    ensures
        r == starts_with_mention(
            user_id@,
            match display_name {
                Some(name) => Some(name@),
                None => None,
            },
            msg@,
        ),
{
    let by_user_id = is_match(user_id_mention_regex(user_id).as_str(), msg);
    let by_display_name = match display_name {
        Some(name) => Some(is_match(display_name_mention_regex(name.as_str()).as_str(), msg)),
        None => None,
    };
    mention_verdict(by_user_id, by_display_name)
}

/// What is left of a message once a cut was tried: the cut text, or the
/// message itself where the expression did not compile.
pub open spec fn cut_or_keep(cut: Option<Seq<char>>, msg: Seq<char>) -> Seq<char> {
    match cut {
        Some(s) => s,
        None => msg,
    }
}

/// Picks what is left of `msg` after a cut was tried: the cut text, or `msg`
/// itself where there is none.
pub fn cut_or_original(cut: Option<String>, msg: &str) -> (r: String)
    ensures
        r@ == cut_or_keep(option_view(cut), msg@),
{
    match cut {
        Some(s) => s,
        None => String::from_str(msg),
    }
}

/// `msg` without the mention of the bot at its start and without the white
/// space around what is left.
pub open spec fn without_bot_name(
    user_id: Seq<char>,
    display_name: Option<Seq<char>>,
    msg: Seq<char>,
) -> Seq<char> {
    let first = cut_or_keep(regex_cut(user_id_mention_pattern(user_id), msg), msg);
    let second = match display_name {
        Some(name) => cut_or_keep(regex_cut(display_name_mention_pattern(name), first), first),
        None => first,
    };
    trimmed(second)
}

/// Remove bot name from message: first a mention by user id, then a mention
/// by display name, then the white space at both ends.
pub fn remove_bot_name(user_id: &str, display_name: Option<String>, msg: &str) -> (r: String)
    ensures
        r@ == without_bot_name(
            user_id@,
            match display_name {
                Some(name) => Some(name@),
                None => None,
            },
            msg@,
        ),
{
    let first = cut_or_original(cut_first(user_id_mention_regex(user_id).as_str(), msg), msg);
    let second = match display_name {
        Some(name) => cut_or_original(
            cut_first(display_name_mention_regex(name.as_str()).as_str(), first.as_str()),
            first.as_str(),
        ),
        None => first,
    };
    String::from_str(second.as_str().trim())
}

} // verus!
