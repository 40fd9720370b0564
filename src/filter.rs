//! The message filter and the message it lets through.
use vstd::prelude::*;

verus! {

#[verifier::external_type_specification]
#[verifier::external_body]
pub struct ExRegex(regex::Regex);

#[verifier::external_type_specification]
#[verifier::external_body]
pub struct ExRegexError(regex::Error);

/// Whether `regex::Regex::new` accepts a pattern.
pub uninterp spec fn pattern_compiles(pattern: Seq<char>) -> bool;

/// Whether a compiled pattern matches anywhere in a text.
pub uninterp spec fn pattern_matches(pattern: Seq<char>, text: Seq<char>) -> bool;

/// Relies on `regex::Regex::new`: it fails exactly on a pattern that is
/// invalid or over the default size limit, which depends on the pattern alone.
#[verifier::external_body]
fn compile(pattern: &str) -> (r: Result<regex::Regex, regex::Error>)
    ensures
        r.is_ok() == pattern_compiles(pattern@),
{
    regex::Regex::new(pattern)
}

/// Why a filter could not be built.
#[derive(Clone, Copy, Debug, PartialEq, Eq, Structural)]
pub enum FilterError {
    InvalidPattern,
}

/// A pattern compiled once and then shared, read only, by every watcher.
pub struct RegexFilter {
    pattern: String,
    compiled: regex::Regex,
}

/// Relies on `regex::Regex::is_match`: whether the compiled pattern matches
/// anywhere in `text`. `compiled` is only ever set by `RegexFilter::new`,
/// from `pattern`.
#[verifier::external_body]
fn regex_is_match(filter: &RegexFilter, text: &str) -> (r: bool)
    ensures
        r == pattern_matches(filter.pattern@, text@),
{
    filter.compiled.is_match(text)
}

impl RegexFilter {
    /// The pattern the filter was built from.
    pub closed spec fn source(&self) -> Seq<char> {
        self.pattern@
    }

    /// Compiles `pattern`; fails with `InvalidPattern` exactly when the
    /// regex engine refuses it.
    pub fn new(pattern: &str) -> (r: Result<RegexFilter, FilterError>)
        ensures
            r.is_ok() == pattern_compiles(pattern@),
            r matches Ok(f) ==> f.source() == pattern@,
            r matches Err(e) ==> e == FilterError::InvalidPattern,
    {
        match compile(pattern) {
            Ok(compiled) => Ok(RegexFilter { pattern: pattern.to_owned(), compiled }),
            Err(_) => Err(FilterError::InvalidPattern),
        }
    }

    /// The pattern the filter was built from.
    pub fn pattern(&self) -> (r: &str)
        ensures
            r@ == self.source(),
    {
        self.pattern.as_str()
    }

    /// Whether the pattern matches anywhere in `text`.
    pub fn matches(&self, text: &str) -> (r: bool)
        ensures
            r == pattern_matches(self.source(), text@),
    {
        regex_is_match(self, text)
    }
}

/// A chat line that passed the filter.
pub struct Message {
    pub channel: String,
    pub nickname: String,
    pub msg: String,
}

/// The text `<channel> | <nickname>: <msg>`.
pub open spec fn line_of(channel: Seq<char>, nickname: Seq<char>, msg: Seq<char>) -> Seq<char> {
    channel + seq![' ', '|', ' '] + nickname + seq![':', ' '] + msg
}

/// The name shown for a sender: its nickname, or `unknown` when the server
/// gave none.
pub open spec fn shown_sender(sender: Option<String>) -> Seq<char> {
    match sender {
        Some(s) => s@,
        None => seq!['u', 'n', 'k', 'n', 'o', 'w', 'n'],
    }
}

impl Message {
    /// The output line of this message: `<channel> | <nickname>: <msg>`.
    pub fn to_string(&self) -> (r: String)
        ensures
            r@ == line_of(self.channel@, self.nickname@, self.msg@),
    {
        let mut line = self.channel.clone();
        line.append(" | ");
        line.append(self.nickname.as_str());
        line.append(": ");
        line.append(self.msg.as_str());
        proof {
            reveal_strlit(" | ");
            reveal_strlit(": ");
            assert(line@ =~= line_of(self.channel@, self.nickname@, self.msg@));
        }
        line
    }
}

/// Builds the message of a chat line when `matched` says its text passed the
/// filter, and nothing otherwise. A sender the server did not name is shown
/// as `unknown`.
pub fn message_if_matched(
    matched: bool,
    channel: String,
    sender: Option<String>,
    text: String,
) -> (r: Option<Message>)
    ensures
        r.is_some() == matched,
        r matches Some(m) ==> m.channel@ == channel@ && m.nickname@ == shown_sender(sender)
            && m.msg@ == text@,
{
    if !matched {
        return None;
    }
    let nickname = match sender {
        Some(s) => s,
        None => {
            let s = String::from_str("unknown");
            proof {
                reveal_strlit("unknown");
                assert(s@ =~= seq!['u', 'n', 'k', 'n', 'o', 'w', 'n']);
            }
            s
        },
    };
    Some(Message { channel, nickname, msg: text })
}

/// Applies the filter to one chat line: a message comes out exactly when the
/// pattern matches its text.
pub fn filter_chat(
    filter: &RegexFilter,
    channel: String,
    sender: Option<String>,
    text: String,
) -> (r: Option<Message>)
    ensures
        r.is_some() == pattern_matches(filter.source(), text@),
        r matches Some(m) ==> m.channel@ == channel@ && m.nickname@ == shown_sender(sender)
            && m.msg@ == text@,
{
    let matched = filter.matches(text.as_str());
    message_if_matched(matched, channel, sender, text)
}

} // verus!
