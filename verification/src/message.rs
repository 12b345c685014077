//! From a chat message to a command: the prefix test, the split of the
//! command word from its arguments, and which command the word names.
use crate::text::{trim, trim_text};
use vstd::prelude::*;
use vstd::string::*;

verus! {

/// The character that every command starts with.
pub open spec fn prefix_char() -> char {
    '!'
}

/// What `str::to_lowercase` makes of `s`: its lowercase form by the Unicode
/// case mappings (each character mapped by the character database, and a
/// capital sigma by its place in a word).
pub uninterp spec fn lowercase(s: Seq<char>) -> Seq<char>;

/// `s` in lowercase (`str::to_lowercase`). Stated: the result is the named
/// function `lowercase` of the text; the Unicode case mapping itself is not
/// written out.
#[verifier::external_body]
fn to_lowercase(s: &str) -> (r: String)
    ensures
        r@ == lowercase(s@),
{
    s.to_lowercase()
}

/// The index of the first space in `s`, or its length where it has none.
pub open spec fn space_index(s: Seq<char>) -> nat
    decreases s.len(),
{
    if s.len() == 0 || s[0] == ' ' {
        0
    } else {
        1 + space_index(s.drop_first())
    }
}

/// The command word of a message: all before the first space.
pub open spec fn command_word(s: Seq<char>) -> Seq<char> {
    s.take(space_index(s) as int)
}

/// The arguments of a message: all after the first space, or nothing where
/// there is no space.
pub open spec fn argument_text(s: Seq<char>) -> Seq<char> {
    if space_index(s) < s.len() {
        s.skip(space_index(s) as int + 1)
    } else {
        Seq::empty()
    }
}

/// Whether a message is a command for the bot: it starts with the prefix and
/// was not written by a bot.
pub open spec fn is_command_message(content: Seq<char>, author_is_bot: bool) -> bool {
    content.len() > 0 && content[0] == prefix_char() && !author_is_bot
}

proof fn lemma_space_index_skip(s: Seq<char>, i: int)
    requires
        0 <= i <= s.len(),
        forall|j: int| 0 <= j < i ==> #[trigger] s[j] != ' ',
    ensures
        space_index(s) == i + space_index(s.skip(i)),
    decreases i,
{
    if i > 0 {
        lemma_space_index_skip(s.drop_first(), i - 1);
        assert(s.drop_first().skip(i - 1) =~= s.skip(i));
    } else {
        assert(s.skip(0) =~= s);
    }
}

/// Splits a message into its command word and its trimmed arguments.
pub fn split_command(content: &str) -> (r: (String, String))
    ensures
        r.0@ == command_word(content@),
        r.1@ == trim(argument_text(content@)),
{
    let n = content.unicode_len();
    let mut k: usize = 0;
    while k < n && content.get_char(k) != ' '
        invariant
            n == content@.len(),
            k <= n,
            forall|j: int| 0 <= j < k ==> #[trigger] content@[j] != ' ',
        decreases n - k,
    {
        k = k + 1;
    }
    proof {
        lemma_space_index_skip(content@, k as int);
        if k < n {
            assert(content@.skip(k as int)[0] == ' ');
        }
    }
    let word = String::from_str(content.substring_char(0, k));
    if k < n {
        let rest = content.substring_char(k + 1, n);
        assert(rest@ =~= argument_text(content@));
        (word, trim_text(rest))
    } else {
        let rest = content.substring_char(n, n);
        assert(rest@ =~= argument_text(content@));
        (word, trim_text(rest))
    }
}

/// Reads a chat message. Where it is a command (it starts with `!` and its
/// author is no bot) the result is its command word in lowercase and its
/// trimmed arguments; otherwise `None`.
pub fn parse_message(content: &str, author_is_bot: bool) -> (r: Option<(String, String)>)
    ensures
        r is Some <==> is_command_message(content@, author_is_bot),
        r matches Some((c, a)) ==> c@ == lowercase(command_word(content@)) && a@ == trim(
            argument_text(content@),
        ),
{
    let n = content.unicode_len();
    if n == 0 || content.get_char(0) != '!' || author_is_bot {
        return None;
    }
    let (word, args) = split_command(content);
    let lower = to_lowercase(word.as_str());
    Some((lower, args))
}

/// The commands of the bot.
#[derive(Clone, Copy, Debug, PartialEq, Eq, Structural)]
pub enum Command {
    /// `!quotehelp` or `!helpquote`: the list of commands.
    Help,
    /// `!setactivity`: show another status.
    SetActivity,
    /// `!ping`: answer `pong!` and the arguments.
    Ping,
    /// `!quote`: a random quote, or the quote with the given number.
    Quote,
    /// `!findquote` or `!quotesearch`: the numbers of the quotes holding a text.
    FindQuote,
    /// `!addquote`: store a new quote.
    AddQuote,
    /// `!delquote`: remove a quote.
    DelQuote,
    /// Any other word: not for this bot.
    Other,
}

/// The command that a (lowercased) command word names.
pub open spec fn command_of(word: Seq<char>) -> Command {
    if word == "!quotehelp"@ || word == "!helpquote"@ {
        Command::Help
    } else if word == "!setactivity"@ {
        Command::SetActivity
    } else if word == "!ping"@ {
        Command::Ping
    } else if word == "!quote"@ {
        Command::Quote
    } else if word == "!findquote"@ || word == "!quotesearch"@ {
        Command::FindQuote
    } else if word == "!addquote"@ {
        Command::AddQuote
    } else if word == "!delquote"@ {
        Command::DelQuote
    } else {
        Command::Other
    }
}

/// Whether two texts hold the same characters.
pub fn same_text(a: &str, b: &str) -> (r: bool)
    ensures
        r == (a@ == b@),
{
    let n = a.unicode_len();
    let m = b.unicode_len();
    if n != m {
        return false;
    }
    let mut i: usize = 0;
    while i < n
        invariant
            n == a@.len(),
            m == b@.len(),
            n == m,
            i <= n,
            forall|j: int| 0 <= j < i ==> a@[j] == b@[j],
        decreases n - i,
    {
        if a.get_char(i) != b.get_char(i) {
            return false;
        }
        i = i + 1;
    }
    assert(a@ =~= b@);
    true
}

/// The command that a (lowercased) command word names.
pub fn classify_command(word: &str) -> (c: Command)
    ensures
        c == command_of(word@),
{
    if same_text(word, "!quotehelp") || same_text(word, "!helpquote") {
        Command::Help
    } else if same_text(word, "!setactivity") {
        Command::SetActivity
    } else if same_text(word, "!ping") {
        Command::Ping
    } else if same_text(word, "!quote") {
        Command::Quote
    } else if same_text(word, "!findquote") || same_text(word, "!quotesearch") {
        Command::FindQuote
    } else if same_text(word, "!addquote") {
        Command::AddQuote
    } else if same_text(word, "!delquote") {
        Command::DelQuote
    } else {
        Command::Other
    }
}

/// The name of the role whose members may change the status and delete quotes.
pub fn moderator_role_name() -> (r: &'static str)
    ensures
        r@ == "BotGod"@,
{
    "BotGod"
}

/// Whether the author may use the restricted commands: the server has a role
/// named `BotGod` (its id is `role`) and the author holds it (`member_roles`).
pub fn is_bot_god(role: Option<u64>, member_roles: &Vec<u64>) -> (r: bool)
    ensures
        r == (role matches Some(id) && member_roles@.contains(id)),
{
    match role {
        None => false,
        Some(id) => {
            let mut i: usize = 0;
            while i < member_roles.len()
                invariant
                    role == Some(id),
                    i <= member_roles@.len(),
                    forall|j: int| 0 <= j < i ==> member_roles@[j] != id,
                decreases member_roles@.len() - i,
            {
                if member_roles[i] == id {
                    assert(member_roles@[i as int] == id);
                    return true;
                }
                i = i + 1;
            }
            false
        }
    }
}

} // verus!
