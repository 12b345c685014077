//! The texts the bot answers with.
use crate::numbers::{int_text, push_int};
use vstd::prelude::*;
use vstd::string::*;

verus! {

/// The lines of the help text, in the order they are sent.
pub open spec fn help_lines() -> Seq<Seq<char>> {
    seq![
        "The following commands are supported:"@,
        "!quote: shows a random quote, optionally provide a number to show a specific quote"@,
        "!addquote <text>: adds a quote to the database"@,
        "!findquote <text> (alias: !quotesearch): search for a quote containing this text"@,
        "!ping: pong!"@,
    ]
}

/// The lines of the help text, in the order they are sent.
pub fn help_text() -> (r: Vec<String>)
    ensures
        r.deep_view() == help_lines(),
{
    let mut r: Vec<String> = Vec::new();
    r.push(String::from_str("The following commands are supported:"));
    r.push(
        String::from_str(
            "!quote: shows a random quote, optionally provide a number to show a specific quote",
        ),
    );
    r.push(String::from_str("!addquote <text>: adds a quote to the database"));
    r.push(
        String::from_str(
            "!findquote <text> (alias: !quotesearch): search for a quote containing this text",
        ),
    );
    r.push(String::from_str("!ping: pong!"));
    assert(r.deep_view() =~= help_lines());
    r
}

/// A quote as it is shown: `Quote <number>: <text>`.
pub open spec fn quote_line_spec(number: i32, text: Seq<char>) -> Seq<char> {
    "Quote "@ + int_text(number as int) + ": "@ + text
}

/// A quote as it is shown: `Quote <number>: <text>`.
pub fn quote_line(number: i32, text: &str) -> (r: String)
    ensures
        r@ == quote_line_spec(number, text@),
{
    let mut r = String::from_str("Quote ");
    push_int(&mut r, number);
    r.append(": ");
    r.append(text);
    r
}

/// The answer to a quote number outside `1 ..= total`.
pub open spec fn invalid_selection_spec(total: i32) -> Seq<char> {
    "You have not provided a valid selection! Valid selections are from 1 - "@ + int_text(
        total as int,
    ) + "!"@
}

/// The answer to a quote number outside `1 ..= total`.
pub fn invalid_selection(total: i32) -> (r: String)
    ensures
        r@ == invalid_selection_spec(total),
{
    let mut r = String::from_str(
        "You have not provided a valid selection! Valid selections are from 1 - ",
    );
    push_int(&mut r, total);
    r.append("!");
    r
}

/// The answer to `!delquote` with arguments that are no number.
pub open spec fn no_such_quote_spec(args: Seq<char>, total: i32) -> Seq<char> {
    "Quote "@ + args + " doesnt exist! Valid selections are from 1 - "@ + int_text(total as int)
        + "!"@
}

/// The answer to `!delquote` with arguments that are no number.
pub fn no_such_quote(args: &str, total: i32) -> (r: String)
    ensures
        r@ == no_such_quote_spec(args@, total),
{
    let mut r = String::from_str("Quote ");
    r.append(args);
    r.append(" doesnt exist! Valid selections are from 1 - ");
    push_int(&mut r, total);
    r.append("!");
    r
}

/// The answer to a deletion: the number deleted and the new range.
pub open spec fn deleted_spec(number: i32, total: i32) -> Seq<char> {
    "Quote "@ + int_text(number as int) + " deleted! New quote range from 1 - "@ + int_text(
        total as int,
    )
}

/// The answer to a deletion: the number deleted and the new range.
pub fn deleted(number: i32, total: i32) -> (r: String)
    ensures
        r@ == deleted_spec(number, total),
{
    let mut r = String::from_str("Quote ");
    push_int(&mut r, number);
    r.append(" deleted! New quote range from 1 - ");
    push_int(&mut r, total);
    r
}

/// The answer to an added quote: its number.
pub open spec fn added_spec(id: i32) -> Seq<char> {
    "Quote "@ + int_text(id as int) + " added to the database!"@
}

/// The answer to an added quote: its number.
pub fn added(id: i32) -> (r: String)
    ensures
        r@ == added_spec(id),
{
    let mut r = String::from_str("Quote ");
    push_int(&mut r, id);
    r.append(" added to the database!");
    r
}

/// The answer to a search that found nothing.
pub open spec fn nothing_found_spec(args: Seq<char>) -> Seq<char> {
    "No quotes were found containing the text '"@ + args + "'"@
}

/// The answer to a search that found nothing.
pub fn nothing_found(args: &str) -> (r: String)
    ensures
        r@ == nothing_found_spec(args@),
{
    let mut r = String::from_str("No quotes were found containing the text '");
    r.append(args);
    r.append("'");
    r
}

/// The characters that `LIKE` reads as wildcards or as its escape: `%`, `_`
/// and `\`.
pub open spec fn like_special(c: char) -> bool {
    c == '%' || c == '_' || c == '\\'
}

/// `s` with a `\` before each of its `LIKE` special characters, so that a
/// `LIKE` pattern matches its characters literally.
pub open spec fn like_escape(s: Seq<char>) -> Seq<char>
    decreases s.len(),
{
    if s.len() == 0 {
        Seq::empty()
    } else {
        let c = s.last();
        like_escape(s.drop_last()) + if like_special(c) {
            seq!['\\', c]
        } else {
            seq![c]
        }
    }
}

/// The `LIKE` pattern that matches the quotes containing `term`: the escaped
/// term with `%` on both sides.
pub open spec fn like_pattern_spec(term: Seq<char>) -> Seq<char> {
    "%"@ + like_escape(term) + "%"@
}

/// The `LIKE` pattern that matches the quotes containing `term`: the escaped
/// term with `%` on both sides.
pub fn like_pattern(term: &str) -> (r: String)
    ensures
        r@ == like_pattern_spec(term@),
{
    let mut r = String::from_str("%");
    let n = term.unicode_len();
    let mut i: usize = 0;
    while i < n
        invariant
            n == term@.len(),
            i <= n,
            r@ == "%"@ + like_escape(term@.take(i as int)),
        decreases n - i,
    {
        let c = term.get_char(i);
        proof {
            assert(term@.take(i as int + 1).drop_last() =~= term@.take(i as int));
            assert(term@.take(i as int + 1).last() == c);
            reveal_strlit("\\");
        }
        if c == '%' || c == '_' || c == '\\' {
            r.append("\\");
        }
        let one = term.substring_char(i, i + 1);
        assert(one@ =~= seq![c]);
        r.append(one);
        assert(r@ =~= "%"@ + like_escape(term@.take(i as int + 1)));
        i = i + 1;
    }
    assert(term@.take(n as int) =~= term@);
    r.append("%");
    r
}

/// The numbers of the found quotes, each followed by `, `.
pub open spec fn id_list(ids: Seq<i32>) -> Seq<char>
    decreases ids.len(),
{
    if ids.len() == 0 {
        Seq::empty()
    } else {
        id_list(ids.drop_last()) + int_text(ids.last() as int) + ", "@
    }
}

/// The numbers of the found quotes, separated by `, `.
pub open spec fn joined_ids(ids: Seq<i32>) -> Seq<char>
    decreases ids.len(),
{
    if ids.len() == 0 {
        Seq::empty()
    } else if ids.len() == 1 {
        int_text(ids[0] as int)
    } else {
        joined_ids(ids.drop_last()) + ", "@ + int_text(ids.last() as int)
    }
}

/// The numbers of the found quotes, each followed by `, `.
pub fn quote_id_list(ids: &Vec<i32>) -> (r: String)
    ensures
        r@ == id_list(ids@),
{
    let mut r = String::new();
    let mut i: usize = 0;
    while i < ids.len()
        invariant
            i <= ids@.len(),
            r@ == id_list(ids@.take(i as int)),
        decreases ids@.len() - i,
    {
        proof {
            assert(ids@.take(i as int + 1).drop_last() =~= ids@.take(i as int));
            reveal_strlit(", ");
        }
        push_int(&mut r, ids[i]);
        r.append(", ");
        i = i + 1;
    }
    assert(ids@.take(ids@.len() as int) =~= ids@);
    r
}

/// The answer to a search that found quotes: their numbers, separated by `, `.
pub open spec fn found_spec(ids: Seq<i32>) -> Seq<char> {
    "The following quotes were found: "@ + joined_ids(ids)
}

/// Every list of found numbers ends with `, `; dropping those two characters
/// leaves the numbers separated by `, `.
pub proof fn lemma_id_list_joined(ids: Seq<i32>)
    requires
        ids.len() > 0,
    ensures
        id_list(ids).len() >= 2,
        id_list(ids).subrange(0, id_list(ids).len() - 2) == joined_ids(ids),
    decreases ids.len(),
{
    reveal_strlit(", ");
    let l = id_list(ids);
    let last = int_text(ids.last() as int);
    if ids.len() == 1 {
        assert(ids.drop_last() =~= Seq::<i32>::empty());
        assert(id_list(ids.drop_last()) =~= Seq::<char>::empty());
        assert(l.subrange(0, l.len() - 2) =~= last);
    } else {
        lemma_id_list_joined(ids.drop_last());
        let p = id_list(ids.drop_last());
        assert(l.subrange(0, l.len() - 2) =~= p + last);
        assert(p =~= p.subrange(0, p.len() - 2) + ", "@);
        assert(l.subrange(0, l.len() - 2) =~= joined_ids(ids.drop_last()) + ", "@ + last);
    }
}

/// The answer to a search whose result `list` (the numbers, each followed by
/// `, `) is not empty: `The following quotes were found: ` and the list, less
/// its last two characters, so that the numbers stand separated by `, `.
pub fn found(list: &str) -> (r: String)
    ensures
        r@ == ("The following quotes were found: "@ + list@).take(
            ("The following quotes were found: "@ + list@).len() - 2,
        ),
{
    let mut message = String::from_str("The following quotes were found: ");
    message.append(list);
    proof {
        reveal_strlit("The following quotes were found: ");
    }
    let m = message.as_str();
    let n = m.unicode_len();
    String::from_str(m.substring_char(0, n - 2))
}

} // verus!
