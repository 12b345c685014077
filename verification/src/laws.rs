//! Properties of the bot that span several functions or steps.
use crate::dialog::{
    query, resume_spec, say, start_spec, valid_selection, OutcomeView, RequestView, ResponseView,
    StageView,
};
use crate::message::{argument_text, command_word, space_index, Command};
use crate::numbers::{int_text, is_digit, lemma_parse_int_text, nat_digits, parse_i32_spec};
use crate::replies::{
    deleted_spec, invalid_selection_spec, like_escape, like_pattern_spec, like_special,
    quote_line_spec,
};
use crate::text::{is_ws, trim, trim_end, trim_start};
use vstd::prelude::*;

verus! {

proof fn lemma_trim_start_done(s: Seq<char>)
    ensures
        trim_start(s).len() == 0 || !is_ws(trim_start(s)[0]),
        trim_start(s).len() <= s.len(),
        trim_start(s).len() > 0 ==> trim_start(s).last() == s.last(),
    decreases s.len(),
{
    if s.len() > 0 && is_ws(s[0]) {
        lemma_trim_start_done(s.drop_first());
    }
}

proof fn lemma_trim_end_keeps_start(s: Seq<char>)
    ensures
        trim_end(s).len() == 0 || !is_ws(trim_end(s).last()),
        trim_end(s).len() <= s.len(),
        trim_end(s).len() > 0 ==> trim_end(s)[0] == s[0],
        trim_end(s) =~= s.take(trim_end(s).len() as int),
    decreases s.len(),
{
    if s.len() > 0 && is_ws(s.last()) {
        lemma_trim_end_keeps_start(s.drop_last());
        assert(s.drop_last().take(trim_end(s).len() as int) =~= s.take(trim_end(s).len() as int));
    } else {
        assert(s.take(s.len() as int) =~= s);
    }
}

proof fn lemma_trim_fixed(s: Seq<char>)
    requires
        s.len() == 0 || (!is_ws(s[0]) && !is_ws(s.last())),
    ensures
        trim(s) == s,
{
    if s.len() > 0 {
        assert(trim_start(s) == s);
        assert(trim_end(s) == s);
    }
}

/// Trimming twice is trimming once: the arguments that the message handler
/// trims come out unchanged from the trim of each command.
pub proof fn law_trim_idempotent(s: Seq<char>)
    ensures
        trim(trim(s)) == trim(s),
{
    let a = trim_start(s);
    lemma_trim_start_done(s);
    lemma_trim_end_keeps_start(a);
    let t = trim_end(a);
    if t.len() > 0 {
        assert(t[0] == a[0]);
    }
    lemma_trim_fixed(t);
}

/// The decimal text of a number has no whitespace at either end.
proof fn lemma_int_text_trimmed(n: i32)
    ensures
        int_text(n as int).len() > 0,
        trim(int_text(n as int)) == int_text(n as int),
{
    let t = int_text(n as int);
    lemma_parse_int_text(n);
    let m: nat = if n < 0 {
        (-n) as nat
    } else {
        n as nat
    };
    let d = nat_digits(m);
    assert(d.len() > 0) by {
        if m >= 10 {
            assert(nat_digits(m) == nat_digits(m / 10).push(
                crate::numbers::digit_char(m % 10),
            ));
        }
    };
    assert(is_digit(d.last())) by {
        if m >= 10 {
            assert(nat_digits(m) == nat_digits(m / 10).push(
                crate::numbers::digit_char(m % 10),
            ));
            assert(d.last() == crate::numbers::digit_char(m % 10));
            assert(crate::numbers::digit_char(m % 10) as nat == 48 + m % 10);
        } else {
            assert(d.last() == crate::numbers::digit_char(m));
            assert(crate::numbers::digit_char(m) as nat == 48 + m);
        }
    };
    assert(t.last() == d.last());
    if n >= 0 {
        assert(is_digit(t[0])) by {
            assert(t == d);
            lemma_first_digit(m);
        };
    }
    lemma_trim_fixed(t);
}

proof fn lemma_first_digit(m: nat)
    ensures
        nat_digits(m).len() > 0,
        is_digit(nat_digits(m)[0]),
    decreases m,
{
    if m >= 10 {
        lemma_first_digit(m / 10);
        assert(nat_digits(m)[0] == nat_digits(m / 10)[0]);
    } else {
        assert(crate::numbers::digit_char(m) as nat == 48 + m);
    }
}

/// `!quote <n>`, where `<n>` is the decimal text of `n`, shows quote `n` when
/// `1 <= n <= total` (the highest quote number), and otherwise names the
/// valid range `1 - total`.
pub proof fn law_quote_by_number(n: i32, total: i32, text: Seq<char>, is_bot_god: bool)
    ensures
        start_spec(Command::Quote, int_text(n as int), is_bot_god) == query(
            RequestView::MaxQuoteId,
            StageView::SpecificTotal { number: n },
        ),
        valid_selection(n, total) ==> resume_spec(
            StageView::SpecificTotal { number: n },
            ResponseView::MaxQuoteId(total),
        ) == query(RequestView::QuoteById(n), StageView::SpecificFetch { number: n }) && resume_spec(
            StageView::SpecificFetch { number: n },
            ResponseView::QuoteText(text),
        ) == say(quote_line_spec(n, text)),
        !valid_selection(n, total) ==> resume_spec(
            StageView::SpecificTotal { number: n },
            ResponseView::MaxQuoteId(total),
        ) == say(invalid_selection_spec(total)),
{
    lemma_int_text_trimmed(n);
    lemma_parse_int_text(n);
}

/// `!delquote <n>` from a member of `BotGod`, where `<n>` is the decimal text
/// of `n`: when `1 <= n <= total` it removes quote `n`, renumbers the quotes,
/// and reports the new highest number; otherwise it names the valid range and
/// changes nothing.
pub proof fn law_delete_by_number(n: i32, total: i32, new_total: i32)
    ensures
        start_spec(Command::DelQuote, int_text(n as int), true) == query(
            RequestView::MaxQuoteId,
            StageView::DeleteTotal { number: n },
        ),
        valid_selection(n, total) ==> resume_spec(
            StageView::DeleteTotal { number: n },
            ResponseView::MaxQuoteId(total),
        ) == query(RequestView::DeleteQuoteById(n), StageView::Delete { number: n })
            && resume_spec(StageView::Delete { number: n }, ResponseView::Done) == query(
            RequestView::RenumberQuotes,
            StageView::Renumber { number: n },
        ) && resume_spec(StageView::Renumber { number: n }, ResponseView::Done) == query(
            RequestView::MaxQuoteId,
            StageView::DeleteFinalTotal { number: n },
        ) && resume_spec(
            StageView::DeleteFinalTotal { number: n },
            ResponseView::MaxQuoteId(new_total),
        ) == say(deleted_spec(n, new_total)),
        !valid_selection(n, total) ==> resume_spec(
            StageView::DeleteTotal { number: n },
            ResponseView::MaxQuoteId(total),
        ) == say(invalid_selection_spec(total)),
{
    lemma_parse_int_text(n);
}

/// The stages that belong to `!delquote`, whose work removes or renumbers
/// quotes.
pub open spec fn deleting_stage(stage: StageView) -> bool {
    ||| stage is DeleteTotal
    ||| stage is Delete
    ||| stage is Renumber
    ||| stage is DeleteFinalTotal
    ||| stage is DeleteMissingTotal
}

/// Whether an outcome removes or renumbers quotes, or continues in a stage
/// that may.
pub open spec fn may_delete(out: OutcomeView) -> bool {
    match out {
        OutcomeView::Query { request, stage } => request is DeleteQuoteById || request
            is RenumberQuotes || deleting_stage(stage),
        OutcomeView::Finish { .. } => false,
    }
}

/// Only a member of `BotGod` can remove quotes: a command of anyone else
/// starts no deleting work, and a command that is not deleting never turns
/// into one, whatever the database answers.
pub proof fn law_only_bot_god_deletes(
    command: Command,
    args: Seq<char>,
    stage: StageView,
    response: ResponseView,
)
    ensures
        may_delete(start_spec(command, args, false)) == false,
        !deleting_stage(stage) && !(stage is RandomTotal) ==> !may_delete(
            resume_spec(stage, response),
        ),
{
}

/// Only a member of `BotGod` can change the status: for anyone else
/// `!setactivity` answers that they lack the permission.
pub proof fn law_only_bot_god_sets_activity(args: Seq<char>)
    ensures
        start_spec(Command::SetActivity, args, false) == say(
            "You do not have permissions to change the activity."@,
        ),
        start_spec(Command::SetActivity, args, true) == (OutcomeView::Finish {
            set_activity: true,
            messages: seq!["Activity changed!"@],
        }),
{
}

/// How many more database requests a command can make from `stage`.
pub open spec fn requests_left(stage: StageView) -> nat {
    match stage {
        StageView::RandomTotal => 1,
        StageView::RandomFetch { .. } => 0,
        StageView::SpecificTotal { .. } => 1,
        StageView::SpecificFetch { .. } => 0,
        StageView::SelectionTotal => 0,
        StageView::Search { .. } => 0,
        StageView::Insert => 1,
        StageView::InsertTotal => 0,
        StageView::DeleteTotal { .. } => 3,
        StageView::Delete { .. } => 2,
        StageView::Renumber { .. } => 1,
        StageView::DeleteFinalTotal { .. } => 0,
        StageView::DeleteMissingTotal { .. } => 0,
    }
}

/// Every command comes to an end: each answer of the database either
/// finishes the command or moves it to a stage with fewer requests left, so
/// no command makes more than four requests.
pub proof fn law_commands_finish(stage: StageView, response: ResponseView)
    ensures
        resume_spec(stage, response) matches OutcomeView::Query { stage: next, .. }
            ==> requests_left(next) < requests_left(stage),
        forall|command: Command, args: Seq<char>, god: bool| #[trigger]
            start_spec(command, args, god) matches OutcomeView::Query { stage: first, .. }
                ==> requests_left(first) <= 3,
{
}

/// A message `<word> <rest>` whose word has no space splits into that word
/// and the trimmed rest; a message without a space is all command word.
pub proof fn law_split_message(word: Seq<char>, rest: Seq<char>)
    requires
        forall|i: int| 0 <= i < word.len() ==> #[trigger] word[i] != ' ',
    ensures
        command_word(word + " "@ + rest) == word,
        argument_text(word + " "@ + rest) == rest,
        command_word(word) == word,
        argument_text(word) == Seq::<char>::empty(),
{
    reveal_strlit(" ");
    let s = word + " "@ + rest;
    lemma_space_index_at(s, word.len() as int);
    assert(s.take(word.len() as int) =~= word);
    assert(s.skip(word.len() as int + 1) =~= rest);
    lemma_space_index_at(word, word.len() as int);
    assert(word.take(word.len() as int) =~= word);
}

proof fn lemma_space_index_at(s: Seq<char>, k: int)
    requires
        0 <= k <= s.len(),
        forall|j: int| 0 <= j < k ==> #[trigger] s[j] != ' ',
        k < s.len() ==> s[k] == ' ',
    ensures
        space_index(s) == k,
    decreases k,
{
    if k > 0 {
        lemma_space_index_at(s.drop_first(), k - 1);
    }
}

proof fn lemma_all_ws_trim_start(a: Seq<char>)
    requires
        forall|i: int| 0 <= i < a.len() ==> is_ws(#[trigger] a[i]),
    ensures
        trim_start(a).len() == 0,
    decreases a.len(),
{
    if a.len() > 0 {
        assert(is_ws(a[0]));
        assert forall|i: int| 0 <= i < a.drop_first().len() implies is_ws(
            #[trigger] a.drop_first()[i],
        ) by {
            assert(a.drop_first()[i] == a[i + 1]);
        }
        lemma_all_ws_trim_start(a.drop_first());
    }
}

/// Text made of whitespace only (the empty text included) trims to nothing.
proof fn lemma_all_ws_trim_empty(a: Seq<char>)
    requires
        forall|i: int| 0 <= i < a.len() ==> is_ws(#[trigger] a[i]),
    ensures
        trim(a).len() == 0,
{
    lemma_all_ws_trim_start(a);
    assert(trim_start(a) =~= Seq::<char>::empty());
}

proof fn lemma_trim_start_offset(a: Seq<char>, k: int) -> (j: int)
    requires
        0 <= k < a.len(),
        !is_ws(a[k]),
    ensures
        0 <= j <= k,
        trim_start(a) == a.skip(j),
    decreases a.len(),
{
    if is_ws(a[0]) {
        assert(a.drop_first()[k - 1] == a[k]);
        let j1 = lemma_trim_start_offset(a.drop_first(), k - 1);
        assert(a.drop_first().skip(j1) =~= a.skip(j1 + 1));
        j1 + 1
    } else {
        assert(a.skip(0) =~= a);
        0
    }
}

proof fn lemma_trim_end_keeps(s: Seq<char>, k: int)
    requires
        0 <= k < s.len(),
        !is_ws(s[k]),
    ensures
        trim_end(s).len() > k,
    decreases s.len(),
{
    if is_ws(s.last()) {
        assert(s.drop_last()[k] == s[k]);
        lemma_trim_end_keeps(s.drop_last(), k);
    }
}

/// Text with a character that is not whitespace does not trim to nothing.
proof fn lemma_non_ws_trim_nonempty(a: Seq<char>, k: int)
    requires
        0 <= k < a.len(),
        !is_ws(a[k]),
    ensures
        trim(a).len() > 0,
{
    let j = lemma_trim_start_offset(a, k);
    let t = a.skip(j);
    assert(t[k - j] == a[k]);
    lemma_trim_end_keeps(t, k - j);
}

/// `!quote` with no argument, or with whitespace only, shows a random quote:
/// it asks for the highest quote number and goes on to draw one.
pub proof fn law_quote_without_argument(args: Seq<char>, is_bot_god: bool)
    requires
        forall|i: int| 0 <= i < args.len() ==> is_ws(#[trigger] args[i]),
    ensures
        start_spec(Command::Quote, args, is_bot_god) == query(
            RequestView::MaxQuoteId,
            StageView::RandomTotal,
        ),
        start_spec(Command::Quote, Seq::<char>::empty(), is_bot_god) == query(
            RequestView::MaxQuoteId,
            StageView::RandomTotal,
        ),
{
    lemma_all_ws_trim_empty(args);
    lemma_all_ws_trim_empty(Seq::<char>::empty());
}

/// `!addquote <text>` with any character other than whitespace in the text
/// stores the whole text, unchanged and whatever its length; a text of
/// whitespace only stores nothing.
pub proof fn law_add_quote_stores_text(args: Seq<char>, k: int, is_bot_god: bool)
    requires
        0 <= k < args.len(),
        !is_ws(args[k]),
    ensures
        start_spec(Command::AddQuote, args, is_bot_god) matches OutcomeView::Query {
            request: RequestView::InsertQuote(stored),
            stage: StageView::Insert,
        } && stored == args && stored.len() == args.len(),
{
    lemma_non_ws_trim_nonempty(args, k);
}

/// `!ping <text>` answers one message: `pong! ` followed by the whole text,
/// unchanged.
pub proof fn law_ping_echoes(args: Seq<char>, is_bot_god: bool)
    ensures
        start_spec(Command::Ping, args, is_bot_god) matches OutcomeView::Finish {
            set_activity: false,
            messages,
        } && messages.len() == 1 && messages[0].len() == args.len() + 6 && messages[0].take(6)
            == "pong! "@ && messages[0].skip(6) == args,
{
    reveal_strlit("pong! ");
    let m = "pong! "@ + args;
    assert(m.take(6) =~= "pong! "@);
    assert(m.skip(6) =~= args);
}

/// A quote is shown as `Quote `, the decimal number (which reads back as that
/// number), `: `, and then the whole quote text, unchanged and whatever its
/// length.
pub proof fn law_quote_line(number: i32, text: Seq<char>)
    ensures
        quote_line_spec(number, text).len() == 8 + (int_text(number as int).len() as int) + text.len(),
        quote_line_spec(number, text).take(6) == "Quote "@,
        parse_i32_spec(
            quote_line_spec(number, text).subrange(6, 6 + (int_text(number as int).len() as int)),
        ) == Some(number),
        quote_line_spec(number, text).subrange(
            6 + (int_text(number as int).len() as int),
            8 + (int_text(number as int).len() as int),
        ) == ": "@,
        quote_line_spec(number, text).skip(8 + (int_text(number as int).len() as int)) == text,
{
    reveal_strlit("Quote ");
    reveal_strlit(": ");
    let d = int_text(number as int);
    let l = quote_line_spec(number, text);
    assert(l.take(6) =~= "Quote "@);
    assert(l.subrange(6, 6 + (d.len() as int)) =~= d);
    assert(l.subrange(6 + (d.len() as int), 8 + (d.len() as int)) =~= ": "@);
    assert(l.skip(8 + (d.len() as int)) =~= text);
    lemma_parse_int_text(number);
}

/// The last step of `!quote` (with or without a number) answers the line of
/// the quote, which ends with the whole text that the database gave.
pub proof fn law_quote_shows_whole_text(number: i32, text: Seq<char>)
    ensures
        resume_spec(StageView::SpecificFetch { number }, ResponseView::QuoteText(text)) == say(
            quote_line_spec(number, text),
        ),
        resume_spec(StageView::RandomFetch { number }, ResponseView::QuoteText(text)) == say(
            quote_line_spec(number, text),
        ),
        quote_line_spec(number, text).skip(
            quote_line_spec(number, text).len() - text.len(),
        ) == text,
{
    law_quote_line(number, text);
}

/// Reads a `LIKE` pattern body back: a `\` followed by one of `%`, `_`, `\`
/// stands for that character; every other character stands for itself.
pub open spec fn like_unescape(p: Seq<char>) -> Seq<char>
    decreases p.len(),
{
    if p.len() == 0 {
        Seq::empty()
    } else if p.len() >= 2 && like_special(p.last()) && p[p.len() - 2] == '\\' {
        like_unescape(p.drop_last().drop_last()).push(p.last())
    } else {
        like_unescape(p.drop_last()).push(p.last())
    }
}

/// Escaping a term for `LIKE` and reading the pattern back gives the term
/// again, character for character; where the term has none of `%`, `_`, `\`
/// the escaping changes nothing.
pub proof fn law_like_escape_round_trip(term: Seq<char>)
    ensures
        like_unescape(like_escape(term)) == term,
        (forall|i: int| 0 <= i < term.len() ==> !like_special(#[trigger] term[i]))
            ==> like_escape(term) == term,
    decreases term.len(),
{
    if term.len() > 0 {
        let rest = term.drop_last();
        let c = term.last();
        law_like_escape_round_trip(rest);
        let e = like_escape(term);
        if like_special(c) {
            assert(e.drop_last().drop_last() =~= like_escape(rest));
            assert(e[e.len() - 2] == '\\');
        } else {
            assert(e.drop_last() =~= like_escape(rest));
        }
        assert(like_unescape(e) =~= term);
        if forall|i: int| 0 <= i < term.len() ==> !like_special(#[trigger] term[i]) {
            assert forall|i: int| 0 <= i < rest.len() implies !like_special(#[trigger] rest[i]) by {
                assert(rest[i] == term[i]);
            }
            assert(like_escape(term) =~= term);
        }
    }
}

/// The search pattern of a term is `%`, the term read back unchanged from its
/// escaped form, and `%`; a term with none of `%`, `_`, `\` stands in it as
/// it is.
pub proof fn law_like_pattern(term: Seq<char>)
    ensures
        like_pattern_spec(term).len() >= 2,
        like_pattern_spec(term)[0] == '%',
        like_pattern_spec(term).last() == '%',
        like_unescape(
            like_pattern_spec(term).subrange(1, like_pattern_spec(term).len() - 1),
        ) == term,
        (forall|i: int| 0 <= i < term.len() ==> !like_special(#[trigger] term[i]))
            ==> like_pattern_spec(term) == "%"@ + term + "%"@,
{
    reveal_strlit("%");
    law_like_escape_round_trip(term);
    let p = like_pattern_spec(term);
    assert(p.subrange(1, p.len() - 1) =~= like_escape(term));
}

/// A search for a term with no whitespace at its ends and none of `%`, `_`,
/// `\` asks the database for the quotes matching `%<term>%`, the term
/// unchanged, and keeps the term to name it in the answer.
pub proof fn law_search_plain_term(args: Seq<char>, is_bot_god: bool)
    requires
        args.len() > 0,
        !is_ws(args[0]),
        !is_ws(args.last()),
        forall|i: int| 0 <= i < args.len() ==> !like_special(#[trigger] args[i]),
    ensures
        start_spec(Command::FindQuote, args, is_bot_god) == query(
            RequestView::QuoteIdsLike("%"@ + args + "%"@),
            StageView::Search { args },
        ),
{
    lemma_trim_fixed(args);
    law_like_pattern(args);
}

} // verus!
