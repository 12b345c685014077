//! What a command does, step by step. Each command either answers at once or
//! asks for database work; the answer to that work is handed back together
//! with the stage the command was in, until the command answers. The caller
//! runs the database work and sends the answers.
use crate::message::{classify_command, command_of, Command};
use crate::numbers::{parse_i32, parse_i32_spec};
use crate::random::random_quote_number;
use crate::replies::{
    added, added_spec, deleted, deleted_spec, found, found_spec, help_lines, help_text,
    invalid_selection, invalid_selection_spec, lemma_id_list_joined, like_pattern,
    like_pattern_spec, no_such_quote, no_such_quote_spec, nothing_found, nothing_found_spec,
    quote_id_list, quote_line, quote_line_spec,
};
use crate::text::{trim, trim_text};
use vstd::prelude::*;
use vstd::string::*;

verus! {

/// Database work that a command asks for.
#[derive(Debug, PartialEq, Eq)]
pub enum Request {
    /// The highest quote number (`SELECT max(id) FROM quotes`).
    MaxQuoteId,
    /// The text of the quote with this number.
    QuoteById(i32),
    /// The numbers of the quotes that match this `LIKE` pattern (with `\` as
    /// its escape character), in the order the database gives them.
    QuoteIdsLike(String),
    /// Store this text as a new quote.
    InsertQuote(String),
    /// Remove the quote with this number.
    DeleteQuoteById(i32),
    /// Renumber the quotes `1 ..` without gaps.
    RenumberQuotes,
}

/// The model of a `Request`.
pub enum RequestView {
    MaxQuoteId,
    QuoteById(i32),
    QuoteIdsLike(Seq<char>),
    InsertQuote(Seq<char>),
    DeleteQuoteById(i32),
    RenumberQuotes,
}

impl View for Request {
    type V = RequestView;

    open spec fn view(&self) -> RequestView {
        match self {
            Request::MaxQuoteId => RequestView::MaxQuoteId,
            Request::QuoteById(n) => RequestView::QuoteById(*n),
            Request::QuoteIdsLike(p) => RequestView::QuoteIdsLike(p@),
            Request::InsertQuote(t) => RequestView::InsertQuote(t@),
            Request::DeleteQuoteById(n) => RequestView::DeleteQuoteById(*n),
            Request::RenumberQuotes => RequestView::RenumberQuotes,
        }
    }
}

/// The answer of the database to a `Request`.
#[derive(Debug, PartialEq, Eq)]
pub enum Response {
    /// The highest quote number.
    MaxQuoteId(i32),
    /// The text of a quote.
    QuoteText(String),
    /// The numbers of the matching quotes.
    QuoteIds(Vec<i32>),
    /// The work was done.
    Done,
}

/// The model of a `Response`.
pub enum ResponseView {
    MaxQuoteId(i32),
    QuoteText(Seq<char>),
    QuoteIds(Seq<i32>),
    Done,
}

impl View for Response {
    type V = ResponseView;

    open spec fn view(&self) -> ResponseView {
        match self {
            Response::MaxQuoteId(n) => ResponseView::MaxQuoteId(*n),
            Response::QuoteText(t) => ResponseView::QuoteText(t@),
            Response::QuoteIds(ids) => ResponseView::QuoteIds(ids@),
            Response::Done => ResponseView::Done,
        }
    }
}

/// Where a command stands while it waits for database work.
#[derive(Debug, PartialEq, Eq)]
pub enum Stage {
    /// `!quote` without a number: waits for the highest number.
    RandomTotal,
    /// `!quote` without a number: waits for the text of the drawn quote.
    RandomFetch { number: i32 },
    /// `!quote <number>`: waits for the highest number to check the number.
    SpecificTotal { number: i32 },
    /// `!quote <number>`: waits for the text of the quote.
    SpecificFetch { number: i32 },
    /// `!quote` with arguments that are no number: waits for the highest
    /// number, to name the valid range.
    SelectionTotal,
    /// A search: waits for the matching numbers; `args` is what was asked.
    Search { args: String },
    /// `!addquote`: waits for the quote to be stored.
    Insert,
    /// `!addquote`: waits for the highest number, the number of the new quote.
    InsertTotal,
    /// `!delquote <number>`: waits for the highest number to check the number.
    DeleteTotal { number: i32 },
    /// `!delquote <number>`: waits for the quote to be removed.
    Delete { number: i32 },
    /// `!delquote <number>`: waits for the quotes to be renumbered.
    Renumber { number: i32 },
    /// `!delquote <number>`: waits for the new highest number.
    DeleteFinalTotal { number: i32 },
    /// `!delquote` with arguments that are no number: waits for the highest
    /// number, to name the valid range.
    DeleteMissingTotal { args: String },
}

/// The model of a `Stage`.
pub enum StageView {
    RandomTotal,
    RandomFetch { number: i32 },
    SpecificTotal { number: i32 },
    SpecificFetch { number: i32 },
    SelectionTotal,
    Search { args: Seq<char> },
    Insert,
    InsertTotal,
    DeleteTotal { number: i32 },
    Delete { number: i32 },
    Renumber { number: i32 },
    DeleteFinalTotal { number: i32 },
    DeleteMissingTotal { args: Seq<char> },
}

impl View for Stage {
    type V = StageView;

    open spec fn view(&self) -> StageView {
        match self {
            Stage::RandomTotal => StageView::RandomTotal,
            Stage::RandomFetch { number } => StageView::RandomFetch { number: *number },
            Stage::SpecificTotal { number } => StageView::SpecificTotal { number: *number },
            Stage::SpecificFetch { number } => StageView::SpecificFetch { number: *number },
            Stage::SelectionTotal => StageView::SelectionTotal,
            Stage::Search { args } => StageView::Search { args: args@ },
            Stage::Insert => StageView::Insert,
            Stage::InsertTotal => StageView::InsertTotal,
            Stage::DeleteTotal { number } => StageView::DeleteTotal { number: *number },
            Stage::Delete { number } => StageView::Delete { number: *number },
            Stage::Renumber { number } => StageView::Renumber { number: *number },
            Stage::DeleteFinalTotal { number } => StageView::DeleteFinalTotal { number: *number },
            Stage::DeleteMissingTotal { args } => StageView::DeleteMissingTotal { args: args@ },
        }
    }
}

/// What a command does next.
#[derive(Debug, PartialEq, Eq)]
pub enum Outcome {
    /// Run `request` and hand its answer back with `stage`.
    Query { request: Request, stage: Stage },
    /// The command is done: show another status first where `set_activity`
    /// holds, then send `messages` in order, stopping at the first that
    /// cannot be sent.
    Finish { set_activity: bool, messages: Vec<String> },
}

/// The model of an `Outcome`.
pub enum OutcomeView {
    Query { request: RequestView, stage: StageView },
    Finish { set_activity: bool, messages: Seq<Seq<char>> },
}

impl View for Outcome {
    type V = OutcomeView;

    open spec fn view(&self) -> OutcomeView {
        match self {
            Outcome::Query { request, stage } => OutcomeView::Query {
                request: request@,
                stage: stage@,
            },
            Outcome::Finish { set_activity, messages } => OutcomeView::Finish {
                set_activity: *set_activity,
                messages: messages.deep_view(),
            },
        }
    }
}

/// Ask for `request`, then continue at `stage`.
pub open spec fn query(request: RequestView, stage: StageView) -> OutcomeView {
    OutcomeView::Query { request, stage }
}

/// Answer with one message.
pub open spec fn say(message: Seq<char>) -> OutcomeView {
    OutcomeView::Finish { set_activity: false, messages: seq![message] }
}

/// Whether the arguments hold nothing but whitespace.
pub open spec fn blank(args: Seq<char>) -> bool {
    trim(args).len() == 0
}

/// What a command does first, given its arguments and whether the author
/// holds the `BotGod` role.
pub open spec fn start_spec(command: Command, args: Seq<char>, is_bot_god: bool) -> OutcomeView {
    match command {
        Command::Help => OutcomeView::Finish { set_activity: false, messages: help_lines() },
        Command::SetActivity => if is_bot_god {
            OutcomeView::Finish { set_activity: true, messages: seq!["Activity changed!"@] }
        } else {
            say("You do not have permissions to change the activity."@)
        },
        Command::Ping => say("pong! "@ + args),
        Command::Quote => if blank(args) {
            query(RequestView::MaxQuoteId, StageView::RandomTotal)
        } else {
            match parse_i32_spec(args) {
                Some(number) => query(RequestView::MaxQuoteId, StageView::SpecificTotal { number }),
                None => query(RequestView::MaxQuoteId, StageView::SelectionTotal),
            }
        },
        Command::FindQuote => if blank(args) {
            say("You didn't provide a search term! Please try again."@)
        } else {
            query(
                RequestView::QuoteIdsLike(like_pattern_spec(trim(args))),
                StageView::Search { args },
            )
        },
        Command::AddQuote => if blank(args) {
            say("You didn't provide a quote! Please provide some text to quote."@)
        } else {
            query(RequestView::InsertQuote(args), StageView::Insert)
        },
        Command::DelQuote => if !is_bot_god {
            say("You are not allowed to delete quotes."@)
        } else {
            match parse_i32_spec(args) {
                Some(number) => query(RequestView::MaxQuoteId, StageView::DeleteTotal { number }),
                None => query(RequestView::MaxQuoteId, StageView::DeleteMissingTotal { args }),
            }
        },
        Command::Other => OutcomeView::Finish { set_activity: false, messages: seq![] },
    }
}

/// Whether `number` names a stored quote when the highest number is `total`.
pub open spec fn valid_selection(number: i32, total: i32) -> bool {
    1 <= number <= total
}

/// Whether `stage` waits for an answer of the kind of `response`.
pub open spec fn expects(stage: StageView, response: ResponseView) -> bool {
    match stage {
        StageView::RandomFetch { .. } | StageView::SpecificFetch { .. } => response is QuoteText,
        StageView::Search { .. } => response is QuoteIds,
        StageView::Insert | StageView::Delete { .. } | StageView::Renumber { .. } => response is Done,
        _ => response is MaxQuoteId,
    }
}

/// What a command does once the database answered, for every stage but
/// `RandomTotal` (whose next step rests on a random draw).
pub open spec fn resume_spec(stage: StageView, response: ResponseView) -> OutcomeView {
    match (stage, response) {
        (StageView::RandomFetch { number }, ResponseView::QuoteText(text)) => say(
            quote_line_spec(number, text),
        ),
        (StageView::SpecificTotal { number }, ResponseView::MaxQuoteId(total)) => if valid_selection(
            number,
            total,
        ) {
            query(RequestView::QuoteById(number), StageView::SpecificFetch { number })
        } else {
            say(invalid_selection_spec(total))
        },
        (StageView::SpecificFetch { number }, ResponseView::QuoteText(text)) => say(
            quote_line_spec(number, text),
        ),
        (StageView::SelectionTotal, ResponseView::MaxQuoteId(total)) => say(
            invalid_selection_spec(total),
        ),
        (StageView::Search { args }, ResponseView::QuoteIds(ids)) => if ids.len() == 0 {
            say(nothing_found_spec(args))
        } else {
            say(found_spec(ids))
        },
        (StageView::Insert, ResponseView::Done) => query(
            RequestView::MaxQuoteId,
            StageView::InsertTotal,
        ),
        (StageView::InsertTotal, ResponseView::MaxQuoteId(total)) => say(added_spec(total)),
        (StageView::DeleteTotal { number }, ResponseView::MaxQuoteId(total)) => if valid_selection(
            number,
            total,
        ) {
            query(RequestView::DeleteQuoteById(number), StageView::Delete { number })
        } else {
            say(invalid_selection_spec(total))
        },
        (StageView::Delete { number }, ResponseView::Done) => query(
            RequestView::RenumberQuotes,
            StageView::Renumber { number },
        ),
        (StageView::Renumber { number }, ResponseView::Done) => query(
            RequestView::MaxQuoteId,
            StageView::DeleteFinalTotal { number },
        ),
        (StageView::DeleteFinalTotal { number }, ResponseView::MaxQuoteId(total)) => say(
            deleted_spec(number, total),
        ),
        (StageView::DeleteMissingTotal { args }, ResponseView::MaxQuoteId(total)) => say(
            no_such_quote_spec(args, total),
        ),
        _ => OutcomeView::Finish { set_activity: false, messages: seq![] },
    }
}

/// Whether a random quote can be drawn when the highest number is `total`:
/// there is at least one quote, and `total + 1` fits in an `i32`.
pub open spec fn can_draw(total: i32) -> bool {
    1 <= total < i32::MAX
}

/// Whether a random quote can be drawn when the highest number is `total`.
pub fn can_draw_quote(total: i32) -> (r: bool)
    ensures
        r == can_draw(total),
{
    1 <= total && total < i32::MAX
}

fn say_one(message: String) -> (r: Outcome)
    ensures
        r@ == say(message@),
{
    let mut messages: Vec<String> = Vec::new();
    messages.push(message);
    assert(messages.deep_view() =~= seq![message@]);
    Outcome::Finish { set_activity: false, messages }
}

/// What `command` does first, given its (trimmed) arguments and whether the
/// author holds the `BotGod` role. `command` is the lowercased command word.
#[allow(non_snake_case)]
pub fn parseCommand(command: &str, args: &str, is_bot_god: bool) -> (r: Outcome)
    ensures
        r@ == start_spec(command_of(command@), args@, is_bot_god),
{
    start(classify_command(command), args, is_bot_god)
}

/// What `command` does first, given its arguments and whether the author
/// holds the `BotGod` role.
pub fn start(command: Command, args: &str, is_bot_god: bool) -> (r: Outcome)
    ensures
        r@ == start_spec(command, args@, is_bot_god),
{
    match command {
        Command::Help => Outcome::Finish { set_activity: false, messages: help_text() },
        Command::SetActivity => {
            if is_bot_god {
                let mut messages: Vec<String> = Vec::new();
                messages.push(String::from_str("Activity changed!"));
                assert(messages.deep_view() =~= seq!["Activity changed!"@]);
                Outcome::Finish { set_activity: true, messages }
            } else {
                say_one(String::from_str("You do not have permissions to change the activity."))
            }
        },
        Command::Ping => {
            let mut m = String::from_str("pong! ");
            m.append(args);
            say_one(m)
        },
        Command::Quote => {
            let trimmed = trim_text(args);
            if trimmed.as_str().is_empty() {
                Outcome::Query { request: Request::MaxQuoteId, stage: Stage::RandomTotal }
            } else {
                match parse_i32(args) {
                    Some(number) => Outcome::Query {
                        request: Request::MaxQuoteId,
                        stage: Stage::SpecificTotal { number },
                    },
                    None => Outcome::Query {
                        request: Request::MaxQuoteId,
                        stage: Stage::SelectionTotal,
                    },
                }
            }
        },
        Command::FindQuote => {
            let trimmed = trim_text(args);
            if trimmed.as_str().is_empty() {
                say_one(String::from_str("You didn't provide a search term! Please try again."))
            } else {
                Outcome::Query {
                    request: Request::QuoteIdsLike(like_pattern(trimmed.as_str())),
                    stage: Stage::Search { args: String::from_str(args) },
                }
            }
        },
        Command::AddQuote => {
            let trimmed = trim_text(args);
            if trimmed.as_str().is_empty() {
                say_one(
                    String::from_str(
                        "You didn't provide a quote! Please provide some text to quote.",
                    ),
                )
            } else {
                Outcome::Query {
                    request: Request::InsertQuote(String::from_str(args)),
                    stage: Stage::Insert,
                }
            }
        },
        Command::DelQuote => {
            if !is_bot_god {
                say_one(String::from_str("You are not allowed to delete quotes."))
            } else {
                match parse_i32(args) {
                    Some(number) => Outcome::Query {
                        request: Request::MaxQuoteId,
                        stage: Stage::DeleteTotal { number },
                    },
                    None => Outcome::Query {
                        request: Request::MaxQuoteId,
                        stage: Stage::DeleteMissingTotal { args: String::from_str(args) },
                    },
                }
            }
        },
        Command::Other => {
            let messages: Vec<String> = Vec::new();
            assert(messages.deep_view() =~= Seq::<Seq<char>>::empty());
            Outcome::Finish { set_activity: false, messages }
        },
    }
}

/// Whether `stage` waits for an answer of the kind of `response`.
pub fn accepts(stage: &Stage, response: &Response) -> (r: bool)
    ensures
        r == expects(stage@, response@),
{
    match stage {
        Stage::RandomFetch { .. } | Stage::SpecificFetch { .. } => match response {
            Response::QuoteText(_) => true,
            _ => false,
        },
        Stage::Search { .. } => match response {
            Response::QuoteIds(_) => true,
            _ => false,
        },
        Stage::Insert | Stage::Delete { .. } | Stage::Renumber { .. } => match response {
            Response::Done => true,
            _ => false,
        },
        _ => match response {
            Response::MaxQuoteId(_) => true,
            _ => false,
        },
    }
}

/// What a command does once the database answered `response` to the work it
/// asked for at `stage`. At `RandomTotal` it draws a quote number in
/// `1 ..= total` and asks for that quote; at every other stage it does what
/// `resume_spec` says.
pub fn resume(stage: Stage, response: Response) -> (r: Outcome)
    requires
        expects(stage@, response@),
        stage is RandomTotal ==> (response matches Response::MaxQuoteId(t) && can_draw(t)),
    ensures
        stage is RandomTotal ==> (response matches Response::MaxQuoteId(total) && r matches Outcome::Query {
            request: Request::QuoteById(n),
            stage: Stage::RandomFetch { number },
        } && n == number && 1 <= n <= total),
        !(stage is RandomTotal) ==> r@ == resume_spec(stage@, response@),
{
    match (stage, response) {
        (Stage::RandomTotal, Response::MaxQuoteId(total)) => {
            let number = random_quote_number(total);
            Outcome::Query { request: Request::QuoteById(number), stage: Stage::RandomFetch { number } }
        },
        (Stage::RandomFetch { number }, Response::QuoteText(text)) => say_one(
            quote_line(number, text.as_str()),
        ),
        (Stage::SpecificTotal { number }, Response::MaxQuoteId(total)) => {
            if 1 <= number && number <= total {
                Outcome::Query {
                    request: Request::QuoteById(number),
                    stage: Stage::SpecificFetch { number },
                }
            } else {
                say_one(invalid_selection(total))
            }
        },
        (Stage::SpecificFetch { number }, Response::QuoteText(text)) => say_one(
            quote_line(number, text.as_str()),
        ),
        (Stage::SelectionTotal, Response::MaxQuoteId(total)) => say_one(invalid_selection(total)),
        (Stage::Search { args }, Response::QuoteIds(ids)) => {
            let list = quote_id_list(&ids);
            if list.as_str().is_empty() {
                proof {
                    if ids@.len() > 0 {
                        lemma_id_list_joined(ids@);
                    }
                }
                say_one(nothing_found(args.as_str()))
            } else {
                proof {
                    if ids@.len() == 0 {
                        assert(list@ =~= Seq::<char>::empty());
                    }
                    lemma_id_list_joined(ids@);
                    let prefix = "The following quotes were found: "@;
                    assert((prefix + list@).take((prefix + list@).len() - 2) =~= prefix
                        + list@.subrange(0, list@.len() - 2));
                }
                say_one(found(list.as_str()))
            }
        },
        (Stage::Insert, Response::Done) => Outcome::Query {
            request: Request::MaxQuoteId,
            stage: Stage::InsertTotal,
        },
        (Stage::InsertTotal, Response::MaxQuoteId(total)) => say_one(added(total)),
        (Stage::DeleteTotal { number }, Response::MaxQuoteId(total)) => {
            if 1 <= number && number <= total {
                Outcome::Query {
                    request: Request::DeleteQuoteById(number),
                    stage: Stage::Delete { number },
                }
            } else {
                say_one(invalid_selection(total))
            }
        },
        (Stage::Delete { number }, Response::Done) => Outcome::Query {
            request: Request::RenumberQuotes,
            stage: Stage::Renumber { number },
        },
        (Stage::Renumber { number }, Response::Done) => Outcome::Query {
            request: Request::MaxQuoteId,
            stage: Stage::DeleteFinalTotal { number },
        },
        (Stage::DeleteFinalTotal { number }, Response::MaxQuoteId(total)) => say_one(
            deleted(number, total),
        ),
        (Stage::DeleteMissingTotal { args }, Response::MaxQuoteId(total)) => say_one(
            no_such_quote(args.as_str(), total),
        ),
        _ => {
            let messages: Vec<String> = Vec::new();
            assert(messages.deep_view() =~= Seq::<Seq<char>>::empty());
            Outcome::Finish { set_activity: false, messages }
        },
    }
}

} // verus!
