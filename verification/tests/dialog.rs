use terrible_quote_bot::dialog::{accepts, parseCommand, resume, start, Outcome, Request, Response, Stage};
use terrible_quote_bot::message::Command;
use terrible_quote_bot::replies::{found, help_text, like_pattern, quote_id_list, quote_line};

fn say(m: &str) -> Outcome {
    Outcome::Finish { set_activity: false, messages: vec![m.to_string()] }
}

fn ask(request: Request, stage: Stage) -> Outcome {
    Outcome::Query { request, stage }
}

#[test]
fn help_lists_commands() {
    let out = parseCommand("!quotehelp", "", false);
    assert_eq!(out, Outcome::Finish { set_activity: false, messages: help_text() });
    assert_eq!(help_text().len(), 5);
    assert_eq!(help_text()[0], "The following commands are supported:");
    assert_eq!(help_text()[4], "!ping: pong!");
    assert_eq!(parseCommand("!helpquote", "x", true), out);
}

#[test]
fn ping_echoes_arguments() {
    assert_eq!(parseCommand("!ping", "hello", false), say("pong! hello"));
    assert_eq!(parseCommand("!ping", "", false), say("pong! "));
}

#[test]
fn set_activity_needs_bot_god() {
    assert_eq!(
        parseCommand("!setactivity", "", true),
        Outcome::Finish { set_activity: true, messages: vec!["Activity changed!".to_string()] }
    );
    assert_eq!(
        parseCommand("!setactivity", "", false),
        say("You do not have permissions to change the activity.")
    );
}

#[test]
fn unknown_command_is_ignored() {
    assert_eq!(
        parseCommand("!getallquotes", "", true),
        Outcome::Finish { set_activity: false, messages: vec![] }
    );
}

#[test]
fn quote_without_number_draws_one() {
    assert_eq!(parseCommand("!quote", "  ", false), ask(Request::MaxQuoteId, Stage::RandomTotal));
    for _ in 0..50 {
        match resume(Stage::RandomTotal, Response::MaxQuoteId(4)) {
            Outcome::Query { request: Request::QuoteById(n), stage: Stage::RandomFetch { number } } => {
                assert_eq!(n, number);
                assert!(1 <= n && n <= 4);
            }
            other => panic!("unexpected {:?}", other),
        }
    }
    assert_eq!(
        resume(Stage::RandomFetch { number: 3 }, Response::QuoteText("hi".to_string())),
        say("Quote 3: hi")
    );
}

#[test]
fn quote_by_number() {
    assert_eq!(
        parseCommand("!quote", "2", false),
        ask(Request::MaxQuoteId, Stage::SpecificTotal { number: 2 })
    );
    assert_eq!(
        resume(Stage::SpecificTotal { number: 2 }, Response::MaxQuoteId(5)),
        ask(Request::QuoteById(2), Stage::SpecificFetch { number: 2 })
    );
    assert_eq!(
        resume(Stage::SpecificFetch { number: 2 }, Response::QuoteText("to be".to_string())),
        say("Quote 2: to be")
    );
}

#[test]
fn quote_number_out_of_range() {
    let message = "You have not provided a valid selection! Valid selections are from 1 - 5!";
    assert_eq!(resume(Stage::SpecificTotal { number: 6 }, Response::MaxQuoteId(5)), say(message));
    assert_eq!(resume(Stage::SpecificTotal { number: 0 }, Response::MaxQuoteId(5)), say(message));
    assert_eq!(resume(Stage::SpecificTotal { number: -3 }, Response::MaxQuoteId(5)), say(message));
    assert_eq!(
        resume(Stage::SpecificTotal { number: 5 }, Response::MaxQuoteId(5)),
        ask(Request::QuoteById(5), Stage::SpecificFetch { number: 5 })
    );
    assert_eq!(
        resume(Stage::SpecificTotal { number: 1 }, Response::MaxQuoteId(5)),
        ask(Request::QuoteById(1), Stage::SpecificFetch { number: 1 })
    );
}

#[test]
fn quote_with_words() {
    assert_eq!(parseCommand("!quote", "five", false), ask(Request::MaxQuoteId, Stage::SelectionTotal));
    assert_eq!(
        resume(Stage::SelectionTotal, Response::MaxQuoteId(12)),
        say("You have not provided a valid selection! Valid selections are from 1 - 12!")
    );
}

#[test]
fn find_quote() {
    assert_eq!(
        parseCommand("!findquote", "", false),
        say("You didn't provide a search term! Please try again.")
    );
    assert_eq!(
        start(Command::FindQuote, " cat ", false),
        ask(
            Request::QuoteIdsLike("%cat%".to_string()),
            Stage::Search { args: " cat ".to_string() }
        )
    );
    assert_eq!(
        parseCommand("!quotesearch", "dog", false),
        ask(Request::QuoteIdsLike("%dog%".to_string()), Stage::Search { args: "dog".to_string() })
    );
    assert_eq!(
        resume(Stage::Search { args: "cat".to_string() }, Response::QuoteIds(vec![])),
        say("No quotes were found containing the text 'cat'")
    );
    assert_eq!(
        resume(Stage::Search { args: "cat".to_string() }, Response::QuoteIds(vec![3, 12, 40])),
        say("The following quotes were found: 3, 12, 40")
    );
    assert_eq!(
        resume(Stage::Search { args: "cat".to_string() }, Response::QuoteIds(vec![7])),
        say("The following quotes were found: 7")
    );
}

#[test]
fn id_list_and_found_message() {
    assert_eq!(quote_id_list(&vec![]), "");
    assert_eq!(quote_id_list(&vec![1, 22]), "1, 22, ");
    assert_eq!(found("1, 22, "), "The following quotes were found: 1, 22");
    assert_eq!(like_pattern("a_b"), "%a\\_b%");
    assert_eq!(like_pattern("100% \\o/"), "%100\\% \\\\o/%");
    assert_eq!(like_pattern(""), "%%");
    assert_eq!(found("7"), "The following quotes were found:");
    assert_eq!(quote_line(-1, ""), "Quote -1: ");
}

#[test]
fn add_quote() {
    assert_eq!(
        parseCommand("!addquote", " \t", false),
        say("You didn't provide a quote! Please provide some text to quote.")
    );
    assert_eq!(
        parseCommand("!addquote", "to be or not", false),
        ask(Request::InsertQuote("to be or not".to_string()), Stage::Insert)
    );
    assert_eq!(resume(Stage::Insert, Response::Done), ask(Request::MaxQuoteId, Stage::InsertTotal));
    assert_eq!(
        resume(Stage::InsertTotal, Response::MaxQuoteId(31)),
        say("Quote 31 added to the database!")
    );
}

#[test]
fn delete_quote_refused() {
    assert_eq!(
        parseCommand("!delquote", "3", false),
        say("You are not allowed to delete quotes.")
    );
}

#[test]
fn delete_quote() {
    assert_eq!(
        parseCommand("!delquote", "3", true),
        ask(Request::MaxQuoteId, Stage::DeleteTotal { number: 3 })
    );
    assert_eq!(
        resume(Stage::DeleteTotal { number: 3 }, Response::MaxQuoteId(10)),
        ask(Request::DeleteQuoteById(3), Stage::Delete { number: 3 })
    );
    assert_eq!(
        resume(Stage::Delete { number: 3 }, Response::Done),
        ask(Request::RenumberQuotes, Stage::Renumber { number: 3 })
    );
    assert_eq!(
        resume(Stage::Renumber { number: 3 }, Response::Done),
        ask(Request::MaxQuoteId, Stage::DeleteFinalTotal { number: 3 })
    );
    assert_eq!(
        resume(Stage::DeleteFinalTotal { number: 3 }, Response::MaxQuoteId(9)),
        say("Quote 3 deleted! New quote range from 1 - 9")
    );
    assert_eq!(
        resume(Stage::DeleteTotal { number: 11 }, Response::MaxQuoteId(10)),
        say("You have not provided a valid selection! Valid selections are from 1 - 10!")
    );
}

#[test]
fn delete_quote_with_words() {
    assert_eq!(
        parseCommand("!delquote", "all", true),
        ask(Request::MaxQuoteId, Stage::DeleteMissingTotal { args: "all".to_string() })
    );
    assert_eq!(
        resume(Stage::DeleteMissingTotal { args: "all".to_string() }, Response::MaxQuoteId(10)),
        say("Quote all doesnt exist! Valid selections are from 1 - 10!")
    );
}

#[test]
fn stages_accept_their_answers() {
    assert!(accepts(&Stage::RandomTotal, &Response::MaxQuoteId(1)));
    assert!(!accepts(&Stage::RandomTotal, &Response::Done));
    assert!(accepts(&Stage::Search { args: String::new() }, &Response::QuoteIds(vec![])));
    assert!(accepts(&Stage::Renumber { number: 1 }, &Response::Done));
    assert!(accepts(&Stage::SpecificFetch { number: 1 }, &Response::QuoteText(String::new())));
    assert!(!accepts(&Stage::Insert, &Response::MaxQuoteId(1)));
}

#[test]
fn search_term_is_matched_literally() {
    assert_eq!(
        parseCommand("!findquote", "50%_off", false),
        ask(
            Request::QuoteIdsLike("%50\\%\\_off%".to_string()),
            Stage::Search { args: "50%_off".to_string() }
        )
    );
}
