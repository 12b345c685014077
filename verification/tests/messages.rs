use terrible_quote_bot::activity::activity_after;
use terrible_quote_bot::activity::{activity, next_activity, ActivityKind, ACTIVITY_COUNT, NO_PREVIOUS_ACTIVITY};
use terrible_quote_bot::message::{
    classify_command, is_bot_god, moderator_role_name, parse_message, same_text, split_command,
    Command,
};
use terrible_quote_bot::random::random_quote_number;

#[test]
fn commands_are_lowercased() {
    assert_eq!(
        parse_message("!QUOTE 5", false),
        Some(("!quote".to_string(), "5".to_string()))
    );
    assert_eq!(
        parse_message("!PiNg  hello there  ", false),
        Some(("!ping".to_string(), "hello there".to_string()))
    );
}

#[test]
fn non_commands_are_ignored() {
    assert_eq!(parse_message("quote 5", false), None);
    assert_eq!(parse_message("", false), None);
    assert_eq!(parse_message("!quote 5", true), None);
    assert_eq!(parse_message(" !quote", false), None);
}

#[test]
fn command_without_arguments() {
    assert_eq!(
        parse_message("!quote", false),
        Some(("!quote".to_string(), "".to_string()))
    );
    assert_eq!(
        parse_message("!quote ", false),
        Some(("!quote".to_string(), "".to_string()))
    );
}

#[test]
fn split_is_at_the_first_space_only() {
    assert_eq!(
        split_command("!addquote a  b "),
        ("!addquote".to_string(), "a  b".to_string())
    );
    assert_eq!(
        split_command("!quote\t5"),
        ("!quote\t5".to_string(), "".to_string())
    );
}

#[test]
fn classify_every_command() {
    assert_eq!(classify_command("!quotehelp"), Command::Help);
    assert_eq!(classify_command("!helpquote"), Command::Help);
    assert_eq!(classify_command("!setactivity"), Command::SetActivity);
    assert_eq!(classify_command("!ping"), Command::Ping);
    assert_eq!(classify_command("!quote"), Command::Quote);
    assert_eq!(classify_command("!findquote"), Command::FindQuote);
    assert_eq!(classify_command("!quotesearch"), Command::FindQuote);
    assert_eq!(classify_command("!addquote"), Command::AddQuote);
    assert_eq!(classify_command("!delquote"), Command::DelQuote);
    assert_eq!(classify_command("!getallquotes"), Command::Other);
    assert_eq!(classify_command("!Quote"), Command::Other);
    assert_eq!(classify_command(""), Command::Other);
}

#[test]
fn same_text_compares_characters() {
    assert!(same_text("abc", "abc"));
    assert!(!same_text("abc", "abd"));
    assert!(!same_text("abc", "ab"));
    assert!(same_text("", ""));
}

#[test]
fn bot_god_needs_role_and_membership() {
    assert_eq!(moderator_role_name(), "BotGod");
    assert!(is_bot_god(Some(7), &vec![1, 7, 9]));
    assert!(!is_bot_god(Some(7), &vec![1, 9]));
    assert!(!is_bot_god(None, &vec![1, 7, 9]));
    assert!(!is_bot_god(Some(7), &vec![]));
}

#[test]
fn activity_table() {
    assert_eq!(activity(0), (ActivityKind::Watching, "you sleep"));
    assert_eq!(activity(6), (ActivityKind::Watching, "the pretty lights"));
    assert_eq!(activity(7), (ActivityKind::Playing, "with your emotions"));
    assert_eq!(activity(10), (ActivityKind::Playing, "HoboGarbageSimulator"));
    assert_eq!(activity(11), (ActivityKind::Listening, "In Your Eyes"));
    assert_eq!(activity(ACTIVITY_COUNT - 1), (ActivityKind::Listening, "the code"));
}

#[test]
fn activity_never_repeats() {
    let mut last = NO_PREVIOUS_ACTIVITY;
    let mut seen = [false; 18];
    for _ in 0..2000 {
        let next = next_activity(last);
        assert!(next < ACTIVITY_COUNT);
        assert_ne!(next, last);
        seen[next] = true;
        last = next;
    }
    assert!(seen.iter().all(|s| *s));
}

#[test]
fn random_quote_number_in_range() {
    assert_eq!(random_quote_number(1), 1);
    let mut seen_high = false;
    for _ in 0..500 {
        let n = random_quote_number(3);
        assert!(1 <= n && n <= 3);
        if n == 3 {
            seen_high = true;
        }
    }
    assert!(seen_high);
}

#[test]
fn activity_after_skips_the_last_status() {
    assert_eq!(activity_after(5, 0), 0);
    assert_eq!(activity_after(5, 4), 4);
    assert_eq!(activity_after(5, 5), 6);
    assert_eq!(activity_after(5, 16), 17);
    assert_eq!(activity_after(0, 0), 1);
    assert_eq!(activity_after(17, 16), 16);
    assert_eq!(activity_after(NO_PREVIOUS_ACTIVITY, 0), 0);
    assert_eq!(activity_after(NO_PREVIOUS_ACTIVITY, 17), 17);
}

#[test]
fn statuses_are_pairwise_distinct() {
    for i in 0..ACTIVITY_COUNT {
        for j in 0..ACTIVITY_COUNT {
            if i != j {
                assert_ne!(activity(i), activity(j));
            }
        }
    }
    let mut last = activity(next_activity(NO_PREVIOUS_ACTIVITY));
    let mut index = next_activity(NO_PREVIOUS_ACTIVITY);
    for _ in 0..200 {
        let next = next_activity(index);
        assert_ne!(activity(next), activity(index));
        last = activity(next);
        index = next;
    }
    assert_eq!(last, activity(index));
}
