use awebot::clock::Timestamp;
use awebot::cmd::{follow_up, Answer, SendTweet, Whois};
use awebot::dispatch::{Action, Context, Handler};
use awebot::models::{Message, WhoisEntry};

fn now() -> Timestamp {
    Timestamp::new(1_500_000_000, 0).unwrap()
}

fn context<'a>(sender: &'a str, respond_to: &'a str, args: &'a [String], msg: &'a str) -> Context<'a> {
    Context { nickname: "bot", sender, respond_to, args, msg, now: now() }
}

fn say(target: &str, text: &str) -> Action {
    Action::Say { target: target.to_owned(), text: text.to_owned() }
}

fn tweeter() -> SendTweet {
    SendTweet::new(Some("ck"), Some("cs"), Some("ak"), Some("as"), Some("awebot")).unwrap()
}

fn publishes(script: &[Action]) -> usize {
    script.iter().filter(|a| matches!(a, Action::Publish { .. })).count()
}

#[test]
fn sendtweet_refuses_a_line_of_300_characters() {
    let mut t = tweeter();
    let long = "x".repeat(300);
    assert!(t.on_each_message(context("alice", "#room", &[], &long)).is_empty());
    let script = t.handle(context("bob", "#room", &[], ""));
    assert_eq!(publishes(&script), 0);
    assert_eq!(
        script,
        vec![say(
            "#room",
            "Sorry, the last message was 300 characters long, and the maximum is 280."
        )]
    );
}

#[test]
fn sendtweet_posts_a_line_of_50_characters() {
    let mut t = tweeter();
    let short = "y".repeat(50);
    assert!(t.on_each_message(context("alice", "#room", &[], &short)).is_empty());
    let script = t.handle(context("bob", "#room", &[], ""));
    assert_eq!(publishes(&script), 1);
    assert_eq!(
        script,
        vec![Action::Publish { text: short.clone() }, say("#room", "Posted tweet as @awebot.")]
    );
}

#[test]
fn sendtweet_counts_characters_and_posts_up_to_280() {
    let mut t = tweeter();
    let edge = "é".repeat(280);
    t.on_each_message(context("alice", "#room", &[], &edge));
    assert_eq!(publishes(&t.handle(context("bob", "#room", &[], ""))), 1);
    let over = "é".repeat(281);
    t.on_each_message(context("alice", "#room", &[], &over));
    assert_eq!(
        t.handle(context("bob", "#room", &[], "")),
        vec![say(
            "#room",
            "Sorry, the last message was 281 characters long, and the maximum is 280."
        )]
    );
}

#[test]
fn sendtweet_remembers_the_last_line_of_each_place() {
    let mut t = tweeter();
    assert!(t.handle(context("bob", "#room", &[], "")).is_empty());
    t.on_each_message(context("alice", "#room", &[], "one"));
    t.on_each_message(context("alice", "#other", &[], "two"));
    t.on_each_message(context("carol", "#room", &[], "three"));
    assert_eq!(t.last_message("#room"), Some("three"));
    assert_eq!(t.last_message("#other"), Some("two"));
    assert_eq!(t.last_message("#nowhere"), None);
    assert!(t.handle(context("bob", "#nowhere", &[], "")).is_empty());
    assert_eq!(
        t.handle(context("bob", "#other", &[], "")),
        vec![Action::Publish { text: "two".to_owned() }, say("#other", "Posted tweet as @awebot.")]
    );
    assert_eq!(t.twitter(), "awebot");
    assert_eq!(t.credentials().consumer_key, "ck");
    assert_eq!(t.credentials().consumer_secret, "cs");
    assert_eq!(t.credentials().access_key, "ak");
    assert_eq!(t.credentials().access_secret, "as");
}

#[test]
fn sendtweet_needs_every_key() {
    assert!(SendTweet::new(None, Some("cs"), Some("ak"), Some("as"), Some("n")).is_none());
    assert!(SendTweet::new(Some("ck"), None, Some("ak"), Some("as"), Some("n")).is_none());
    assert!(SendTweet::new(Some("ck"), Some("cs"), None, Some("as"), Some("n")).is_none());
    assert!(SendTweet::new(Some("ck"), Some("cs"), Some("ak"), None, Some("n")).is_none());
    assert!(SendTweet::new(Some("ck"), Some("cs"), Some("ak"), Some("as"), None).is_none());
    assert!(SendTweet::new(Some("ck"), Some("cs"), Some("ak"), Some("as"), Some("n")).is_some());
}

#[test]
fn whois_reply_tells_the_four_cases_apart() {
    let entry = |nick: &str| {
        Some(WhoisEntry { nickname: nick.to_owned(), description: "a keen gardener".to_owned() })
    };
    assert_eq!(Whois::reply("alice", "alice", &entry("alice")), "alice: you are a keen gardener");
    assert_eq!(Whois::reply("alice", "bob", &entry("bob")), "alice: bob is a keen gardener");
    assert_eq!(
        Whois::reply("alice", "alice", &None),
        "alice: I don't know who you are. Why don't you tell me about yourself with iam?"
    );
    assert_eq!(Whois::reply("alice", "bob", &None), "alice: I don't know who bob is.");
    // the store decides whose entry it is, not the word that was asked for
    assert_eq!(Whois::reply("alice", "Alice", &entry("alice")), "alice: you are a keen gardener");
}

#[test]
fn looked_up_entries_are_reported_where_the_command_was_given() {
    let look = Action::LookUp {
        nickname: "bob".to_owned(),
        sender: "alice".to_owned(),
        respond_to: "#room".to_owned(),
    };
    let found = Answer::Identity(Some(WhoisEntry {
        nickname: "bob".to_owned(),
        description: "the builder".to_owned(),
    }));
    assert_eq!(follow_up(&look, &found), vec![say("#room", "alice: bob is the builder")]);
    assert_eq!(
        follow_up(&look, &Answer::Identity(None)),
        vec![say("#room", "alice: I don't know who bob is.")]
    );
    assert_eq!(follow_up(&look, &Answer::Done), Vec::new());
    assert_eq!(follow_up(&look, &Answer::Mail(Vec::new())), Vec::new());
}

#[test]
fn entries_and_mail_are_written_out() {
    let e = WhoisEntry { nickname: "bob".to_owned(), description: "the builder".to_owned() };
    assert_eq!(e.to_text(), "bob is the builder");
    let m = Message {
        key: 9,
        target: "carol".to_owned(),
        sender: "bob".to_owned(),
        message: "are you there?".to_owned(),
        sent: Timestamp::new(1_500_000_000 - 3 * 86_400, 0).unwrap(),
        private: false,
    };
    assert_eq!(m.to_text_at(now()), "carol: 3 days ago, bob said are you there?");
}
