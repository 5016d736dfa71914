use awebot::clock::Timestamp;
use awebot::cmd::{
    follow_up, standard_dispatcher, Answer, Command, IAm, Quit, Rehash, SendTweet, Tell, Whoami,
    Whois,
};
use awebot::dispatch::{Action, Dispatcher, Handler, Progress, Step};
use awebot::error::{Error, Failure};
use awebot::models::{Message, NewMessage};

fn at(secs: i64) -> Timestamp {
    Timestamp::new(secs, 0).unwrap()
}

fn say(target: &str, text: &str) -> Action {
    Action::Say { target: target.to_owned(), text: text.to_owned() }
}

fn failure(message: &str) -> Failure {
    Failure { message: message.to_owned(), causes: Vec::new() }
}

/// Performs every script with success and collects them, one per step.
fn run<H: Handler>(d: &mut Dispatcher<H>, first: Step) -> (Vec<Vec<Action>>, Result<(), Error>) {
    let mut scripts = Vec::new();
    let mut step = first;
    loop {
        match step {
            Step::Perform { script, progress } => {
                scripts.push(script);
                step = d.resume(progress, Ok(()));
            }
            Step::Finished { result } => return (scripts, result),
        }
    }
}

fn tweeter() -> SendTweet {
    SendTweet::new(Some("ck"), Some("cs"), Some("ak"), Some("as"), Some("awebot")).unwrap()
}

#[test]
fn quit_command_sends_a_notice_that_names_the_sender() {
    let mut d: Dispatcher<Quit> = Dispatcher::new(',');
    d.register(Quit);
    let step = d.dispatch_at(at(0), "bot", "alice", "#room", ",quit");
    let (scripts, result) = run(&mut d, step);
    assert_eq!(result, Ok(()));
    assert_eq!(scripts.len(), 1);
    assert_eq!(scripts[0].len(), 1);
    match &scripts[0][0] {
        Action::Quit { reason } => {
            assert!(reason.contains("alice"));
            assert_eq!(reason, "Quitting due to command from alice");
        }
        other => panic!("unexpected action {:?}", other),
    }
}

#[test]
fn plain_line_reaches_no_handle() {
    let mut d: Dispatcher<Quit> = Dispatcher::new(',');
    d.register(Quit);
    let step = d.dispatch_at(at(0), "bot", "alice", "#room", "hello");
    let (scripts, result) = run(&mut d, step);
    assert_eq!(result, Ok(()));
    assert_eq!(scripts, vec![Vec::<Action>::new()]);
}

#[test]
fn tell_queues_mail_and_delivers_it_when_the_target_speaks() {
    let mut d: Dispatcher<Tell> = Dispatcher::new('@');
    d.register(Tell);
    let step = d.dispatch_at(at(1000), "bot", "bob", "#room", "@tell carol hi there");
    let (scripts, result) = run(&mut d, step);
    assert_eq!(result, Ok(()));
    assert_eq!(
        scripts,
        vec![vec![
            Action::QueueMail {
                mail: NewMessage {
                    target: "carol".to_owned(),
                    sender: "bob".to_owned(),
                    message: "hi there".to_owned(),
                    sent: at(1000),
                    private: false,
                },
            },
            say("#room", "bob: I'll let them know!"),
        ]]
    );

    let step = d.dispatch_at(at(1010), "bot", "carol", "#room", "anything");
    let (scripts, result) = run(&mut d, step);
    assert_eq!(result, Ok(()));
    let fetch = Action::DeliverMail {
        recipient: "carol".to_owned(),
        respond_to: "#room".to_owned(),
        at: at(1010),
    };
    assert_eq!(scripts, vec![vec![fetch.clone()]]);

    let stored = Message {
        key: 1,
        target: "carol".to_owned(),
        sender: "bob".to_owned(),
        message: "hi there".to_owned(),
        sent: at(1000),
        private: false,
    };
    assert_eq!(
        follow_up(&fetch, &Answer::Mail(vec![stored])),
        vec![
            say("#room", "carol: Moments ago, bob said hi there."),
            Action::ForgetMail { recipient: "carol".to_owned() },
        ]
    );
}

#[test]
fn tell_in_a_private_line_queues_private_mail() {
    let mut d: Dispatcher<Tell> = Dispatcher::new('@');
    d.register(Tell);
    let step = d.dispatch_at(at(5), "bot", "bob", "bob", "@tell carol psst");
    let (scripts, _) = run(&mut d, step);
    match &scripts[0][0] {
        Action::QueueMail { mail } => {
            assert!(mail.private);
            assert_eq!(mail.message, "psst");
        }
        other => panic!("unexpected action {:?}", other),
    }
    assert_eq!(scripts[0][1], say("bob", "bob: I'll let them know!"));
}

#[test]
fn tell_needs_a_target_and_a_message() {
    let mut d: Dispatcher<Tell> = Dispatcher::new('@');
    d.register(Tell);
    let step = d.dispatch_at(at(5), "bot", "bob", "#room", "@tell carol");
    assert_eq!(run(&mut d, step), (vec![Vec::new()], Ok(())));
    let step = d.dispatch_at(at(5), "bot", "bob", "#room", "@tell");
    assert_eq!(run(&mut d, step), (vec![Vec::new()], Ok(())));
}

#[test]
fn tell_answers_at_once_for_the_bot_itself() {
    let mut d: Dispatcher<Tell> = Dispatcher::new('@');
    d.register(Tell);
    let step = d.dispatch_at(at(5), "bot", "bob", "#room", "@tell bot hello you");
    assert_eq!(run(&mut d, step).0, vec![vec![say("#room", "I'm right here!")]]);
}

#[test]
fn private_mail_is_delivered_to_the_recipient_alone() {
    let fetch = Action::DeliverMail {
        recipient: "carol".to_owned(),
        respond_to: "#room".to_owned(),
        at: at(4000),
    };
    let mail = vec![
        Message {
            key: 1,
            target: "carol".to_owned(),
            sender: "bob".to_owned(),
            message: "in private".to_owned(),
            sent: at(4000 - 3600),
            private: true,
        },
        Message {
            key: 2,
            target: "carol".to_owned(),
            sender: "dave".to_owned(),
            message: "in public!".to_owned(),
            sent: at(4000 - 120),
            private: false,
        },
    ];
    assert_eq!(
        follow_up(&fetch, &Answer::Mail(mail)),
        vec![
            say("carol", "carol: An hour ago, bob said in private."),
            say("#room", "carol: 2 minutes ago, dave said in public!"),
            Action::ForgetMail { recipient: "carol".to_owned() },
        ]
    );
    assert_eq!(
        follow_up(&fetch, &Answer::Mail(Vec::new())),
        vec![Action::ForgetMail { recipient: "carol".to_owned() }]
    );
    assert_eq!(follow_up(&fetch, &Answer::Done), Vec::new());
    assert_eq!(follow_up(&fetch, &Answer::Identity(None)), Vec::new());
    assert_eq!(follow_up(&say("a", "b"), &Answer::Mail(Vec::new())), Vec::new());
}

#[test]
fn unknown_command_is_a_no_op() {
    let mut d = standard_dispatcher('@', vec!["alice".to_owned()], Some(tweeter()));
    let step = d.dispatch_at(at(0), "bot", "alice", "#room", "@nosuchthing with args");
    assert_eq!(step, Step::Finished { result: Ok(()) });
    let step = d.dispatch_at(at(0), "bot", "alice", "#room", "@");
    assert_eq!(step, Step::Finished { result: Ok(()) });
    let step = d.dispatch_at(at(0), "bot", "alice", "#room", "@ tell carol hi");
    assert_eq!(step, Step::Finished { result: Ok(()) });
    let step = d.dispatch_at(at(0), "bot", "alice", "#room", "@TELL carol hi");
    assert_eq!(step, Step::Finished { result: Ok(()) });
}

#[test]
fn later_registration_owns_a_shared_alias() {
    let mut d: Dispatcher<Command> = Dispatcher::new('!');
    d.register(Command::Rehash(Rehash::from(Vec::new())));
    d.register(Command::Rehash(Rehash::from(vec!["alice".to_owned()])));
    let step = d.dispatch_at(at(0), "bot", "alice", "#room", "!rehash");
    let (scripts, result) = run(&mut d, step);
    assert_eq!(result, Ok(()));
    assert_eq!(
        scripts,
        vec![vec![Action::Quit { reason: "Quitting due to command from alice".to_owned() }]]
    );

    let mut d: Dispatcher<Command> = Dispatcher::new('!');
    d.register(Command::Rehash(Rehash::from(vec!["alice".to_owned()])));
    d.register(Command::Rehash(Rehash::from(Vec::new())));
    let step = d.dispatch_at(at(0), "bot", "alice", "#room", "!rehash");
    assert_eq!(run(&mut d, step), (vec![Vec::new()], Ok(())));
    assert_eq!(d.len(), 2);
}

#[test]
fn rehash_is_deaf_to_strangers() {
    let mut d: Dispatcher<Rehash> = Dispatcher::new('@');
    d.register(Rehash::from(vec!["alice".to_owned(), "bob".to_owned()]));
    let step = d.dispatch_at(at(0), "bot", "mallory", "#room", "@rehash");
    assert_eq!(run(&mut d, step), (vec![Vec::new()], Ok(())));
    let step = d.dispatch_at(at(0), "bot", "bob", "#room", "@rehash");
    assert_eq!(
        run(&mut d, step).0,
        vec![vec![Action::Quit { reason: "Quitting due to command from bob".to_owned() }]]
    );
}

#[test]
fn arguments_are_split_on_single_spaces() {
    let mut d: Dispatcher<Whois> = Dispatcher::new('@');
    d.register(Whois);
    let step = d.dispatch_at(at(0), "bot", "alice", "#room", "@whois bob  carol ");
    let look = |nick: &str| Action::LookUp {
        nickname: nick.to_owned(),
        sender: "alice".to_owned(),
        respond_to: "#room".to_owned(),
    };
    assert_eq!(run(&mut d, step).0, vec![vec![look("bob"), look("carol")]]);
    let step = d.dispatch_at(at(0), "bot", "alice", "#room", "@whodat bob");
    assert_eq!(run(&mut d, step).0, vec![vec![look("bob")]]);
    let step = d.dispatch_at(at(0), "bot", "alice", "#room", "@whois");
    assert_eq!(
        run(&mut d, step).0,
        vec![vec![say(
            "#room",
            "alice: Who do you want to knouw about? Let me know by writing their nickname after the command!"
        )]]
    );
    let step = d.dispatch_at(at(0), "bot", "alice", "#room", "@whois ");
    assert_eq!(run(&mut d, step).0, vec![Vec::<Action>::new()]);
}

#[test]
fn the_text_of_a_command_is_what_follows_the_command_word() {
    let mut d: Dispatcher<IAm> = Dispatcher::new('@');
    d.register(IAm);
    let step = d.dispatch_at(at(0), "bot", "alice", "#room", "@iam a  keen gardener");
    match &run(&mut d, step).0[0][0] {
        Action::StoreWhois { entry } => {
            assert_eq!(entry.nickname, "alice");
            assert_eq!(entry.description, "a  keen gardener");
        }
        other => panic!("unexpected action {:?}", other),
    }
    let step = d.dispatch_at(at(0), "bot", "alice", "#room", "@iam");
    assert_eq!(
        run(&mut d, step).0,
        vec![vec![say(
            "#room",
            "alice: Who are you? Let me know by writing a description after the command!"
        )]]
    );
}

#[test]
fn every_handler_sees_a_plain_line_in_order() {
    let mut d = standard_dispatcher('@', Vec::new(), Some(tweeter()));
    assert_eq!(d.len(), 6);
    let step = d.dispatch_at(at(7), "bot", "carol", "#room", "good morning");
    let (scripts, result) = run(&mut d, step);
    assert_eq!(result, Ok(()));
    assert_eq!(scripts.len(), 6);
    for (i, script) in scripts.iter().enumerate() {
        if i == 1 {
            assert_eq!(
                script,
                &vec![Action::DeliverMail {
                    recipient: "carol".to_owned(),
                    respond_to: "#room".to_owned(),
                    at: at(7),
                }]
            );
        } else {
            assert!(script.is_empty());
        }
    }
    match d.get_handler("sendtweet") {
        Some(Command::SendTweet(Some(t))) => {
            assert_eq!(t.last_message("#room"), Some("good morning"))
        }
        _ => panic!("sendtweet is not registered"),
    }
}

#[test]
fn a_failed_script_ends_the_line() {
    let mut d = standard_dispatcher('@', Vec::new(), Some(tweeter()));
    let step = d.dispatch_at(at(7), "bot", "carol", "#room", "first");
    let (scripts, _) = run(&mut d, step);
    assert_eq!(scripts.len(), 6);

    let step = d.dispatch_at(at(8), "bot", "carol", "#room", "second");
    let progress = match step {
        Step::Perform { progress, .. } => progress,
        other => panic!("unexpected step {:?}", other),
    };
    // rehash has seen the line; tell is next
    let step = d.resume(progress, Ok(()));
    let progress = match step {
        Step::Perform { script, progress } => {
            assert_eq!(script.len(), 1);
            assert_eq!(progress.next, 2);
            progress
        }
        other => panic!("unexpected step {:?}", other),
    };
    let broken = Error::Ephemeral(failure("the store is gone"));
    let step = d.resume(progress, Err(broken.clone()));
    assert_eq!(step, Step::Finished { result: Err(broken) });
    // the handlers behind tell never saw the second line
    match d.get_handler("sendtweet") {
        Some(Command::SendTweet(Some(t))) => assert_eq!(t.last_message("#room"), Some("first")),
        _ => panic!("sendtweet is not registered"),
    }
}

#[test]
fn resume_never_shows_a_command_to_the_hooks() {
    let mut d = standard_dispatcher('@', Vec::new(), None);
    let progress = Progress {
        next: 0,
        now: at(0),
        nickname: "bot".to_owned(),
        sender: "carol".to_owned(),
        respond_to: "#room".to_owned(),
        line: "@whoami".to_owned(),
    };
    assert_eq!(d.resume(progress, Ok(())), Step::Finished { result: Ok(()) });
    let step = d.dispatch_at(at(0), "bot", "carol", "#room", "@whoami");
    let (scripts, result) = run(&mut d, step);
    assert_eq!(result, Ok(()));
    assert_eq!(
        scripts,
        vec![vec![Action::LookUp {
            nickname: "carol".to_owned(),
            sender: "carol".to_owned(),
            respond_to: "#room".to_owned(),
        }]]
    );
}

#[test]
fn dispatcher_without_handlers_finishes_at_once() {
    let mut d: Dispatcher<Quit> = Dispatcher::new(',');
    assert_eq!(d.len(), 0);
    assert_eq!(d.dispatch_at(at(0), "bot", "a", "#r", "hello"), Step::Finished { result: Ok(()) });
    assert_eq!(d.dispatch_at(at(0), "bot", "a", "#r", ",quit"), Step::Finished { result: Ok(()) });
    assert!(d.get_handler("quit").is_none());
}

#[test]
fn dispatch_reads_the_clock() {
    let mut d: Dispatcher<Tell> = Dispatcher::new('@');
    d.register(Tell);
    let before = std::time::SystemTime::now()
        .duration_since(std::time::UNIX_EPOCH)
        .unwrap()
        .as_secs() as i64;
    let step = d.dispatch("bot", "bob", "#room", "@tell carol hi");
    let after = before + 60;
    match step {
        Step::Perform { script, .. } => match &script[0] {
            Action::QueueMail { mail } => {
                assert!(before <= mail.sent.seconds() && mail.sent.seconds() <= after);
            }
            other => panic!("unexpected action {:?}", other),
        },
        other => panic!("unexpected step {:?}", other),
    }
}

#[test]
fn whoami_is_whois_of_oneself() {
    let mut h = Whoami::from(Whois);
    assert_eq!(h.command(), &["whoami"]);
    assert_eq!(Whois.command(), &["whois", "whodat"]);
    let mut d: Dispatcher<Whoami> = Dispatcher::new('@');
    d.register(h);
    let step = d.dispatch_at(at(0), "bot", "carol", "carol", "@whoami ignored words");
    assert_eq!(
        run(&mut d, step).0,
        vec![vec![Action::LookUp {
            nickname: "carol".to_owned(),
            sender: "carol".to_owned(),
            respond_to: "carol".to_owned(),
        }]]
    );
    h = Whoami::from(Whois);
    assert!(h.command().len() == 1);
}
