//! The commands of the bot.
//!
//! Each command is a [`Handler`]: it answers with the script of what is to
//! be said, stored or posted. Where the script asks the store a question,
//! [`follow_up`] says what follows from the answer.

use vstd::prelude::*;
use vstd::hash_map::StringHashMap;
use vstd::hash_set::StringHashSet;
use crate::clock::{seconds_between, Timestamp};
use crate::dispatch::{names_of, Action, ActionView, Context, ContextView, Dispatcher, Handler};
use crate::models::{delivery_text, views};
use crate::models::{Message, MessageView, NewMessage, NewMessageView};
use crate::models::{NewWhoisEntry, NewWhoisEntryView, WhoisEntry, WhoisEntryView};
use crate::text::{decimal, digits, join, joined, same_text, texts};

verus! {

/// `a` followed by `b`.
fn glue(a: &str, b: &str) -> (out: String)
    ensures
        out@ == a@ + b@,
{
    let mut out: String = a.to_owned();
    out.append(b);
    out
}

/// The empty script.
fn nothing() -> (script: Vec<Action>)
    ensures
        views(script@) == Seq::<ActionView>::empty(),
{
    let script: Vec<Action> = Vec::new();
    script
}

/// The script of one action.
fn only(action: Action) -> (script: Vec<Action>)
    ensures
        views(script@) == seq![action@],
{
    let mut script: Vec<Action> = Vec::new();
    script.push(action);
    script
}

/// The script of two actions.
fn both(first: Action, second: Action) -> (script: Vec<Action>)
    ensures
        views(script@) == seq![first@, second@],
{
    let mut script: Vec<Action> = Vec::new();
    script.push(first);
    script.push(second);
    script
}

/// The parting words of a shutdown that `sender` asked for.
pub open spec fn quit_reason(sender: Seq<char>) -> Seq<char> {
    "Quitting due to command from "@ + sender
}

/// The script that takes the bot off the network on behalf of `sender`.
pub open spec fn quit_script(sender: Seq<char>) -> Seq<ActionView> {
    seq![ActionView::Quit { reason: quit_reason(sender) }]
}

/// `quit`: takes the bot off the network, whoever asks.
#[derive(Clone, Copy, Debug, PartialEq, Eq)]
pub struct Quit;

impl Handler for Quit {
    open spec fn aliases(&self) -> Seq<Seq<char>> {
        seq!["quit"@]
    }

    open spec fn handles(&self, ctx: ContextView, after: &Self, script: Seq<ActionView>) -> bool {
        script == quit_script(ctx.sender)
    }

    open spec fn notices(&self, ctx: ContextView, after: &Self, script: Seq<ActionView>) -> bool {
        script == Seq::<ActionView>::empty()
    }

    fn command(&self) -> (names: &'static [&'static str]) {
        let names: &'static [&'static str] = &["quit"];
        proof {
            reveal_strlit("quit");
        }
        names
    }

    fn handle<'a>(&mut self, context: Context<'a>) -> (script: Vec<Action>) {
        only(Action::Quit { reason: glue("Quitting due to command from ", context.sender) })
    }

    fn on_each_message<'a>(&mut self, context: Context<'a>) -> (script: Vec<Action>) {
        nothing()
    }
}

/// `rehash`: takes the bot off the network, so that whatever watches over it
/// starts it afresh. Only the senders it was made with may ask; it is deaf
/// to everybody else.
pub struct Rehash {
    allowed: StringHashSet,
}

impl Rehash {
    /// The senders that may ask.
    pub closed spec fn allowed(&self) -> Set<Seq<char>> {
        self.allowed@
    }

    /// The script for a command of `sender`.
    pub open spec fn script(&self, sender: Seq<char>) -> Seq<ActionView> {
        if self.allowed().contains(sender) {
            quit_script(sender)
        } else {
            Seq::empty()
        }
    }

    /// The command that listens to the senders in `allowed`.
    pub fn from(allowed: Vec<String>) -> (r: Rehash)
        ensures
            forall|s: Seq<char>| r.allowed().contains(s) <==> texts(allowed@).contains(s),
    {
        let mut set = StringHashSet::new();
        let mut i: usize = 0;
        while i < allowed.len()
            invariant
                i <= allowed.len(),
                forall|s: Seq<char>| set@.contains(s) <==> texts(allowed@).take(i as int).contains(s),
            decreases allowed.len() - i,
        {
            let name: String = allowed[i].clone();
            proof {
                let seen = texts(allowed@).take(i as int);
                let more = texts(allowed@).take(i + 1);
                assert forall|s: Seq<char>| more.contains(s) <==> (seen.contains(s) || s
                    == name@) by {
                    if s == name@ {
                        assert(more[i as int] == s);
                    }
                }
            }
            set.insert(name);
            i = i + 1;
        }
        assert(texts(allowed@).take(allowed@.len() as int) =~= texts(allowed@));
        Rehash { allowed: set }
    }
}

impl Handler for Rehash {
    open spec fn aliases(&self) -> Seq<Seq<char>> {
        seq!["rehash"@]
    }

    open spec fn handles(&self, ctx: ContextView, after: &Self, script: Seq<ActionView>) -> bool {
        *after == *self && script == self.script(ctx.sender)
    }

    open spec fn notices(&self, ctx: ContextView, after: &Self, script: Seq<ActionView>) -> bool {
        *after == *self && script == Seq::<ActionView>::empty()
    }

    fn command(&self) -> (names: &'static [&'static str]) {
        let names: &'static [&'static str] = &["rehash"];
        proof {
            reveal_strlit("rehash");
        }
        names
    }

    fn handle<'a>(&mut self, context: Context<'a>) -> (script: Vec<Action>) {
        if self.allowed.contains(context.sender) {
            only(Action::Quit { reason: glue("Quitting due to command from ", context.sender) })
        } else {
            nothing()
        }
    }

    fn on_each_message<'a>(&mut self, context: Context<'a>) -> (script: Vec<Action>) {
        nothing()
    }
}

/// What `tell` answers to somebody who wants the bot itself told.
pub open spec fn right_here() -> Seq<char> {
    "I'm right here!"@
}

/// What `tell` answers to `sender` once the mail is in the store.
pub open spec fn will_tell(sender: Seq<char>) -> Seq<char> {
    sender + ": I'll let them know!"@
}

/// The script of `tell`.
///
/// With fewer than two arguments nothing happens. Mail for the bot itself
/// is answered at once. Any other mail is put into the store, addressed to
/// the first argument, with the other arguments, joined by single spaces, as
/// its body; it is private if and only if the command came in a private
/// line, one whose answers go to the sender. Then the sender is told so.
pub open spec fn tell_script(ctx: ContextView) -> Seq<ActionView> {
    if ctx.args.len() < 2 {
        Seq::empty()
    } else if ctx.args[0] == ctx.nickname {
        seq![ActionView::Say { target: ctx.respond_to, text: right_here() }]
    } else {
        seq![
            ActionView::QueueMail {
                mail: NewMessageView {
                    target: ctx.args[0],
                    sender: ctx.sender,
                    message: joined(ctx.args.skip(1), " "@),
                    sent: ctx.now,
                    private: ctx.respond_to == ctx.sender,
                },
            },
            ActionView::Say { target: ctx.respond_to, text: will_tell(ctx.sender) },
        ]
    }
}

/// What `tell` does with every other line: it asks for the mail that waits
/// for the one who wrote the line.
pub open spec fn tell_notice(ctx: ContextView) -> Seq<ActionView> {
    seq![
        ActionView::DeliverMail { recipient: ctx.sender, respond_to: ctx.respond_to, at: ctx.now },
    ]
}

/// `tell`: keeps mail for people who are away and hands it over when they
/// speak again.
#[derive(Clone, Copy, Debug, PartialEq, Eq)]
pub struct Tell;

impl Handler for Tell {
    open spec fn aliases(&self) -> Seq<Seq<char>> {
        seq!["tell"@]
    }

    open spec fn handles(&self, ctx: ContextView, after: &Self, script: Seq<ActionView>) -> bool {
        script == tell_script(ctx)
    }

    open spec fn notices(&self, ctx: ContextView, after: &Self, script: Seq<ActionView>) -> bool {
        script == tell_notice(ctx)
    }

    fn command(&self) -> (names: &'static [&'static str]) {
        let names: &'static [&'static str] = &["tell"];
        proof {
            reveal_strlit("tell");
        }
        names
    }

    fn handle<'a>(&mut self, context: Context<'a>) -> (script: Vec<Action>) {
        if context.args.len() < 2 {
            return nothing();
        }
        let target: &str = context.args[0].as_str();
        if same_text(target, context.nickname) {
            return only(
                Action::Say {
                    target: context.respond_to.to_owned(),
                    text: "I'm right here!".to_owned(),
                },
            );
        }
        let body: &[String] = vstd::slice::slice_subrange(context.args, 1, context.args.len());
        assert(texts(body@) =~= context@.args.skip(1));
        let mail = NewMessage {
            target: target.to_owned(),
            sender: context.sender.to_owned(),
            message: join(body, " "),
            sent: context.now,
            private: same_text(context.respond_to, context.sender),
        };
        both(
            Action::QueueMail { mail },
            Action::Say {
                target: context.respond_to.to_owned(),
                text: glue(context.sender, ": I'll let them know!"),
            },
        )
    }

    fn on_each_message<'a>(&mut self, context: Context<'a>) -> (script: Vec<Action>) {
        only(
            Action::DeliverMail {
                recipient: context.sender.to_owned(),
                respond_to: context.respond_to.to_owned(),
                at: context.now,
            },
        )
    }
}

/// What `iam` answers to somebody who gave no description.
pub open spec fn who_are_you(sender: Seq<char>) -> Seq<char> {
    sender + ": Who are you? Let me know by writing a description after the command!"@
}

/// What `iam` answers once the description is in the store.
pub open spec fn got_it(sender: Seq<char>) -> Seq<char> {
    sender + ": Got it!"@
}

/// The script of `iam`.
///
/// Without arguments the sender is asked for a description. With arguments
/// they are joined by single spaces to the description that is stored under
/// the sender's nickname, in place of an earlier one; then the sender is told
/// so.
pub open spec fn iam_script(ctx: ContextView) -> Seq<ActionView> {
    if ctx.args.len() == 0 {
        seq![ActionView::Say { target: ctx.respond_to, text: who_are_you(ctx.sender) }]
    } else {
        seq![
            ActionView::StoreWhois {
                entry: NewWhoisEntryView {
                    nickname: ctx.sender,
                    description: joined(ctx.args, " "@),
                },
            },
            ActionView::Say { target: ctx.respond_to, text: got_it(ctx.sender) },
        ]
    }
}

/// `iam`: lets people say who they are.
#[derive(Clone, Copy, Debug, PartialEq, Eq)]
pub struct IAm;

impl Handler for IAm {
    open spec fn aliases(&self) -> Seq<Seq<char>> {
        seq!["iam"@]
    }

    open spec fn handles(&self, ctx: ContextView, after: &Self, script: Seq<ActionView>) -> bool {
        script == iam_script(ctx)
    }

    open spec fn notices(&self, ctx: ContextView, after: &Self, script: Seq<ActionView>) -> bool {
        script == Seq::<ActionView>::empty()
    }

    fn command(&self) -> (names: &'static [&'static str]) {
        let names: &'static [&'static str] = &["iam"];
        proof {
            reveal_strlit("iam");
        }
        names
    }

    fn handle<'a>(&mut self, context: Context<'a>) -> (script: Vec<Action>) {
        if context.args.len() == 0 {
            return only(
                Action::Say {
                    target: context.respond_to.to_owned(),
                    text: glue(
                        context.sender,
                        ": Who are you? Let me know by writing a description after the command!",
                    ),
                },
            );
        }
        let entry = NewWhoisEntry {
            nickname: context.sender.to_owned(),
            description: join(context.args, " "),
        };
        both(
            Action::StoreWhois { entry },
            Action::Say {
                target: context.respond_to.to_owned(),
                text: glue(context.sender, ": Got it!"),
            },
        )
    }

    fn on_each_message<'a>(&mut self, context: Context<'a>) -> (script: Vec<Action>) {
        nothing()
    }
}

/// What `whois` answers to somebody who named nobody.
pub open spec fn whom(sender: Seq<char>) -> Seq<char> {
    sender
        + ": Who do you want to knouw about? Let me know by writing their nickname after the command!"@
}

/// One question to the store for each argument that is not empty, in the
/// order of the arguments.
pub open spec fn lookups(
    args: Seq<Seq<char>>,
    sender: Seq<char>,
    respond_to: Seq<char>,
) -> Seq<ActionView>
    decreases args.len(),
{
    if args.len() == 0 {
        Seq::empty()
    } else if args.last().len() == 0 {
        lookups(args.drop_last(), sender, respond_to)
    } else {
        lookups(args.drop_last(), sender, respond_to).push(
            ActionView::LookUp { nickname: args.last(), sender, respond_to },
        )
    }
}

/// The script of `whois`: without arguments the sender is asked for a
/// nickname; else every argument that is not empty is looked up.
pub open spec fn whois_script(ctx: ContextView) -> Seq<ActionView> {
    if ctx.args.len() == 0 {
        seq![ActionView::Say { target: ctx.respond_to, text: whom(ctx.sender) }]
    } else {
        lookups(ctx.args, ctx.sender, ctx.respond_to)
    }
}

/// What `sender` is told of `nickname` when the store has answered `found`.
///
/// A known nickname is described, in the second person where it is the
/// sender's own. An unknown one is reported as unknown; where it is the
/// sender's own, the sender is invited to use `iam`.
pub open spec fn whois_reply(
    sender: Seq<char>,
    nickname: Seq<char>,
    found: Option<WhoisEntryView>,
) -> Seq<char> {
    match found {
        Some(entry) => if entry.nickname == sender {
            sender + ": you are "@ + entry.description
        } else {
            sender + ": "@ + entry.nickname + " is "@ + entry.description
        },
        None => if nickname == sender {
            sender
                + ": I don't know who you are. Why don't you tell me about yourself with iam?"@
        } else {
            sender + ": I don't know who "@ + nickname + " is."@
        },
    }
}

/// `whois`, also `whodat`: tells what people have said of themselves.
#[derive(Clone, Copy, Debug, PartialEq, Eq)]
pub struct Whois;

impl Whois {
    /// What `sender` is told of `nickname` when the store has answered
    /// `found`.
    pub fn reply(sender: &str, nickname: &str, found: &Option<WhoisEntry>) -> (out: String)
        ensures
            out@ == whois_reply(
                sender@,
                nickname@,
                match *found {
                    Some(e) => Some(e@),
                    None => None,
                },
            ),
    {
        let mut out: String = sender.to_owned();
        match found {
            Some(entry) => {
                if same_text(entry.nickname.as_str(), sender) {
                    out.append(": you are ");
                    out.append(entry.description.as_str());
                } else {
                    out.append(": ");
                    out.append(entry.nickname.as_str());
                    out.append(" is ");
                    out.append(entry.description.as_str());
                }
            },
            None => {
                if same_text(nickname, sender) {
                    out.append(
                        ": I don't know who you are. Why don't you tell me about yourself with iam?",
                    );
                } else {
                    out.append(": I don't know who ");
                    out.append(nickname);
                    out.append(" is.");
                }
            },
        }
        out
    }
}

impl Handler for Whois {
    open spec fn aliases(&self) -> Seq<Seq<char>> {
        seq!["whois"@, "whodat"@]
    }

    open spec fn handles(&self, ctx: ContextView, after: &Self, script: Seq<ActionView>) -> bool {
        script == whois_script(ctx)
    }

    open spec fn notices(&self, ctx: ContextView, after: &Self, script: Seq<ActionView>) -> bool {
        script == Seq::<ActionView>::empty()
    }

    fn command(&self) -> (names: &'static [&'static str]) {
        let names: &'static [&'static str] = &["whois", "whodat"];
        proof {
            reveal_strlit("whois");
            reveal_strlit("whodat");
        }
        names
    }

    fn handle<'a>(&mut self, context: Context<'a>) -> (script: Vec<Action>) {
        if context.args.len() == 0 {
            return only(
                Action::Say {
                    target: context.respond_to.to_owned(),
                    text: glue(
                        context.sender,
                        ": Who do you want to knouw about? Let me know by writing their nickname after the command!",
                    ),
                },
            );
        }
        let mut script: Vec<Action> = Vec::new();
        let mut i: usize = 0;
        while i < context.args.len()
            invariant
                i <= context.args.len(),
                views(script@) == lookups(
                    texts(context.args@).take(i as int),
                    context.sender@,
                    context.respond_to@,
                ),
            decreases context.args.len() - i,
        {
            let nick: &str = context.args[i].as_str();
            proof {
                let seen = texts(context.args@).take(i as int);
                let more = texts(context.args@).take(i + 1);
                assert(more.drop_last() =~= seen);
            }
            if !nick.is_empty() {
                let action = Action::LookUp {
                    nickname: nick.to_owned(),
                    sender: context.sender.to_owned(),
                    respond_to: context.respond_to.to_owned(),
                };
                script.push(action);
            }
            i = i + 1;
        }
        assert(texts(context.args@).take(context.args@.len() as int) =~= texts(context.args@));
        script
    }

    fn on_each_message<'a>(&mut self, context: Context<'a>) -> (script: Vec<Action>) {
        nothing()
    }
}

/// The script of `whoami`: that of `whois` for the sender's own nickname as
/// the one argument.
pub open spec fn whoami_script(ctx: ContextView) -> Seq<ActionView> {
    whois_script(ContextView { args: seq![ctx.sender], ..ctx })
}

/// `whoami`: `whois` of oneself.
#[derive(Clone, Copy, Debug, PartialEq, Eq)]
pub struct Whoami {
    whois: Whois,
}

impl Whoami {
    /// The command that asks `whois`.
    pub fn from(whois: Whois) -> (r: Whoami)
        ensures
            r.asks() == whois,
    {
        Whoami { whois }
    }

    /// The `whois` that this command asks.
    pub closed spec fn asks(&self) -> Whois {
        self.whois
    }
}

impl Handler for Whoami {
    open spec fn aliases(&self) -> Seq<Seq<char>> {
        seq!["whoami"@]
    }

    open spec fn handles(&self, ctx: ContextView, after: &Self, script: Seq<ActionView>) -> bool {
        script == whoami_script(ctx)
    }

    open spec fn notices(&self, ctx: ContextView, after: &Self, script: Seq<ActionView>) -> bool {
        script == Seq::<ActionView>::empty()
    }

    fn command(&self) -> (names: &'static [&'static str]) {
        let names: &'static [&'static str] = &["whoami"];
        proof {
            reveal_strlit("whoami");
        }
        names
    }

    fn handle<'a>(&mut self, context: Context<'a>) -> (script: Vec<Action>) {
        let mut own: Vec<String> = Vec::new();
        own.push(context.sender.to_owned());
        assert(texts(own@) =~= seq![context.sender@]);
        let derived = Context {
            nickname: context.nickname,
            sender: context.sender,
            respond_to: context.respond_to,
            args: own.as_slice(),
            msg: context.msg,
            now: context.now,
        };
        let mut whois: Whois = self.whois;
        whois.handle(derived)
    }

    fn on_each_message<'a>(&mut self, context: Context<'a>) -> (script: Vec<Action>) {
        nothing()
    }
}

/// The longest text, in characters, that is posted.
pub const TWEET_LIMIT: usize = 280;

/// What `sendtweet` answers when the last line is too long to post.
pub open spec fn too_long(length: nat) -> Seq<char> {
    "Sorry, the last message was "@ + digits(length)
        + " characters long, and the maximum is 280."@
}

/// What `sendtweet` answers when the last line is on its way.
pub open spec fn posted_as(account: Seq<char>) -> Seq<char> {
    "Posted tweet as @"@ + account + "."@
}

/// The keys that the posting service asks for.
#[derive(Clone, Debug, PartialEq, Eq)]
pub struct Credentials {
    pub consumer_key: String,
    pub consumer_secret: String,
    pub access_key: String,
    pub access_secret: String,
}

/// What `Credentials` hold.
pub struct CredentialsView {
    pub consumer_key: Seq<char>,
    pub consumer_secret: Seq<char>,
    pub access_key: Seq<char>,
    pub access_secret: Seq<char>,
}

impl View for Credentials {
    type V = CredentialsView;

    open spec fn view(&self) -> CredentialsView {
        CredentialsView {
            consumer_key: self.consumer_key@,
            consumer_secret: self.consumer_secret@,
            access_key: self.access_key@,
            access_secret: self.access_secret@,
        }
    }
}

/// `sendtweet`: posts the last line that was said where the command is
/// given. It remembers, for each place, the last line that was no command.
pub struct SendTweet {
    credentials: Credentials,
    twitter: String,
    last_message: StringHashMap<String>,
}

impl SendTweet {
    /// The name of the account that is posted to.
    pub closed spec fn account(&self) -> Seq<char> {
        self.twitter@
    }

    /// The keys for the posting service.
    pub closed spec fn keys(&self) -> CredentialsView {
        self.credentials@
    }

    /// The last line seen in each place, by the place's name.
    pub closed spec fn last_seen(&self) -> Map<Seq<char>, Seq<char>> {
        Map::new(
            |place: Seq<char>| self.last_message@.contains_key(place),
            |place: Seq<char>| self.last_message@[place]@,
        )
    }

    /// The script for a command given in `place`.
    ///
    /// Where no line was seen there, nothing happens. A line of more than
    /// 280 characters is not posted, and the place is told why. Any other
    /// line is handed to the posting service, and the place is told so.
    pub open spec fn script(&self, place: Seq<char>) -> Seq<ActionView> {
        if !self.last_seen().contains_key(place) {
            Seq::empty()
        } else if self.last_seen()[place].len() > TWEET_LIMIT {
            seq![ActionView::Say { target: place, text: too_long(self.last_seen()[place].len()) }]
        } else {
            seq![
                ActionView::Publish { text: self.last_seen()[place] },
                ActionView::Say { target: place, text: posted_as(self.account()) },
            ]
        }
    }

    /// The command, if all four keys and the account's name are there. It
    /// has seen no line yet.
    pub fn new(
        consumer_key: Option<&str>,
        consumer_secret: Option<&str>,
        access_key: Option<&str>,
        access_secret: Option<&str>,
        twitter_name: Option<&str>,
    ) -> (r: Option<SendTweet>)
        ensures
            r is Some <==> (consumer_key is Some && consumer_secret is Some && access_key is Some
                && access_secret is Some && twitter_name is Some),
            r matches Some(t) ==> {
                &&& t.account() == twitter_name->0@
                &&& t.keys() == CredentialsView {
                    consumer_key: consumer_key->0@,
                    consumer_secret: consumer_secret->0@,
                    access_key: access_key->0@,
                    access_secret: access_secret->0@,
                }
                &&& t.last_seen() == Map::<Seq<char>, Seq<char>>::empty()
            },
    {
        match (consumer_key, consumer_secret, access_key, access_secret, twitter_name) {
            (Some(ck), Some(cs), Some(ak), Some(asec), Some(name)) => {
                let t = SendTweet {
                    credentials: Credentials {
                        consumer_key: ck.to_owned(),
                        consumer_secret: cs.to_owned(),
                        access_key: ak.to_owned(),
                        access_secret: asec.to_owned(),
                    },
                    twitter: name.to_owned(),
                    last_message: StringHashMap::new(),
                };
                Some(t)
            },
            _ => None,
        }
    }

    /// The keys for the posting service.
    pub fn credentials(&self) -> (c: &Credentials)
        ensures
            c@ == self.keys(),
    {
        &self.credentials
    }

    /// The name of the account that is posted to.
    pub fn twitter(&self) -> (name: &str)
        ensures
            name@ == self.account(),
    {
        self.twitter.as_str()
    }

    /// The last line seen in `place`, if any was.
    pub fn last_message(&self, place: &str) -> (line: Option<&str>)
        ensures
            match line {
                Some(l) => self.last_seen().contains_key(place@) && l@ == self.last_seen()[place@],
                None => !self.last_seen().contains_key(place@),
            },
    {
        match self.last_message.get(place) {
            Some(l) => Some(l.as_str()),
            None => None,
        }
    }
}

impl Handler for SendTweet {
    open spec fn aliases(&self) -> Seq<Seq<char>> {
        seq!["sendtweet"@]
    }

    open spec fn handles(&self, ctx: ContextView, after: &Self, script: Seq<ActionView>) -> bool {
        *after == *self && script == self.script(ctx.respond_to)
    }

    open spec fn notices(&self, ctx: ContextView, after: &Self, script: Seq<ActionView>) -> bool {
        &&& after.account() == self.account()
        &&& after.keys() == self.keys()
        &&& after.last_seen() == self.last_seen().insert(ctx.respond_to, ctx.msg)
        &&& script == Seq::<ActionView>::empty()
    }

    fn command(&self) -> (names: &'static [&'static str]) {
        let names: &'static [&'static str] = &["sendtweet"];
        proof {
            reveal_strlit("sendtweet");
        }
        names
    }

    fn handle<'a>(&mut self, context: Context<'a>) -> (script: Vec<Action>) {
        match self.last_message.get(context.respond_to) {
            None => nothing(),
            Some(message) => {
                let length: usize = message.as_str().unicode_len();
                if length > TWEET_LIMIT {
                    let mut text: String = glue(
                        "Sorry, the last message was ",
                        decimal(length as u64).as_str(),
                    );
                    text.append(" characters long, and the maximum is 280.");
                    only(Action::Say { target: context.respond_to.to_owned(), text })
                } else {
                    let mut text: String = glue("Posted tweet as @", self.twitter.as_str());
                    text.append(".");
                    both(
                        Action::Publish { text: message.clone() },
                        Action::Say { target: context.respond_to.to_owned(), text },
                    )
                }
            },
        }
    }

    fn on_each_message<'a>(&mut self, context: Context<'a>) -> (script: Vec<Action>) {
        self.last_message.insert(context.respond_to.to_owned(), context.msg.to_owned());
        assert(self.last_seen() =~= old(self).last_seen().insert(
            context.respond_to@,
            context.msg@,
        ));
        nothing()
    }
}

/// What the store answers to an action.
#[derive(Clone, Debug, PartialEq, Eq)]
pub enum Answer {
    /// The action is done; there is nothing to tell.
    Done,
    /// The mail that waits for the recipient of `Action::DeliverMail`, in
    /// the order in which the store gives it.
    Mail(Vec<Message>),
    /// The entry of the nickname of `Action::LookUp`, if there is one.
    Identity(Option<WhoisEntry>),
}

/// What an `Answer` holds.
pub enum AnswerView {
    Done,
    Mail(Seq<MessageView>),
    Identity(Option<WhoisEntryView>),
}

impl View for Answer {
    type V = AnswerView;

    open spec fn view(&self) -> AnswerView {
        match self {
            Answer::Done => AnswerView::Done,
            Answer::Mail(mail) => AnswerView::Mail(views(mail@)),
            Answer::Identity(found) => AnswerView::Identity(
                match found {
                    Some(e) => Some(e@),
                    None => None,
                },
            ),
        }
    }
}

/// The line that hands one piece of mail over at `at`: to the recipient
/// alone if the mail is private, else to `respond_to`.
pub open spec fn delivery(
    m: MessageView,
    recipient: Seq<char>,
    respond_to: Seq<char>,
    at: Timestamp,
) -> ActionView {
    ActionView::Say {
        target: if m.private {
            recipient
        } else {
            respond_to
        },
        text: delivery_text(m, seconds_between(at, m.sent)),
    }
}

/// One line for each piece of mail, in the order of the mail.
pub open spec fn deliveries(
    mail: Seq<MessageView>,
    recipient: Seq<char>,
    respond_to: Seq<char>,
    at: Timestamp,
) -> Seq<ActionView> {
    Seq::new(mail.len(), |i: int| delivery(mail[i], recipient, respond_to, at))
}

/// What follows from the store's answer to an action.
///
/// Mail that was fetched is handed over, piece by piece, and then taken out
/// of the store: all that waits for the recipient, also where none was
/// fetched. A who-is entry that was looked up, or its absence, is reported
/// to the place of the command. Nothing follows from any other pair of
/// action and answer.
pub open spec fn follow_up_script(action: ActionView, answer: AnswerView) -> Seq<ActionView> {
    match (action, answer) {
        (ActionView::DeliverMail { recipient, respond_to, at }, AnswerView::Mail(mail)) => {
            deliveries(mail, recipient, respond_to, at).push(ActionView::ForgetMail { recipient })
        },
        (ActionView::LookUp { nickname, sender, respond_to }, AnswerView::Identity(found)) => {
            seq![ActionView::Say { target: respond_to, text: whois_reply(sender, nickname, found) }]
        },
        _ => Seq::empty(),
    }
}

/// The script that follows from the store's answer to `action`.
pub fn follow_up(action: &Action, answer: &Answer) -> (script: Vec<Action>)
    ensures
        views(script@) == follow_up_script(action@, answer@),
{
    match (action, answer) {
        (Action::DeliverMail { recipient, respond_to, at }, Answer::Mail(mail)) => {
            let mut script: Vec<Action> = Vec::new();
            let mut i: usize = 0;
            while i < mail.len()
                invariant
                    i <= mail.len(),
                    views(script@) =~= deliveries(views(mail@), recipient@, respond_to@, *at).take(
                        i as int,
                    ),
                decreases mail.len() - i,
            {
                let m: &Message = &mail[i];
                let target: String = if m.private {
                    recipient.clone()
                } else {
                    respond_to.clone()
                };
                let line = Action::Say { target, text: m.to_text_at(*at) };
                proof {
                    let all = deliveries(views(mail@), recipient@, respond_to@, *at);
                    assert(all.take(i + 1) =~= all.take(i as int).push(all[i as int]));
                }
                script.push(line);
                i = i + 1;
            }
            let last = Action::ForgetMail { recipient: recipient.clone() };
            proof {
                let all = deliveries(views(mail@), recipient@, respond_to@, *at);
                assert(all.take(mail@.len() as int) =~= all);
            }
            script.push(last);
            script
        },
        (Action::LookUp { nickname, sender, respond_to }, Answer::Identity(found)) => {
            only(
                Action::Say {
                    target: respond_to.clone(),
                    text: Whois::reply(sender.as_str(), nickname.as_str(), found),
                },
            )
        },
        _ => nothing(),
    }
}

/// Any one of the commands above, so that one registry can hold them all.
pub enum Command {
    Quit(Quit),
    Rehash(Rehash),
    Tell(Tell),
    IAm(IAm),
    Whois(Whois),
    Whoami(Whoami),
    /// `sendtweet` is there only where the keys are configured.
    SendTweet(Option<SendTweet>),
}

impl Handler for Command {
    open spec fn aliases(&self) -> Seq<Seq<char>> {
        match self {
            Command::Quit(h) => h.aliases(),
            Command::Rehash(h) => h.aliases(),
            Command::Tell(h) => h.aliases(),
            Command::IAm(h) => h.aliases(),
            Command::Whois(h) => h.aliases(),
            Command::Whoami(h) => h.aliases(),
            Command::SendTweet(h) => h.aliases(),
        }
    }

    open spec fn handles(&self, ctx: ContextView, after: &Self, script: Seq<ActionView>) -> bool {
        match (self, after) {
            (Command::Quit(h), Command::Quit(a)) => h.handles(ctx, a, script),
            (Command::Rehash(h), Command::Rehash(a)) => h.handles(ctx, a, script),
            (Command::Tell(h), Command::Tell(a)) => h.handles(ctx, a, script),
            (Command::IAm(h), Command::IAm(a)) => h.handles(ctx, a, script),
            (Command::Whois(h), Command::Whois(a)) => h.handles(ctx, a, script),
            (Command::Whoami(h), Command::Whoami(a)) => h.handles(ctx, a, script),
            (Command::SendTweet(h), Command::SendTweet(a)) => h.handles(ctx, a, script),
            _ => false,
        }
    }

    open spec fn notices(&self, ctx: ContextView, after: &Self, script: Seq<ActionView>) -> bool {
        match (self, after) {
            (Command::Quit(h), Command::Quit(a)) => h.notices(ctx, a, script),
            (Command::Rehash(h), Command::Rehash(a)) => h.notices(ctx, a, script),
            (Command::Tell(h), Command::Tell(a)) => h.notices(ctx, a, script),
            (Command::IAm(h), Command::IAm(a)) => h.notices(ctx, a, script),
            (Command::Whois(h), Command::Whois(a)) => h.notices(ctx, a, script),
            (Command::Whoami(h), Command::Whoami(a)) => h.notices(ctx, a, script),
            (Command::SendTweet(h), Command::SendTweet(a)) => h.notices(ctx, a, script),
            _ => false,
        }
    }

    fn command(&self) -> (names: &'static [&'static str]) {
        match self {
            Command::Quit(h) => h.command(),
            Command::Rehash(h) => h.command(),
            Command::Tell(h) => h.command(),
            Command::IAm(h) => h.command(),
            Command::Whois(h) => h.command(),
            Command::Whoami(h) => h.command(),
            Command::SendTweet(h) => h.command(),
        }
    }

    fn handle<'a>(&mut self, context: Context<'a>) -> (script: Vec<Action>) {
        match self {
            Command::Quit(h) => h.handle(context),
            Command::Rehash(h) => h.handle(context),
            Command::Tell(h) => h.handle(context),
            Command::IAm(h) => h.handle(context),
            Command::Whois(h) => h.handle(context),
            Command::Whoami(h) => h.handle(context),
            Command::SendTweet(h) => h.handle(context),
        }
    }

    fn on_each_message<'a>(&mut self, context: Context<'a>) -> (script: Vec<Action>) {
        match self {
            Command::Quit(h) => h.on_each_message(context),
            Command::Rehash(h) => h.on_each_message(context),
            Command::Tell(h) => h.on_each_message(context),
            Command::IAm(h) => h.on_each_message(context),
            Command::Whois(h) => h.on_each_message(context),
            Command::Whoami(h) => h.on_each_message(context),
            Command::SendTweet(h) => h.on_each_message(context),
        }
    }
}

/// The bot's own registry: `rehash` for `owners`, `tell`, `iam`, `whoami`,
/// `whois` and `sendtweet`, registered in this order, for commands that
/// start with `line_start`.
pub fn standard_dispatcher(line_start: char, owners: Vec<String>, sendtweet: Option<SendTweet>) -> (d:
    Dispatcher<Command>)
    ensures
        d.wf(),
        d.trigger() == line_start,
        d.handlers().len() == 6,
        d.handlers()[0] matches Command::Rehash(r) && (forall|s: Seq<char>|
            r.allowed().contains(s) <==> texts(owners@).contains(s)),
        d.handlers()[1] == Command::Tell(Tell),
        d.handlers()[2] == Command::IAm(IAm),
        d.handlers()[3] matches Command::Whoami(_),
        d.handlers()[4] == Command::Whois(Whois),
        d.handlers()[5] == Command::SendTweet(sendtweet),
{
    let mut d: Dispatcher<Command> = Dispatcher::new(line_start);
    d.register(Command::Rehash(Rehash::from(owners)));
    d.register(Command::Tell(Tell));
    d.register(Command::IAm(IAm));
    d.register(Command::Whoami(Whoami::from(Whois)));
    d.register(Command::Whois(Whois));
    d.register(Command::SendTweet(sendtweet));
    d
}

} // verus!
