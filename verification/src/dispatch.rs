//! Routing of chat lines to command handlers.
//!
//! A line that starts with the trigger character is a command: its first
//! word names a handler, the other words are the arguments. Every other line
//! is shown to each handler in turn, in the order of registration.
//!
//! Handlers do not talk to the network or to the store. They answer with a
//! script of [`Action`]s. The dispatcher hands the script out in a
//! [`Step`]; the caller performs it and reports how that went with
//! [`Dispatcher::resume`], which decides what comes next.

use vstd::prelude::*;
use vstd::hash_map::StringHashMap;
use vstd::slice::slice_subrange;
use crate::clock::{now, Timestamp};
use crate::error::{outcome_view, Error, ErrorView};
use crate::models::{views, NewMessage, NewMessageView, NewWhoisEntry, NewWhoisEntryView};
use crate::text::{first_at, join, joined, split, starts_with_char, texts, tokens};
use crate::text::{lemma_join_tokens, lemma_tokens_free_of_sep};

verus! {

/// One request to the world outside: to the connection, to the store or to
/// the posting service.
#[derive(Clone, Debug, PartialEq, Eq)]
pub enum Action {
    /// Leave the network with `reason` as the parting words.
    Quit { reason: String },
    /// Say `text` to `target`, a channel or a nickname.
    Say { target: String, text: String },
    /// Put a piece of mail into the store.
    QueueMail { mail: NewMessage },
    /// Fetch the mail that waits for `recipient`. What the store answers
    /// decides what is said, and where: see `cmd::follow_up`.
    DeliverMail { recipient: String, respond_to: String, at: Timestamp },
    /// Take all the mail that waits for `recipient` out of the store.
    ForgetMail { recipient: String },
    /// Put a who-is entry into the store, in place of the one of the same
    /// nickname.
    StoreWhois { entry: NewWhoisEntry },
    /// Fetch the who-is entry of `nickname` for `sender`. What the store
    /// answers decides what is said to `respond_to`: see `cmd::follow_up`.
    LookUp { nickname: String, sender: String, respond_to: String },
    /// Hand `text` to the posting service. Nobody waits for the outcome.
    Publish { text: String },
}

/// What an `Action` holds.
pub enum ActionView {
    Quit { reason: Seq<char> },
    Say { target: Seq<char>, text: Seq<char> },
    QueueMail { mail: NewMessageView },
    DeliverMail { recipient: Seq<char>, respond_to: Seq<char>, at: Timestamp },
    ForgetMail { recipient: Seq<char> },
    StoreWhois { entry: NewWhoisEntryView },
    LookUp { nickname: Seq<char>, sender: Seq<char>, respond_to: Seq<char> },
    Publish { text: Seq<char> },
}

impl View for Action {
    type V = ActionView;

    open spec fn view(&self) -> ActionView {
        match self {
            Action::Quit { reason } => ActionView::Quit { reason: reason@ },
            Action::Say { target, text } => ActionView::Say { target: target@, text: text@ },
            Action::QueueMail { mail } => ActionView::QueueMail { mail: mail@ },
            Action::DeliverMail { recipient, respond_to, at } => ActionView::DeliverMail {
                recipient: recipient@,
                respond_to: respond_to@,
                at: *at,
            },
            Action::ForgetMail { recipient } => ActionView::ForgetMail { recipient: recipient@ },
            Action::StoreWhois { entry } => ActionView::StoreWhois { entry: entry@ },
            Action::LookUp { nickname, sender, respond_to } => ActionView::LookUp {
                nickname: nickname@,
                sender: sender@,
                respond_to: respond_to@,
            },
            Action::Publish { text } => ActionView::Publish { text: text@ },
        }
    }
}

/// What a handler is told of the line it is called for. It lives for one
/// call.
#[derive(Clone, Copy, Debug, PartialEq, Eq)]
pub struct Context<'a> {
    /// The bot's own nickname at this moment.
    pub nickname: &'a str,
    /// Who wrote the line.
    pub sender: &'a str,
    /// Where an answer goes: the channel, or the sender for a private line.
    pub respond_to: &'a str,
    /// The words after the command. Empty for a line that is no command.
    pub args: &'a [String],
    /// For a command, what follows the command word and its space; for any
    /// other line, the whole line.
    pub msg: &'a str,
    /// When the line came in.
    pub now: Timestamp,
}

/// What a `Context` holds.
pub struct ContextView {
    pub nickname: Seq<char>,
    pub sender: Seq<char>,
    pub respond_to: Seq<char>,
    pub args: Seq<Seq<char>>,
    pub msg: Seq<char>,
    pub now: Timestamp,
}

impl<'a> View for Context<'a> {
    type V = ContextView;

    open spec fn view(&self) -> ContextView {
        ContextView {
            nickname: self.nickname@,
            sender: self.sender@,
            respond_to: self.respond_to@,
            args: texts(self.args@),
            msg: self.msg@,
            now: self.now,
        }
    }
}

/// The texts of a list of string literals.
pub open spec fn names_of(items: Seq<&'static str>) -> Seq<Seq<char>> {
    Seq::new(items.len(), |i: int| items[i]@)
}

/// A command: it owns some command words, acts when one of them is used,
/// and may look at every other line that goes by.
///
/// What a handler does is stated by two relations, `handles` and `notices`,
/// between the handler before the call, the context, the handler after the
/// call and the script that it answers with.
pub trait Handler: Sized {
    /// The command words that reach this handler. None of them is empty.
    spec fn aliases(&self) -> Seq<Seq<char>>;

    /// Whether `handle`, called with `ctx`, may leave the handler as `after`
    /// and answer `script`.
    spec fn handles(&self, ctx: ContextView, after: &Self, script: Seq<ActionView>) -> bool;

    /// Whether `on_each_message`, called with `ctx`, may leave the handler
    /// as `after` and answer `script`.
    spec fn notices(&self, ctx: ContextView, after: &Self, script: Seq<ActionView>) -> bool;

    /// The command words that reach this handler.
    fn command(&self) -> (names: &'static [&'static str])
        ensures
            names_of(names@) == self.aliases(),
            forall|i: int| 0 <= i < names@.len() ==> (#[trigger] names@[i])@.len() > 0,
    ;

    /// Acts on a command that used one of the handler's words.
    fn handle<'a>(&mut self, context: Context<'a>) -> (script: Vec<Action>)
        ensures
            old(self).handles(context@, final(self), views(script@)),
            final(self).aliases() == old(self).aliases(),
    ;

    /// Looks at a line that is no command.
    fn on_each_message<'a>(&mut self, context: Context<'a>) -> (script: Vec<Action>)
        ensures
            old(self).notices(context@, final(self), views(script@)),
            final(self).aliases() == old(self).aliases(),
    ;
}

/// A handler that may be absent. An absent handler owns no word and does
/// nothing.
impl<T: Handler> Handler for Option<T> {
    open spec fn aliases(&self) -> Seq<Seq<char>> {
        match self {
            Some(h) => h.aliases(),
            None => Seq::empty(),
        }
    }

    open spec fn handles(&self, ctx: ContextView, after: &Self, script: Seq<ActionView>) -> bool {
        match (self, after) {
            (Some(h), Some(a)) => h.handles(ctx, a, script),
            (None, None) => script == Seq::<ActionView>::empty(),
            _ => false,
        }
    }

    open spec fn notices(&self, ctx: ContextView, after: &Self, script: Seq<ActionView>) -> bool {
        match (self, after) {
            (Some(h), Some(a)) => h.notices(ctx, a, script),
            (None, None) => script == Seq::<ActionView>::empty(),
            _ => false,
        }
    }

    fn command(&self) -> (names: &'static [&'static str]) {
        match self {
            Some(h) => h.command(),
            None => {
                let names: &'static [&'static str] = &[];
                names
            },
        }
    }

    fn handle<'a>(&mut self, context: Context<'a>) -> (script: Vec<Action>) {
        match self {
            Some(h) => h.handle(context),
            None => {
                let script: Vec<Action> = Vec::new();
                assert(views(script@) =~= Seq::<ActionView>::empty());
                script
            },
        }
    }

    fn on_each_message<'a>(&mut self, context: Context<'a>) -> (script: Vec<Action>) {
        match self {
            Some(h) => h.on_each_message(context),
            None => {
                let script: Vec<Action> = Vec::new();
                assert(views(script@) =~= Seq::<ActionView>::empty());
                script
            },
        }
    }
}

/// Where the work on one line stands: the line, and the handler that is
/// shown it next.
#[derive(Clone, Debug, PartialEq, Eq)]
pub struct Progress {
    /// The position, in the order of registration, of the handler that is
    /// shown the line next.
    pub next: usize,
    /// When the line came in.
    pub now: Timestamp,
    /// The bot's own nickname.
    pub nickname: String,
    /// Who wrote the line.
    pub sender: String,
    /// Where an answer goes.
    pub respond_to: String,
    /// The line as it came in.
    pub line: String,
}

/// What a `Progress` holds.
pub struct ProgressView {
    pub next: int,
    pub now: Timestamp,
    pub nickname: Seq<char>,
    pub sender: Seq<char>,
    pub respond_to: Seq<char>,
    pub line: Seq<char>,
}

impl View for Progress {
    type V = ProgressView;

    open spec fn view(&self) -> ProgressView {
        ProgressView {
            next: self.next as int,
            now: self.now,
            nickname: self.nickname@,
            sender: self.sender@,
            respond_to: self.respond_to@,
            line: self.line@,
        }
    }
}

/// What the dispatcher wants done next for a line.
#[derive(Debug, PartialEq, Eq)]
pub enum Step {
    /// Perform `script` in order, stop at the first action that fails, and
    /// report the outcome together with `progress` to `Dispatcher::resume`.
    Perform { script: Vec<Action>, progress: Progress },
    /// The line is dealt with, and this is how it went.
    Finished { result: Result<(), Error> },
}

/// What a `Step` holds.
pub enum StepView {
    Perform { script: Seq<ActionView>, progress: ProgressView },
    Finished { result: Result<(), ErrorView> },
}

impl View for Step {
    type V = StepView;

    open spec fn view(&self) -> StepView {
        match self {
            Step::Perform { script, progress } => StepView::Perform {
                script: views(script@),
                progress: progress@,
            },
            Step::Finished { result } => StepView::Finished { result: outcome_view(*result) },
        }
    }
}

/// Whether `line` is a command: whether it starts with the trigger.
pub open spec fn is_command(trigger: char, line: Seq<char>) -> bool {
    line.len() > 0 && line[0] == trigger
}

/// The command word of a command line: what stands between the trigger and
/// the first space, or the end of the line.
pub open spec fn command_name(line: Seq<char>) -> Seq<char> {
    tokens(line.skip(1), ' ')[0]
}

/// The arguments of a command line: what follows the command word, cut at
/// every single space.
pub open spec fn command_args(line: Seq<char>) -> Seq<Seq<char>> {
    tokens(line.skip(1), ' ').skip(1)
}

/// The text of a command line: what follows the command word and its space.
/// Empty when no space follows the command word.
pub open spec fn command_text(line: Seq<char>) -> Seq<char> {
    match first_at(line.skip(1), ' ') {
        Some(i) => line.skip(1).skip(i + 1),
        None => Seq::empty(),
    }
}

/// The context that a handler sees of a line that is no command: no
/// arguments, and the whole line as the text.
pub open spec fn hook_context(p: ProgressView) -> ContextView {
    ContextView {
        nickname: p.nickname,
        sender: p.sender,
        respond_to: p.respond_to,
        args: Seq::empty(),
        msg: p.line,
        now: p.now,
    }
}

/// The context that the owner of a command sees.
pub open spec fn command_context(p: ProgressView) -> ContextView {
    ContextView {
        nickname: p.nickname,
        sender: p.sender,
        respond_to: p.respond_to,
        args: command_args(p.line),
        msg: command_text(p.line),
        now: p.now,
    }
}

/// The handler that owns `alias` among `handlers`: the last registered of
/// those that declare it.
pub open spec fn owner_in<H: Handler>(handlers: Seq<H>, alias: Seq<char>) -> Option<int>
    decreases handlers.len(),
{
    if handlers.len() == 0 {
        None
    } else if handlers.last().aliases().contains(alias) {
        Some(handlers.len() - 1)
    } else {
        owner_in(handlers.drop_last(), alias)
    }
}

/// The owner of an alias is a registered handler that declares it, and no
/// handler registered later does.
pub proof fn lemma_owner_in<H: Handler>(handlers: Seq<H>, alias: Seq<char>)
    ensures
        match owner_in(handlers, alias) {
            Some(k) => 0 <= k < handlers.len() && handlers[k].aliases().contains(alias)
                && forall|j: int|
                k < j < handlers.len() ==> !(#[trigger] handlers[j]).aliases().contains(alias),
            None => forall|j: int|
                0 <= j < handlers.len() ==> !(#[trigger] handlers[j]).aliases().contains(alias),
        },
    decreases handlers.len(),
{
    if handlers.len() > 0 && !handlers.last().aliases().contains(alias) {
        let init = handlers.drop_last();
        lemma_owner_in(init, alias);
        match owner_in(init, alias) {
            Some(k) => {
                assert forall|j: int| k < j < handlers.len() implies !(
                #[trigger] handlers[j]).aliases().contains(alias) by {
                    if j < init.len() {
                        assert(init[j] == handlers[j]);
                    }
                }
            },
            None => {
                assert forall|j: int| 0 <= j < handlers.len() implies !(
                #[trigger] handlers[j]).aliases().contains(alias) by {
                    if j < init.len() {
                        assert(init[j] == handlers[j]);
                    }
                }
            },
        }
    }
}

/// Who owns an alias depends on nothing but the aliases of the handlers.
pub proof fn lemma_owner_by_aliases<H: Handler>(a: Seq<H>, b: Seq<H>, alias: Seq<char>)
    requires
        a.len() == b.len(),
        forall|j: int| 0 <= j < a.len() ==> (#[trigger] a[j]).aliases() == b[j].aliases(),
    ensures
        owner_in(a, alias) == owner_in(b, alias),
    decreases a.len(),
{
    if a.len() > 0 {
        assert(a.last().aliases() == b.last().aliases());
        if !a.last().aliases().contains(alias) {
            let x = a.drop_last();
            let y = b.drop_last();
            assert forall|j: int| 0 <= j < x.len() implies (#[trigger] x[j]).aliases()
                == y[j].aliases() by {}
            lemma_owner_by_aliases(x, y, alias);
        }
    }
}

/// Whether no handler declares the empty word.
pub open spec fn all_named<H: Handler>(handlers: Seq<H>) -> bool {
    forall|j: int, alias: Seq<char>|
        0 <= j < handlers.len() && #[trigger] handlers[j].aliases().contains(alias) ==> alias.len()
            > 0
}

/// Whether `index` leads `alias` to its owner among `handlers`, and knows
/// nothing of it where nobody owns it.
pub open spec fn leads<H: Handler>(
    index: Map<Seq<char>, usize>,
    handlers: Seq<H>,
    alias: Seq<char>,
) -> bool {
    match owner_in(handlers, alias) {
        Some(k) => index.contains_key(alias) && index[alias] as int == k,
        None => !index.contains_key(alias),
    }
}

/// The registry of handlers and the index from command words to them.
pub struct Dispatcher<H: Handler> {
    line_start: char,
    handlers: Vec<H>,
    cmd_map: StringHashMap<usize>,
}

impl<H: Handler> Dispatcher<H> {
    /// The character that marks a line as a command.
    pub closed spec fn trigger(&self) -> char {
        self.line_start
    }

    /// The registered handlers, in the order of registration.
    pub closed spec fn handlers(&self) -> Seq<H> {
        self.handlers@
    }

    /// The handler that owns `alias`, by its position: the last registered
    /// of those that declare it.
    pub open spec fn owner(&self, alias: Seq<char>) -> Option<int> {
        owner_in(self.handlers(), alias)
    }

    /// The index agrees with the registry: it knows exactly the declared
    /// words, and leads each to its owner.
    pub closed spec fn wf(&self) -> bool {
        &&& forall|alias: Seq<char>| #[trigger] leads(self.cmd_map@, self.handlers@, alias)
        &&& all_named(self.handlers@)
    }

    /// In a registry that is well formed no handler declares the empty
    /// word.
    pub proof fn lemma_wf_named(&self)
        requires
            self.wf(),
        ensures
            all_named(self.handlers()),
    {
    }

    /// Nothing has changed but, possibly, the handler at `k`.
    pub open spec fn same_but(&self, k: int, after: &Self) -> bool {
        &&& after.trigger() == self.trigger()
        &&& after.handlers().len() == self.handlers().len()
        &&& forall|j: int|
            0 <= j < self.handlers().len() && j != k ==> #[trigger] after.handlers()[j]
                == self.handlers()[j]
    }

    /// Nothing has changed.
    pub open spec fn same(&self, after: &Self) -> bool {
        &&& after.trigger() == self.trigger()
        &&& after.handlers() == self.handlers()
    }

    /// `step` shows the line of `p` to the handler at `k`, which leaves the
    /// registry as `after`; the following step is due at `k + 1`.
    pub open spec fn notified(&self, k: int, p: ProgressView, after: &Self, step: StepView) -> bool {
        &&& 0 <= k < self.handlers().len()
        &&& self.same_but(k, after)
        &&& step matches StepView::Perform { script, progress }
        &&& self.handlers()[k].notices(hook_context(p), &after.handlers()[k], script)
        &&& progress == ProgressView { next: k + 1, ..p }
    }

    /// `step` lets the handler at `k` act on the command of `p`, which
    /// leaves the registry as `after`; no other handler is due after it.
    pub open spec fn commanded(&self, k: int, p: ProgressView, after: &Self, step: StepView) -> bool {
        &&& 0 <= k < self.handlers().len()
        &&& self.same_but(k, after)
        &&& step matches StepView::Perform { script, progress }
        &&& self.handlers()[k].handles(command_context(p), &after.handlers()[k], script)
        &&& progress == ProgressView { next: self.handlers().len() as int, ..p }
    }

    /// What `dispatch` does with the line of `p`.
    ///
    /// A line that is no command goes to the first handler's
    /// `on_each_message`, or is finished at once where no handler is
    /// registered. A command goes to the `handle` of the owner of its
    /// command word and to nobody else; where nobody owns the word, nothing
    /// happens and the line is finished with success.
    pub open spec fn dispatched(&self, p: ProgressView, after: &Self, step: StepView) -> bool {
        if !is_command(self.trigger(), p.line) {
            if self.handlers().len() == 0 {
                self.same(after) && step == (StepView::Finished { result: Ok(()) })
            } else {
                self.notified(0, p, after, step)
            }
        } else {
            match self.owner(command_name(p.line)) {
                Some(k) => self.commanded(k, p, after, step),
                None => self.same(after) && step == (StepView::Finished { result: Ok(()) }),
            }
        }
    }

    /// What `resume` does when the script of the last step ended with
    /// `outcome`.
    ///
    /// A failure ends the work on the line: no further handler is called,
    /// and the failure is the line's result. After a success the line goes
    /// to the next handler's `on_each_message`, unless the line is a command
    /// or every handler has seen it: then it is finished with success.
    pub open spec fn resumed(
        &self,
        p: ProgressView,
        outcome: Result<(), ErrorView>,
        after: &Self,
        step: StepView,
    ) -> bool {
        match outcome {
            Err(e) => self.same(after) && step == (StepView::Finished { result: Err(e) }),
            Ok(()) => if is_command(self.trigger(), p.line) || p.next >= self.handlers().len() {
                self.same(after) && step == (StepView::Finished { result: Ok(()) })
            } else {
                self.notified(p.next, p, after, step)
            },
        }
    }

    /// A dispatcher without handlers, for commands that start with
    /// `line_start`.
    pub fn new(line_start: char) -> (d: Dispatcher<H>)
        ensures
            d.wf(),
            d.trigger() == line_start,
            d.handlers() == Seq::<H>::empty(),
    {
        Dispatcher { line_start, handlers: Vec::new(), cmd_map: StringHashMap::new() }
    }

    /// How many handlers are registered.
    pub fn len(&self) -> (n: usize)
        ensures
            n == self.handlers().len(),
    {
        self.handlers.len()
    }

    /// Registers `handler` behind the handlers that are there. Each word it
    /// declares leads to it from now on, also where an earlier handler
    /// declared the word too.
    pub fn register(&mut self, handler: H)
        requires
            old(self).wf(),
        ensures
            final(self).wf(),
            final(self).trigger() == old(self).trigger(),
            final(self).handlers() == old(self).handlers().push(handler),
    {
        let names: &'static [&'static str] = handler.command();
        let at: usize = self.handlers.len();
        let ghost before = self.handlers@;
        let ghost index = self.cmd_map@;
        let mut i: usize = 0;
        while i < names.len()
            invariant
                i <= names.len(),
                at == before.len(),
                self.handlers@ == before,
                self.line_start == old(self).line_start,
                names_of(names@) == handler.aliases(),
                forall|alias: Seq<char>|
                    #![trigger self.cmd_map@.contains_key(alias)]
                    #![trigger self.cmd_map@[alias]]
                    if names_of(names@).take(i as int).contains(alias) {
                        self.cmd_map@.contains_key(alias) && self.cmd_map@[alias] == at
                    } else {
                        self.cmd_map@.contains_key(alias) == index.contains_key(alias) && (
                        index.contains_key(alias) ==> self.cmd_map@[alias] == index[alias])
                    },
            decreases names.len() - i,
        {
            let name: String = names[i].to_owned();
            proof {
                let seen = names_of(names@).take(i as int);
                let more = names_of(names@).take(i + 1);
                assert forall|alias: Seq<char>| more.contains(alias) <==> (seen.contains(alias)
                    || alias == name@) by {
                    if alias == name@ {
                        assert(more[i as int] == alias);
                    }
                }
            }
            self.cmd_map.insert(name, at);
            i = i + 1;
        }
        self.handlers.push(handler);
        proof {
            let after = self.handlers@;
            assert(names_of(names@).take(names@.len() as int) =~= handler.aliases());
            assert(after.drop_last() =~= before);
            assert forall|alias: Seq<char>| #[trigger] leads(self.cmd_map@, after, alias) by {
                assert(leads(index, before, alias));
            }
            assert forall|j: int, alias: Seq<char>|
                0 <= j < after.len() && #[trigger] after[j].aliases().contains(
                    alias,
                ) implies alias.len() > 0 by {
                if j >= before.len() {
                    let i = choose|i: int|
                        0 <= i < names_of(names@).len() && names_of(names@)[i] == alias;
                    assert(names@[i]@.len() > 0);
                }
            }
        }
    }

    /// The handler that owns the command word `command`, if any does.
    pub fn get_handler(&self, command: &str) -> (found: Option<&H>)
        requires
            self.wf(),
        ensures
            match self.owner(command@) {
                Some(k) => found == Some(&self.handlers()[k]),
                None => found is None,
            },
    {
        proof {
            lemma_owner_in(self.handlers@, command@);
            assert(leads(self.cmd_map@, self.handlers@, command@));
        }
        match self.cmd_map.get(command) {
            Some(idx) => Some(&self.handlers[*idx]),
            None => None,
        }
    }

    /// Shows the line of `progress` to the handler whose turn it is, or
    /// finishes the line when every handler has seen it.
    fn notify(&mut self, progress: Progress) -> (step: Step)
        requires
            old(self).wf(),
            !is_command(old(self).trigger(), progress@.line),
        ensures
            final(self).wf(),
            old(self).resumed(progress@, Ok(()), final(self), step@),
    {
        let k: usize = progress.next;
        if k >= self.handlers.len() {
            return Step::Finished { result: Ok(()) };
        }
        let ghost before = self.handlers@;
        let none: Vec<String> = Vec::new();
        let context = Context {
            nickname: progress.nickname.as_str(),
            sender: progress.sender.as_str(),
            respond_to: progress.respond_to.as_str(),
            args: none.as_slice(),
            msg: progress.line.as_str(),
            now: progress.now,
        };
        assert(context@.args =~= Seq::<Seq<char>>::empty());
        let handler: &mut H = &mut self.handlers[k];
        let script: Vec<Action> = handler.on_each_message(context);
        proof {
            Self::lemma_same_index(before, self.handlers@, self.cmd_map@);
        }
        Step::Perform {
            script,
            progress: Progress {
                next: k + 1,
                now: progress.now,
                nickname: progress.nickname,
                sender: progress.sender,
                respond_to: progress.respond_to,
                line: progress.line,
            },
        }
    }

    /// An index that agrees with a registry agrees with every registry of
    /// the same aliases.
    proof fn lemma_same_index(before: Seq<H>, after: Seq<H>, index: Map<Seq<char>, usize>)
        requires
            before.len() == after.len(),
            forall|j: int|
                0 <= j < before.len() ==> (#[trigger] before[j]).aliases() == after[j].aliases(),
            forall|alias: Seq<char>| #[trigger] leads(index, before, alias),
            all_named(before),
        ensures
            forall|alias: Seq<char>| #[trigger] leads(index, after, alias),
            all_named(after),
    {
        assert forall|j: int, alias: Seq<char>|
            0 <= j < after.len() && #[trigger] after[j].aliases().contains(
                alias,
            ) implies alias.len() > 0 by {
            assert(before[j].aliases().contains(alias));
        }
        assert forall|alias: Seq<char>| #[trigger] leads(index, after, alias) by {
            lemma_owner_by_aliases(before, after, alias);
            assert(leads(index, before, alias));
        }
    }

    /// Starts the work on a line that came in at `now`.
    ///
    /// `nickname` is the bot's own nickname, `sender` wrote the line, and
    /// answers go to `respond_to`.
    pub fn dispatch_at(
        &mut self,
        now: Timestamp,
        nickname: &str,
        sender: &str,
        respond_to: &str,
        message: &str,
    ) -> (step: Step)
        requires
            old(self).wf(),
        ensures
            final(self).wf(),
            old(self).dispatched(
                ProgressView {
                    next: 0,
                    now,
                    nickname: nickname@,
                    sender: sender@,
                    respond_to: respond_to@,
                    line: message@,
                },
                final(self),
                step@,
            ),
    {
        let progress = Progress {
            next: 0,
            now,
            nickname: nickname.to_owned(),
            sender: sender.to_owned(),
            respond_to: respond_to.to_owned(),
            line: message.to_owned(),
        };
        if !starts_with_char(message, self.line_start) {
            return self.notify(progress);
        }
        let length: usize = message.unicode_len();
        let rest: &str = message.substring_char(1, length);
        let fragments: Vec<String> = split(rest, ' ');
        proof {
            lemma_tokens_free_of_sep(rest@, ' ');
            lemma_owner_in(self.handlers@, command_name(message@));
            assert(leads(self.cmd_map@, self.handlers@, command_name(message@)));
        }
        if fragments.len() == 0 {
            return Step::Finished { result: Ok(()) };
        }
        let found: Option<usize> = match self.cmd_map.get(fragments[0].as_str()) {
            Some(idx) => Some(*idx),
            None => None,
        };
        match found {
            None => Step::Finished { result: Ok(()) },
            Some(k) => {
                let ghost before = self.handlers@;
                let args: &[String] = slice_subrange(fragments.as_slice(), 1, fragments.len());
                let text: String = join(args, " ");
                proof {
                    assert(texts(args@) =~= command_args(message@));
                    lemma_command_text(message@);
                    reveal_strlit(" ");
                    assert(" "@ =~= seq![' ']);
                }
                let context = Context {
                    nickname,
                    sender,
                    respond_to,
                    args,
                    msg: text.as_str(),
                    now,
                };
                let handler: &mut H = &mut self.handlers[k];
                let script: Vec<Action> = handler.handle(context);
                proof {
                    Self::lemma_same_index(before, self.handlers@, self.cmd_map@);
                }
                Step::Perform {
                    script,
                    progress: Progress {
                        next: self.handlers.len(),
                        now: progress.now,
                        nickname: progress.nickname,
                        sender: progress.sender,
                        respond_to: progress.respond_to,
                        line: progress.line,
                    },
                }
            },
        }
    }

    /// Starts the work on a line that comes in at this moment.
    ///
    /// The clock decides which moment that is; whatever it answers, the
    /// line is dispatched as `dispatch_at` does it for that moment.
    pub fn dispatch(&mut self, nickname: &str, sender: &str, respond_to: &str, message: &str) -> (step:
        Step)
        requires
            old(self).wf(),
        ensures
            final(self).wf(),
            exists|at: Timestamp|
                at.wf() && old(self).dispatched(
                    ProgressView {
                        next: 0,
                        now: at,
                        nickname: nickname@,
                        sender: sender@,
                        respond_to: respond_to@,
                        line: message@,
                    },
                    final(self),
                    step@,
                ),
    {
        let at: Timestamp = now();
        self.dispatch_at(at, nickname, sender, respond_to, message)
    }

    /// Goes on with a line after the script of the last step was performed
    /// with `outcome`.
    pub fn resume(&mut self, progress: Progress, outcome: Result<(), Error>) -> (step: Step)
        requires
            old(self).wf(),
        ensures
            final(self).wf(),
            old(self).resumed(progress@, outcome_view(outcome), final(self), step@),
    {
        match outcome {
            Err(e) => Step::Finished { result: Err(e) },
            Ok(()) => {
                if starts_with_char(progress.line.as_str(), self.line_start) {
                    Step::Finished { result: Ok(()) }
                } else {
                    self.notify(progress)
                }
            },
        }
    }
}

/// A handler that declares an alias which no later handler declares owns it.
pub proof fn lemma_last_declarer_owns<H: Handler>(handlers: Seq<H>, k: int, alias: Seq<char>)
    requires
        0 <= k < handlers.len(),
        handlers[k].aliases().contains(alias),
        forall|j: int| k < j < handlers.len() ==> !(#[trigger] handlers[j]).aliases().contains(alias),
    ensures
        owner_in(handlers, alias) == Some(k),
{
    lemma_owner_in(handlers, alias);
}

/// The parts of the command line made of the trigger, a command word
/// without a space, one space and `rest`: the command word is the word, the
/// arguments are `rest` cut at every single space, and the text is `rest`.
pub proof fn lemma_command_parts(trigger: char, word: Seq<char>, rest: Seq<char>)
    requires
        !word.contains(' '),
    ensures
        is_command(trigger, seq![trigger] + word + seq![' '] + rest),
        command_name(seq![trigger] + word + seq![' '] + rest) == word,
        command_args(seq![trigger] + word + seq![' '] + rest) == tokens(rest, ' '),
        command_text(seq![trigger] + word + seq![' '] + rest) == rest,
{
    let line = seq![trigger] + word + seq![' '] + rest;
    let tail = line.skip(1);
    assert forall|j: int| 0 <= j < word.len() implies tail[j] != ' ' by {}
    crate::text::lemma_first_at(tail, ' ', word.len() as int);
    assert(tail.skip(word.len() as int + 1) =~= rest);
}

/// The parts of the command line made of the trigger and a command word
/// without a space: the command word is the word, and there are neither
/// arguments nor text.
pub proof fn lemma_bare_command_parts(trigger: char, word: Seq<char>)
    requires
        !word.contains(' '),
    ensures
        is_command(trigger, seq![trigger] + word),
        command_name(seq![trigger] + word) == word,
        command_args(seq![trigger] + word) == Seq::<Seq<char>>::empty(),
        command_text(seq![trigger] + word) == Seq::<char>::empty(),
{
    let line = seq![trigger] + word;
    let tail = line.skip(1);
    assert forall|j: int| 0 <= j < tail.len() implies tail[j] != ' ' by {}
    crate::text::lemma_first_at_none(tail, ' ');
}

/// Every alias reaches the handler that declares it.
///
/// Let the handler at `k` declare `alias`, a word without a space that no
/// handler registered later declares. Then the line made of the trigger,
/// `alias`, a space and `rest` is dispatched to that handler's `handle` and
/// to nothing else: every other handler stays as it is, the arguments are
/// `rest` cut at every single space, and the text is `rest`.
pub proof fn lemma_alias_reaches_its_handler<H: Handler>(
    d: Dispatcher<H>,
    k: int,
    alias: Seq<char>,
    rest: Seq<char>,
    p: ProgressView,
    after: Dispatcher<H>,
    step: StepView,
)
    requires
        0 <= k < d.handlers().len(),
        d.handlers()[k].aliases().contains(alias),
        forall|j: int|
            k < j < d.handlers().len() ==> !(#[trigger] d.handlers()[j]).aliases().contains(alias),
        !alias.contains(' '),
        p.line == seq![d.trigger()] + alias + seq![' '] + rest,
        d.dispatched(p, &after, step),
    ensures
        d.same_but(k, &after),
        step matches StepView::Perform { script, progress } && d.handlers()[k].handles(
            ContextView {
                nickname: p.nickname,
                sender: p.sender,
                respond_to: p.respond_to,
                args: tokens(rest, ' '),
                msg: rest,
                now: p.now,
            },
            &after.handlers()[k],
            script,
        ),
{
    lemma_command_parts(d.trigger(), alias, rest);
    lemma_last_declarer_owns(d.handlers(), k, alias);
}

/// A command that nobody owns does nothing, and succeeds.
///
/// Where no handler declares the command word of a command line, the line
/// is finished at once with success and every handler stays as it is.
pub proof fn lemma_unknown_command_is_no_op<H: Handler>(
    d: Dispatcher<H>,
    p: ProgressView,
    after: Dispatcher<H>,
    step: StepView,
)
    requires
        is_command(d.trigger(), p.line),
        forall|j: int|
            0 <= j < d.handlers().len() ==> !(#[trigger] d.handlers()[j]).aliases().contains(
                command_name(p.line),
            ),
        d.dispatched(p, &after, step),
    ensures
        d.same(&after),
        step == (StepView::Finished { result: Ok(()) }),
{
    lemma_owner_in(d.handlers(), command_name(p.line));
}

/// A command line without a command word does nothing, and succeeds.
///
/// Where the trigger stands alone, or a space follows it at once, the
/// command word is empty. No handler declares the empty word, so the line
/// is finished at once with success and every handler stays as it is.
pub proof fn lemma_no_command_word_is_no_op<H: Handler>(
    d: Dispatcher<H>,
    p: ProgressView,
    after: Dispatcher<H>,
    step: StepView,
)
    requires
        all_named(d.handlers()),
        is_command(d.trigger(), p.line),
        p.line.len() == 1 || p.line[1] == ' ',
        d.dispatched(p, &after, step),
    ensures
        command_name(p.line).len() == 0,
        d.same(&after),
        step == (StepView::Finished { result: Ok(()) }),
{
    lemma_owner_in(d.handlers(), command_name(p.line));
}

/// Of two handlers that declare the same alias, the one registered later
/// owns it.
pub proof fn lemma_later_registration_owns<H: Handler>(
    before: Seq<H>,
    first: H,
    second: H,
    alias: Seq<char>,
)
    requires
        first.aliases().contains(alias),
        second.aliases().contains(alias),
    ensures
        owner_in(before.push(first).push(second), alias) == Some(before.len() as int + 1),
{
    let all = before.push(first).push(second);
}

/// A shared alias reaches the later handler only.
///
/// Let `first` and then `second` be registered, both declaring the command
/// word of a command line. Then the line is dispatched to the `handle` of
/// `second`; `first` and every other handler stay as they are.
pub proof fn lemma_shared_alias_reaches_the_later<H: Handler>(
    d: Dispatcher<H>,
    before: Seq<H>,
    first: H,
    second: H,
    p: ProgressView,
    after: Dispatcher<H>,
    step: StepView,
)
    requires
        d.handlers() == before.push(first).push(second),
        is_command(d.trigger(), p.line),
        first.aliases().contains(command_name(p.line)),
        second.aliases().contains(command_name(p.line)),
        d.dispatched(p, &after, step),
    ensures
        d.commanded(before.len() as int + 1, p, &after, step),
        after.handlers()[before.len() as int] == first,
{
}

/// The steps of a line that is no command, up to the handler at `upto`.
///
/// `ds[0]` is the dispatcher when the line comes in, `steps[0]` is what
/// `dispatch` answers, and `ds[i]` is the dispatcher when `steps[i - 1]` is
/// answered. Every script is performed with success and reported to
/// `resume`, which answers `steps[i]`.
pub open spec fn plain_run<H: Handler>(
    ds: Seq<Dispatcher<H>>,
    steps: Seq<StepView>,
    p: ProgressView,
) -> bool {
    &&& ds.len() == steps.len() + 1
    &&& steps.len() >= 1
    &&& !is_command(ds[0].trigger(), p.line)
    &&& ds[0].dispatched(p, &ds[1], steps[0])
    &&& forall|i: int|
        1 <= i < steps.len() ==> (#[trigger] steps[i - 1] matches StepView::Perform {
            progress,
            ..
        } ==> ds[i].resumed(progress, Ok(()), &ds[i + 1], steps[i]))
}

/// What has happened when `upto` steps of a plain run are answered: the
/// handlers in front of `upto` have seen the line, each in its turn, and
/// the others are as they were.
pub open spec fn plain_run_upto<H: Handler>(
    ds: Seq<Dispatcher<H>>,
    steps: Seq<StepView>,
    p: ProgressView,
    upto: int,
) -> bool {
    &&& ds[upto].trigger() == ds[0].trigger()
    &&& ds[upto].handlers().len() == ds[0].handlers().len()
    &&& forall|j: int|
        upto <= j < ds[0].handlers().len() ==> #[trigger] ds[upto].handlers()[j]
            == ds[0].handlers()[j]
    &&& forall|j: int|
        0 <= j < upto ==> (#[trigger] steps[j] matches StepView::Perform { script, progress }
            && progress == ProgressView { next: j + 1, ..p } && ds[0].handlers()[j].notices(
            hook_context(p),
            &ds[upto].handlers()[j],
            script,
        ))
}

/// A plain run has come as far as `upto` says.
pub proof fn lemma_plain_run_upto<H: Handler>(
    ds: Seq<Dispatcher<H>>,
    steps: Seq<StepView>,
    p: ProgressView,
    upto: int,
)
    requires
        plain_run(ds, steps, p),
        0 <= upto <= ds[0].handlers().len(),
        upto < ds.len(),
    ensures
        plain_run_upto(ds, steps, p, upto),
    decreases upto,
{
    if upto > 0 {
        let k = upto - 1;
        lemma_plain_run_upto(ds, steps, p, k);
        if k > 0 {
            assert(steps[k - 1] matches StepView::Perform { progress, .. } && progress == (
            ProgressView { next: k, ..p }));
        }
        assert forall|j: int| upto <= j < ds[0].handlers().len() implies #[trigger] ds[upto].handlers()[j]
            == ds[0].handlers()[j] by {}
        assert forall|j: int| 0 <= j < upto implies (#[trigger] steps[j] matches StepView::Perform {
            script,
            progress,
        } && progress == ProgressView { next: j + 1, ..p } && ds[0].handlers()[j].notices(
            hook_context(p),
            &ds[upto].handlers()[j],
            script,
        )) by {}
    }
}

/// A line that is no command is shown to every handler, in the order of
/// registration, and to no `handle`.
///
/// Take a plain run of as many steps as there are handlers, and one more.
/// Then step `j` carries the script of the `on_each_message` of the handler
/// at `j`, which has changed as its `notices` says and in no other way, and
/// the last step finishes the line with success.
pub proof fn lemma_plain_line_reaches_every_handler<H: Handler>(
    ds: Seq<Dispatcher<H>>,
    steps: Seq<StepView>,
    p: ProgressView,
)
    requires
        plain_run(ds, steps, p),
        steps.len() == ds[0].handlers().len() + 1,
    ensures
        plain_run_upto(ds, steps, p, ds[0].handlers().len() as int),
        steps.last() == (StepView::Finished { result: Ok(()) }),
        ds.last().handlers().len() == ds[0].handlers().len(),
        forall|j: int|
            0 <= j < ds[0].handlers().len() ==> (#[trigger] steps[j] matches StepView::Perform {
                script,
                ..
            } && ds[0].handlers()[j].notices(hook_context(p), &ds.last().handlers()[j], script)),
{
    let n = ds[0].handlers().len() as int;
    lemma_plain_run_upto(ds, steps, p, n);
    if n > 0 {
        assert(steps[n - 1] matches StepView::Perform { progress, .. } && progress == (
        ProgressView { next: n, ..p }));
    }
    assert forall|j: int| 0 <= j < n implies (#[trigger] steps[j] matches StepView::Perform {
        script,
        ..
    } && ds[0].handlers()[j].notices(hook_context(p), &ds.last().handlers()[j], script)) by {}
}

/// The arguments of a command line, joined by single spaces, are the text of
/// the command line.
pub proof fn lemma_command_text(line: Seq<char>)
    ensures
        joined(command_args(line), seq![' ']) == command_text(line),
{
    let rest = line.skip(1);
    match first_at(rest, ' ') {
        Some(i) => {
            let tail = rest.skip(i + 1);
            assert(tokens(rest, ' ').skip(1) =~= tokens(tail, ' '));
            lemma_join_tokens(tail, ' ');
        },
        None => {},
    }
}

} // verus!
