//! The records that the commands keep: pending mail and who-is entries.

use vstd::prelude::*;
use crate::clock::{days_in, hours_in, minutes_in, seconds_between, weeks_in};
use crate::clock::{elapsed, now, Elapsed, Timestamp};
use crate::text::{decimal, digits, ends_sentence, ends_with_sentence_mark};

verus! {

/// The views of a list of values, one per value.
pub open spec fn views<T: View>(items: Seq<T>) -> Seq<T::V> {
    Seq::new(items.len(), |i: int| items[i]@)
}

/// A stored piece of mail, waiting for `target` to speak.
#[derive(Clone, Debug, PartialEq, Eq)]
pub struct Message {
    /// The key under which the store keeps the entry.
    pub key: i32,
    pub target: String,
    pub sender: String,
    pub message: String,
    pub sent: Timestamp,
    pub private: bool,
}

/// What a `Message` holds.
pub struct MessageView {
    pub key: i32,
    pub target: Seq<char>,
    pub sender: Seq<char>,
    pub message: Seq<char>,
    pub sent: Timestamp,
    pub private: bool,
}

impl View for Message {
    type V = MessageView;

    open spec fn view(&self) -> MessageView {
        MessageView {
            key: self.key,
            target: self.target@,
            sender: self.sender@,
            message: self.message@,
            sent: self.sent,
            private: self.private,
        }
    }
}

/// A piece of mail on its way into the store.
#[derive(Clone, Debug, PartialEq, Eq)]
pub struct NewMessage {
    pub target: String,
    pub sender: String,
    pub message: String,
    pub sent: Timestamp,
    pub private: bool,
}

/// What a `NewMessage` holds.
pub struct NewMessageView {
    pub target: Seq<char>,
    pub sender: Seq<char>,
    pub message: Seq<char>,
    pub sent: Timestamp,
    pub private: bool,
}

impl View for NewMessage {
    type V = NewMessageView;

    open spec fn view(&self) -> NewMessageView {
        NewMessageView {
            target: self.target@,
            sender: self.sender@,
            message: self.message@,
            sent: self.sent,
            private: self.private,
        }
    }
}

/// What is known of the person behind a nickname.
#[derive(Clone, Debug, PartialEq, Eq)]
pub struct WhoisEntry {
    pub nickname: String,
    pub description: String,
}

/// What a `WhoisEntry` holds.
pub struct WhoisEntryView {
    pub nickname: Seq<char>,
    pub description: Seq<char>,
}

impl View for WhoisEntry {
    type V = WhoisEntryView;

    open spec fn view(&self) -> WhoisEntryView {
        WhoisEntryView { nickname: self.nickname@, description: self.description@ }
    }
}

/// A who-is entry on its way into the store, where it replaces the entry of
/// the same nickname.
#[derive(Clone, Debug, PartialEq, Eq)]
pub struct NewWhoisEntry {
    pub nickname: String,
    pub description: String,
}

/// What a `NewWhoisEntry` holds.
pub struct NewWhoisEntryView {
    pub nickname: Seq<char>,
    pub description: Seq<char>,
}

impl View for NewWhoisEntry {
    type V = NewWhoisEntryView;

    open spec fn view(&self) -> NewWhoisEntryView {
        NewWhoisEntryView { nickname: self.nickname@, description: self.description@ }
    }
}

/// How long ago something was, in words, for a span of `secs` seconds. The
/// coarsest unit that has passed at least once is named; a unit that has
/// passed exactly once is written out ("A week ago"). Less than a minute,
/// or a span into the future, is "Moments ago".
pub open spec fn time_ago(secs: int) -> Seq<char> {
    if weeks_in(secs) > 1 {
        digits(weeks_in(secs) as nat) + " weeks ago"@
    } else if weeks_in(secs) == 1 {
        "A week ago"@
    } else if days_in(secs) > 1 {
        digits(days_in(secs) as nat) + " days ago"@
    } else if days_in(secs) == 1 {
        "A day ago"@
    } else if hours_in(secs) > 1 {
        digits(hours_in(secs) as nat) + " hours ago"@
    } else if hours_in(secs) == 1 {
        "An hour ago"@
    } else if minutes_in(secs) > 1 {
        digits(minutes_in(secs) as nat) + " minutes ago"@
    } else if minutes_in(secs) == 1 {
        "A minute ago"@
    } else {
        "Moments ago"@
    }
}

/// The line that delivers a piece of mail `secs` seconds after it was sent:
/// the addressee, how long ago, the sender and the message, which gets a full
/// stop unless it ends in `.`, `!` or `?`.
pub open spec fn delivery_text(m: MessageView, secs: int) -> Seq<char> {
    m.target + ": "@ + time_ago(secs) + ", "@ + m.sender + " said "@ + m.message + (
    if ends_sentence(m.message) {
        ""@
    } else {
        "."@
    })
}

/// The line that says who somebody is.
pub open spec fn whois_text(e: WhoisEntryView) -> Seq<char> {
    e.nickname + " is "@ + e.description
}

/// A count followed by a unit, as in "3 days ago".
fn counted(n: i64, unit: &str) -> (out: String)
    requires
        n > 1,
    ensures
        out@ == digits(n as nat) + unit@,
{
    let mut out: String = decimal(n as u64);
    out.append(unit);
    out
}

impl Message {
    /// How long ago `sent` was, in words, as seen from `now`.
    pub fn time_ago_at(sent: Timestamp, now: Timestamp) -> (out: String)
        ensures
            out@ == time_ago(seconds_between(now, sent)),
    {
        let e: Elapsed = elapsed(now, sent);
        if e.weeks > 1 {
            counted(e.weeks, " weeks ago")
        } else if e.weeks == 1 {
            "A week ago".to_owned()
        } else if e.days > 1 {
            counted(e.days, " days ago")
        } else if e.days == 1 {
            "A day ago".to_owned()
        } else if e.hours > 1 {
            counted(e.hours, " hours ago")
        } else if e.hours == 1 {
            "An hour ago".to_owned()
        } else if e.minutes > 1 {
            counted(e.minutes, " minutes ago")
        } else if e.minutes == 1 {
            "A minute ago".to_owned()
        } else {
            "Moments ago".to_owned()
        }
    }

    /// How long ago `sent` was, in words, as seen from the present moment.
    /// The clock decides which moment that is; whatever it answers, the
    /// words are those of `time_ago` for the time since `sent`.
    pub fn time_ago_str(sent: Timestamp) -> (out: String)
        ensures
            exists|at: Timestamp| at.wf() && out@ == time_ago(seconds_between(at, sent)),
    {
        let at: Timestamp = now();
        Message::time_ago_at(sent, at)
    }

    /// The line that delivers this piece of mail at `now`.
    pub fn to_text_at(&self, now: Timestamp) -> (out: String)
        ensures
            out@ == delivery_text(self@, seconds_between(now, self.sent)),
    {
        let ago: String = Message::time_ago_at(self.sent, now);
        let mut out: String = self.target.clone();
        out.append(": ");
        out.append(ago.as_str());
        out.append(", ");
        out.append(self.sender.as_str());
        out.append(" said ");
        out.append(self.message.as_str());
        if ends_with_sentence_mark(self.message.as_str()) {
            proof {
                reveal_strlit("");
            }
        } else {
            out.append(".");
        }
        out
    }

    /// The line that delivers this piece of mail at the present moment.
    pub fn to_text(&self) -> (out: String)
        ensures
            exists|at: Timestamp|
                at.wf() && out@ == delivery_text(self@, seconds_between(at, self.sent)),
    {
        let at: Timestamp = now();
        self.to_text_at(at)
    }
}

impl WhoisEntry {
    /// The line that says who this is.
    pub fn to_text(&self) -> (out: String)
        ensures
            out@ == whois_text(self@),
    {
        let mut out: String = self.nickname.clone();
        out.append(" is ");
        out.append(self.description.as_str());
        out
    }
}

} // verus!
