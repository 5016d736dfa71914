//! Text helpers: splitting on a separator, joining, decimal numerals.
//!
//! Everything is stated over `Seq<char>`, the view of `str` and `String`.

use vstd::prelude::*;

verus! {

/// The views of a list of strings, one `Seq<char>` per string.
pub open spec fn texts(items: Seq<String>) -> Seq<Seq<char>> {
    Seq::new(items.len(), |i: int| items[i]@)
}

/// `s` cut at every occurrence of `sep`. The first token is what stands in
/// front of the first `sep`; the rest are the tokens of what follows it.
/// There is always at least one token, and neighbouring separators give
/// empty tokens.
pub open spec fn tokens(s: Seq<char>, sep: char) -> Seq<Seq<char>>
    decreases s.len(),
{
    match first_at(s, sep) {
        None => seq![s],
        Some(i) => seq![s.take(i)] + tokens(s.skip(i + 1), sep),
    }
}

/// The least position of `s` that holds `sep`.
pub open spec fn first_at(s: Seq<char>, sep: char) -> Option<int>
    decreases s.len(),
{
    if s.len() == 0 {
        None
    } else if s[0] == sep {
        Some(0)
    } else {
        match first_at(s.drop_first(), sep) {
            None => None,
            Some(i) => if 0 <= i < s.len() - 1 {
                Some(i + 1)
            } else {
                None
            },
        }
    }
}

/// `parts` written one after the other with `sep` between neighbours.
pub open spec fn joined(parts: Seq<Seq<char>>, sep: Seq<char>) -> Seq<char>
    decreases parts.len(),
{
    if parts.len() == 0 {
        Seq::empty()
    } else if parts.len() == 1 {
        parts[0]
    } else {
        joined(parts.drop_last(), sep) + sep + parts.last()
    }
}

/// The character for one decimal digit.
pub open spec fn digit(d: int) -> char {
    if d == 0 {
        '0'
    } else if d == 1 {
        '1'
    } else if d == 2 {
        '2'
    } else if d == 3 {
        '3'
    } else if d == 4 {
        '4'
    } else if d == 5 {
        '5'
    } else if d == 6 {
        '6'
    } else if d == 7 {
        '7'
    } else if d == 8 {
        '8'
    } else {
        '9'
    }
}

/// The decimal numeral of `n`, without leading zeros (`0` is `"0"`).
pub open spec fn digits(n: nat) -> Seq<char>
    decreases n,
{
    if n < 10 {
        seq![digit(n as int)]
    } else {
        digits(n / 10).push(digit((n % 10) as int))
    }
}

/// Whether `s` ends in one of the three sentence marks `.`, `!`, `?`.
pub open spec fn ends_sentence(s: Seq<char>) -> bool {
    s.len() > 0 && (s.last() == '.' || s.last() == '!' || s.last() == '?')
}

/// `s` without one trailing line feed and then without one trailing
/// carriage return, in that order.
pub open spec fn trimmed_text(s: Seq<char>) -> Seq<char> {
    let a = if s.len() > 0 && s.last() == '\n' {
        s.drop_last()
    } else {
        s
    };
    if a.len() > 0 && a.last() == '\r' {
        a.drop_last()
    } else {
        a
    }
}

/// `first_at` finds `k` when `k` holds `sep` and nothing in front of it does.
pub proof fn lemma_first_at(s: Seq<char>, sep: char, k: int)
    requires
        0 <= k < s.len(),
        s[k] == sep,
        forall|j: int| 0 <= j < k ==> s[j] != sep,
    ensures
        first_at(s, sep) == Some(k),
    decreases k,
{
    if k > 0 {
        let rest = s.drop_first();
        assert forall|j: int| 0 <= j < k - 1 implies rest[j] != sep by {}
        lemma_first_at(rest, sep, k - 1);
    }
}

/// `first_at` finds nothing when no position holds `sep`.
pub proof fn lemma_first_at_none(s: Seq<char>, sep: char)
    requires
        forall|j: int| 0 <= j < s.len() ==> s[j] != sep,
    ensures
        first_at(s, sep) is None,
    decreases s.len(),
{
    if s.len() > 0 {
        let rest = s.drop_first();
        assert forall|j: int| 0 <= j < rest.len() implies rest[j] != sep by {}
        lemma_first_at_none(rest, sep);
    }
}

/// What `first_at` answers is in range, holds `sep`, and is the least such.
pub proof fn lemma_first_at_least(s: Seq<char>, sep: char)
    ensures
        match first_at(s, sep) {
            Some(i) => 0 <= i < s.len() && s[i] == sep && forall|j: int|
                0 <= j < i ==> s[j] != sep,
            None => forall|j: int| 0 <= j < s.len() ==> s[j] != sep,
        },
    decreases s.len(),
{
    if s.len() > 0 && s[0] != sep {
        let rest = s.drop_first();
        lemma_first_at_least(rest, sep);
        match first_at(rest, sep) {
            Some(i) => {
                assert forall|j: int| 0 <= j < i + 1 implies s[j] != sep by {
                    if j > 0 {
                        assert(rest[j - 1] == s[j]);
                    }
                }
            },
            None => {
                assert forall|j: int| 0 <= j < s.len() implies s[j] != sep by {
                    if j > 0 {
                        assert(rest[j - 1] == s[j]);
                    }
                }
            },
        }
    }
}

/// There is always a first token, and no token holds the separator.
pub proof fn lemma_tokens_free_of_sep(s: Seq<char>, sep: char)
    ensures
        tokens(s, sep).len() >= 1,
        forall|i: int, j: int|
            0 <= i < tokens(s, sep).len() && 0 <= j < tokens(s, sep)[i].len()
                ==> tokens(s, sep)[i][j] != sep,
    decreases s.len(),
{
    lemma_first_at_least(s, sep);
    match first_at(s, sep) {
        None => {},
        Some(k) => {
            lemma_tokens_free_of_sep(s.skip(k + 1), sep);
        },
    }
}

/// Joining the tokens of `s` with the separator gives `s` back.
pub proof fn lemma_join_tokens(s: Seq<char>, sep: char)
    ensures
        joined(tokens(s, sep), seq![sep]) == s,
    decreases s.len(),
{
    lemma_first_at_least(s, sep);
    match first_at(s, sep) {
        None => {},
        Some(k) => {
            let tail = s.skip(k + 1);
            lemma_join_tokens(tail, sep);
            lemma_join_cons(s.take(k), tokens(tail, sep), seq![sep]);
        },
    }
}

/// Joining a list with one more part in front.
pub proof fn lemma_join_cons(head: Seq<char>, rest: Seq<Seq<char>>, sep: Seq<char>)
    requires
        rest.len() >= 1,
    ensures
        joined(seq![head] + rest, sep) == head + sep + joined(rest, sep),
    decreases rest.len(),
{
    let all = seq![head] + rest;
    assert(joined(all, sep) == joined(all.drop_last(), sep) + sep + all.last());
    if rest.len() > 1 {
        assert(all.drop_last() =~= seq![head] + rest.drop_last());
        lemma_join_cons(head, rest.drop_last(), sep);
    }
}

/// `std::string::String::push` adds the character at the end.
pub assume_specification[ String::push ](s: &mut String, c: char)
    ensures
        final(s)@ == old(s)@.push(c),
;

/// The characters of `s`, in order.
pub fn chars_of(s: &str) -> (out: Vec<char>)
    ensures
        out@ == s@,
{
    let mut out: Vec<char> = Vec::new();
    for c in it: s.chars()
        invariant
            it.seq() == s@,
            out@ =~= s@.take(it.index() as int),
    {
        out.push(c);
    }
    out
}

/// Cuts `s` at every `sep`.
pub fn split(s: &str, sep: char) -> (parts: Vec<String>)
    ensures
        texts(parts@) == tokens(s@, sep),
{
    let mut parts: Vec<String> = Vec::new();
    let mut cur = String::new();
    let ghost mut start: int = 0;
    assert(s@.skip(0) =~= s@);
    for c in it: s.chars()
        invariant
            it.seq() == s@,
            0 <= start <= it.index(),
            cur@ =~= s@.subrange(start, it.index() as int),
            forall|j: int| start <= j < it.index() ==> s@[j] != sep,
            tokens(s@, sep) == texts(parts@) + tokens(s@.skip(start), sep),
    {
        let ghost i = it.index() as int;
        if c == sep {
            proof {
                let tail = s@.skip(start);
                assert forall|j: int| 0 <= j < i - start implies tail[j] != sep by {}
                lemma_first_at(tail, sep, i - start);
                assert(tail.take(i - start) =~= cur@);
                assert(tail.skip(i - start + 1) =~= s@.skip(i + 1));
                start = i + 1;
            }
            parts.push(cur);
            cur = String::new();
        } else {
            cur.push(c);
        }
    }
    proof {
        let tail = s@.skip(start);
        assert forall|j: int| 0 <= j < tail.len() implies tail[j] != sep by {}
        lemma_first_at_none(tail, sep);
    }
    parts.push(cur);
    parts
}

/// Writes `parts` one after the other with `sep` between neighbours.
pub fn join(parts: &[String], sep: &str) -> (out: String)
    ensures
        out@ == joined(texts(parts@), sep@),
{
    let mut out = String::new();
    let mut i: usize = 0;
    while i < parts.len()
        invariant
            i <= parts.len(),
            out@ == joined(texts(parts@).take(i as int), sep@),
        decreases parts.len() - i,
    {
        proof {
            let before = texts(parts@).take(i as int);
            let now = texts(parts@).take(i + 1);
            assert(now.drop_last() =~= before);
        }
        if i > 0 {
            out.append(sep);
        }
        out.append(parts[i].as_str());
        i = i + 1;
    }
    assert(texts(parts@).take(parts@.len() as int) =~= texts(parts@));
    out
}

/// The character for the decimal digit `d`.
pub fn digit_char(d: u8) -> (c: char)
    requires
        d < 10,
    ensures
        c == digit(d as int),
{
    if d == 0 {
        '0'
    } else if d == 1 {
        '1'
    } else if d == 2 {
        '2'
    } else if d == 3 {
        '3'
    } else if d == 4 {
        '4'
    } else if d == 5 {
        '5'
    } else if d == 6 {
        '6'
    } else if d == 7 {
        '7'
    } else if d == 8 {
        '8'
    } else {
        '9'
    }
}

/// The decimal numeral of `n`.
pub fn decimal(n: u64) -> (out: String)
    ensures
        out@ == digits(n as nat),
    decreases n,
{
    if n < 10 {
        let mut out = String::new();
        out.push(digit_char(n as u8));
        out
    } else {
        let mut out = decimal(n / 10);
        out.push(digit_char((n % 10) as u8));
        out
    }
}

/// Whether `s` ends in `.`, `!` or `?`.
pub fn ends_with_sentence_mark(s: &str) -> (r: bool)
    ensures
        r == ends_sentence(s@),
{
    let n: usize = s.unicode_len();
    if n == 0 {
        false
    } else {
        let c: char = s.get_char(n - 1);
        c == '.' || c == '!' || c == '?'
    }
}

/// Whether the first character of `s` is `c`.
pub fn starts_with_char(s: &str, c: char) -> (r: bool)
    ensures
        r == (s@.len() > 0 && s@[0] == c),
{
    if s.is_empty() {
        false
    } else {
        s.get_char(0) == c
    }
}

/// Whether two strings hold the same text.
pub fn same_text(a: &str, b: &str) -> (r: bool)
    ensures
        r == (a@ == b@),
{
    let x: String = a.to_owned();
    let y: String = b.to_owned();
    x == y
}

/// Drops one trailing line feed, then one trailing carriage return.
pub fn trimmed(s: String) -> (out: String)
    ensures
        out@ == trimmed_text(s@),
{
    let text: &str = s.as_str();
    let n: usize = text.unicode_len();
    let mut end: usize = n;
    if end > 0 && text.get_char(end - 1) == '\n' {
        end = end - 1;
    }
    if end > 0 && text.get_char(end - 1) == '\r' {
        end = end - 1;
    }
    let out: String = text.substring_char(0, end).to_owned();
    proof {
        let a = if s@.len() > 0 && s@.last() == '\n' {
            s@.drop_last()
        } else {
            s@
        };
    }
    out
}

} // verus!
