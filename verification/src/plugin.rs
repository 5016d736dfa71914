//! Bookkeeping for plugins that are loaded while the bot runs.
//!
//! A plugin is a dynamic library in the plugin directory. For every line that
//! comes in the directory is listed again, each plugin file that is new or
//! has changed is loaded afresh, and each plugin's entry point is called.
//!
//! Listing, loading and calling are the caller's business. The cache decides:
//! which file is next, whether it must be loaded, and when the scan ends.
//! It hands out one [`PluginStep`] at a time; the ticket in it is the only
//! way to answer.

use vstd::prelude::*;
use vstd::hash_map::StringHashMap;
use crate::error::{Error, ErrorView, Failure};
use crate::models::views;
use crate::text::chars_of;

verus! {

/// Whether `a` comes before `b` in the dictionary, character by character.
pub open spec fn precedes(a: Seq<char>, b: Seq<char>) -> bool
    decreases a.len(),
{
    if b.len() == 0 {
        false
    } else if a.len() == 0 {
        true
    } else if a[0] != b[0] {
        a[0] < b[0]
    } else {
        precedes(a.drop_first(), b.drop_first())
    }
}

/// Nothing comes before itself.
pub proof fn lemma_precedes_irreflexive(a: Seq<char>)
    ensures
        !precedes(a, a),
    decreases a.len(),
{
    if a.len() > 0 {
        lemma_precedes_irreflexive(a.drop_first());
    }
}

/// What comes before something that comes before `c` comes before `c`.
pub proof fn lemma_precedes_transitive(a: Seq<char>, b: Seq<char>, c: Seq<char>)
    requires
        precedes(a, b),
        precedes(b, c),
    ensures
        precedes(a, c),
    decreases a.len(),
{
    if a.len() > 0 && a[0] == b[0] && b[0] == c[0] {
        lemma_precedes_transitive(a.drop_first(), b.drop_first(), c.drop_first());
    }
}

/// Of two different texts one comes before the other.
pub proof fn lemma_precedes_total(a: Seq<char>, b: Seq<char>)
    ensures
        precedes(a, b) || precedes(b, a) || a == b,
    decreases a.len(),
{
    if a.len() > 0 && b.len() > 0 {
        if a[0] == b[0] {
            lemma_precedes_total(a.drop_first(), b.drop_first());
            if a.drop_first() == b.drop_first() {
                assert(a =~= seq![a[0]] + a.drop_first());
            }
        }
    }
}

/// Whether `a` comes before `b` in the dictionary.
pub fn comes_before(a: &str, b: &str) -> (r: bool)
    ensures
        r == precedes(a@, b@),
{
    let x: Vec<char> = chars_of(a);
    let y: Vec<char> = chars_of(b);
    let mut i: usize = 0;
    assert(a@.skip(0) =~= a@);
    assert(b@.skip(0) =~= b@);
    while i < x.len() && i < y.len()
        invariant
            i <= x.len(),
            i <= y.len(),
            x@ == a@,
            y@ == b@,
            precedes(a@, b@) == precedes(a@.skip(i as int), b@.skip(i as int)),
        decreases x.len() - i,
    {
        let ghost s = a@.skip(i as int);
        let ghost t = b@.skip(i as int);
        if x[i] != y[i] {
            return x[i] < y[i];
        }
        assert(s.drop_first() =~= a@.skip(i + 1));
        assert(t.drop_first() =~= b@.skip(i + 1));
        i = i + 1;
    }
    i < y.len()
}

/// The position of the last `c` in `s`.
pub open spec fn last_at(s: Seq<char>, c: char) -> Option<int>
    decreases s.len(),
{
    if s.len() == 0 {
        None
    } else if s.last() == c {
        Some(s.len() - 1)
    } else {
        last_at(s.drop_last(), c)
    }
}

/// The extension of a path: what follows the last dot, provided that the
/// dot belongs to the file's name and is not its first character.
pub open spec fn extension(path: Seq<char>) -> Option<Seq<char>> {
    match last_at(path, '.') {
        None => None,
        Some(i) => if !(0 < i < path.len()) || path[i - 1] == '/' || path.skip(i + 1).contains(
            '/',
        ) {
            None
        } else {
            Some(path.skip(i + 1))
        },
    }
}

/// Whether a path names a plugin: whether its extension is that of a dynamic
/// library, `so`, `dylib` or `dll`.
pub open spec fn eligible(path: Seq<char>) -> bool {
    match extension(path) {
        None => false,
        Some(e) => e == "so"@ || e == "dylib"@ || e == "dll"@,
    }
}

/// What `last_at` answers is in range, holds `c`, and nothing behind it
/// does.
pub proof fn lemma_last_at(s: Seq<char>, c: char)
    ensures
        match last_at(s, c) {
            Some(i) => 0 <= i < s.len() && s[i] == c && forall|j: int|
                i < j < s.len() ==> s[j] != c,
            None => forall|j: int| 0 <= j < s.len() ==> s[j] != c,
        },
    decreases s.len(),
{
    if s.len() > 0 && s.last() != c {
        let init = s.drop_last();
        lemma_last_at(init, c);
        match last_at(init, c) {
            Some(i) => {
                assert forall|j: int| i < j < s.len() implies s[j] != c by {
                    if j < init.len() {
                        assert(init[j] == s[j]);
                    }
                }
            },
            None => {
                assert forall|j: int| 0 <= j < s.len() implies s[j] != c by {
                    if j < init.len() {
                        assert(init[j] == s[j]);
                    }
                }
            },
        }
    }
}

/// Whether the characters of `s` from `from` on spell `word`.
fn tail_is(s: &Vec<char>, from: usize, word: &str) -> (r: bool)
    requires
        from <= s.len(),
    ensures
        r == (s@.skip(from as int) == word@),
{
    let w: Vec<char> = chars_of(word);
    if s.len() - from != w.len() {
        return false;
    }
    let mut i: usize = 0;
    while i < w.len()
        invariant
            i <= w.len(),
            from <= s.len(),
            s.len() - from == w.len(),
            w@ == word@,
            forall|j: int| 0 <= j < i ==> s@[from + j] == w@[j],
        decreases w.len() - i,
    {
        if s[from + i] != w[i] {
            return false;
        }
        i = i + 1;
    }
    assert(s@.skip(from as int) =~= w@);
    true
}

/// Whether `path` names a plugin.
pub fn is_plugin(path: &str) -> (r: bool)
    ensures
        r == eligible(path@),
{
    let s: Vec<char> = chars_of(path);
    let mut i: usize = s.len();
    let mut slash: bool = false;
    while i > 0 && s[i - 1] != '.'
        invariant
            i <= s.len(),
            s@ == path@,
            forall|j: int| i <= j < s.len() ==> s@[j] != '.',
            slash == s@.skip(i as int).contains('/'),
        decreases i,
    {
        proof {
            let tail = s@.skip(i as int);
            let more = s@.skip(i - 1);
            assert(more =~= seq![s@[i - 1]] + tail);
            if tail.contains('/') {
                let j = choose|j: int| 0 <= j < tail.len() && tail[j] == '/';
                assert(more[j + 1] == '/');
            }
            if s@[i - 1] == '/' {
                assert(more[0] == '/');
            }
            if more.contains('/') {
                let j = choose|j: int| 0 <= j < more.len() && more[j] == '/';
                assert(j > 0 ==> tail[j - 1] == '/');
            }
        }
        if s[i - 1] == '/' {
            slash = true;
        }
        i = i - 1;
    }
    proof {
        lemma_last_at(s@, '.');
    }
    if i == 0 {
        return false;
    }
    let dot: usize = i - 1;
    if dot == 0 || s[dot - 1] == '/' || slash {
        return false;
    }
    tail_is(&s, i, "so") || tail_is(&s, i, "dylib") || tail_is(&s, i, "dll")
}

/// When a file was last changed, as its file system tells it: seconds since
/// the Unix epoch and the nanoseconds into the second.
#[derive(Clone, Copy, Debug, PartialEq, Eq, Structural)]
pub struct Modified {
    pub secs: i64,
    pub nanos: u32,
}

/// One entry of the plugin directory.
#[derive(Clone, Debug, PartialEq, Eq)]
pub struct PluginFile {
    /// The file's path, in its canonical form.
    pub path: String,
    /// When the file was last changed.
    pub modified: Modified,
}

/// What a `PluginFile` holds.
pub struct PluginFileView {
    pub path: Seq<char>,
    pub modified: Modified,
}

impl View for PluginFile {
    type V = PluginFileView;

    open spec fn view(&self) -> PluginFileView {
        PluginFileView { path: self.path@, modified: self.modified }
    }
}

/// A loaded plugin: the module, which holds the library and the entry point
/// that was found in it, and the time of change of the file it was loaded
/// from. The cache holds it under the file's path.
pub struct PluginRecord<M> {
    pub modified: Modified,
    pub module: M,
}

/// Whether the file at `i` is one to visit after the path `last`: a plugin
/// whose path comes behind `last`. With no `last`, every plugin is.
pub open spec fn candidate(files: Seq<PluginFileView>, last: Option<Seq<char>>, i: int) -> bool {
    &&& 0 <= i < files.len()
    &&& eligible(files[i].path)
    &&& (last matches Some(l) ==> precedes(l, files[i].path))
}

/// Whether the file at `i` is the one to visit next after the path `last`:
/// the candidate whose path is first in the dictionary, at its first place in
/// the listing.
pub open spec fn is_next(files: Seq<PluginFileView>, last: Option<Seq<char>>, i: int) -> bool {
    &&& candidate(files, last, i)
    &&& forall|j: int| #[trigger]
        candidate(files, last, j) ==> !precedes(files[j].path, files[i].path)
    &&& forall|j: int| 0 <= j < i ==> (#[trigger] files[j]).path != files[i].path
}

/// The text of an optional string.
pub open spec fn text_of(o: Option<&str>) -> Option<Seq<char>> {
    match o {
        Some(s) => Some(s@),
        None => None,
    }
}

/// There is one file to visit next, at most.
pub proof fn lemma_next_is_unique(
    files: Seq<PluginFileView>,
    last: Option<Seq<char>>,
    i: int,
    j: int,
)
    requires
        is_next(files, last, i),
        is_next(files, last, j),
    ensures
        i == j,
{
    lemma_precedes_total(files[i].path, files[j].path);
}

/// The file that follows `last` in the order of the scan, if one does.
fn next_after(files: &Vec<PluginFile>, last: Option<&str>) -> (found: Option<usize>)
    ensures
        match found {
            Some(i) => is_next(
                views(files@),
                text_of(last),
                i as int,
            ),
            None => forall|j: int|
                !#[trigger] candidate(
                    views(files@),
                    text_of(last),
                    j,
                ),
        },
{
    let ghost fs = views(files@);
    let ghost from: Option<Seq<char>> = text_of(last);
    let mut best: Option<usize> = None;
    let mut j: usize = 0;
    while j < files.len()
        invariant
            j <= files.len(),
            fs == views(files@),
            from == text_of(last),
            match best {
                Some(b) => b < j && is_next(fs.take(j as int), from, b as int),
                None => forall|k: int| !#[trigger] candidate(fs.take(j as int), from, k),
            },
        decreases files.len() - j,
    {
        let path: &str = files[j].path.as_str();
        let ghost seen = fs.take(j as int);
        let ghost more = fs.take(j + 1);
        assert forall|k: int| 0 <= k < j implies more[k] == seen[k] by {}
        assert forall|k: int| k != j implies candidate(more, from, k) == candidate(seen, from, k) by {}
        let behind: bool = match last {
            Some(l) => comes_before(l, path),
            None => true,
        };
        if is_plugin(path) && behind {
            match best {
                None => {
                    assert forall|k: int| 0 <= k < j implies (#[trigger] more[k]).path
                        != more[j as int].path by {
                        if more[k].path == more[j as int].path {
                            assert(candidate(seen, from, k));
                        }
                    }
                    assert forall|k: int| #[trigger]
                        candidate(more, from, k) implies !precedes(
                        more[k].path,
                        more[j as int].path,
                    ) by {
                        if k == j {
                            lemma_precedes_irreflexive(more[j as int].path);
                        }
                    }
                    best = Some(j);
                },
                Some(b) => {
                    if comes_before(path, files[b].path.as_str()) {
                        assert forall|k: int| 0 <= k < j implies (#[trigger] more[k]).path
                            != more[j as int].path by {
                            if more[k].path == more[j as int].path {
                                assert(candidate(seen, from, k));
                            }
                        }
                        assert forall|k: int| #[trigger]
                            candidate(more, from, k) implies !precedes(
                            more[k].path,
                            more[j as int].path,
                        ) by {
                            if k == j {
                                lemma_precedes_irreflexive(more[j as int].path);
                            } else if precedes(more[k].path, more[j as int].path) {
                                lemma_precedes_transitive(
                                    more[k].path,
                                    more[j as int].path,
                                    more[b as int].path,
                                );
                            }
                        }
                        best = Some(j);
                    } else {
                        assert forall|k: int| #[trigger]
                            candidate(more, from, k) implies !precedes(
                            more[k].path,
                            more[b as int].path,
                        ) by {}
                        assert forall|k: int| 0 <= k < b implies (#[trigger] more[k]).path
                            != more[b as int].path by {}
                    }
                },
            }
        } else {
            match best {
                None => {},
                Some(b) => {
                    assert forall|k: int| #[trigger]
                        candidate(more, from, k) implies !precedes(
                        more[k].path,
                        more[b as int].path,
                    ) by {}
                    assert forall|k: int| 0 <= k < b implies (#[trigger] more[k]).path
                        != more[b as int].path by {}
                },
            }
        }
        j = j + 1;
    }
    assert(fs.take(files@.len() as int) =~= fs);
    best
}

/// The right to answer a request to load a plugin. It names the file that
/// is to be loaded.
pub struct LoadTicket {
    files: Vec<PluginFile>,
    at: usize,
}

impl LoadTicket {
    /// The listing that is being scanned.
    pub closed spec fn files(&self) -> Seq<PluginFileView> {
        views(self.files@)
    }

    /// The place in the listing of the file that is to be loaded.
    pub closed spec fn at(&self) -> int {
        self.at as int
    }

    /// The place lies in the listing.
    #[verifier::type_invariant]
    pub closed spec fn wf(&self) -> bool {
        self.at < self.files.len()
    }

    /// The file that is to be loaded.
    pub open spec fn file(&self) -> PluginFileView {
        self.files()[self.at()]
    }

    /// The path of the file that is to be loaded.
    pub fn path(&self) -> (p: &str)
        ensures
            p@ == self.file().path,
    {
        proof {
            use_type_invariant(self);
        }
        self.files[self.at].path.as_str()
    }

    /// When the file that is to be loaded was last changed.
    pub fn modified(&self) -> (m: Modified)
        ensures
            m == self.file().modified,
    {
        proof {
            use_type_invariant(self);
        }
        self.files[self.at].modified
    }
}

/// The right to answer a request to call a plugin. It names the file whose
/// module is to be called.
pub struct InvokeTicket {
    files: Vec<PluginFile>,
    at: usize,
}

impl InvokeTicket {
    /// The listing that is being scanned.
    pub closed spec fn files(&self) -> Seq<PluginFileView> {
        views(self.files@)
    }

    /// The place in the listing of the file whose module is to be called.
    pub closed spec fn at(&self) -> int {
        self.at as int
    }

    /// The place lies in the listing.
    #[verifier::type_invariant]
    pub closed spec fn wf(&self) -> bool {
        self.at < self.files.len()
    }

    /// The file whose module is to be called.
    pub open spec fn file(&self) -> PluginFileView {
        self.files()[self.at()]
    }

    /// The path of the file whose module is to be called.
    pub fn path(&self) -> (p: &str)
        ensures
            p@ == self.file().path,
    {
        proof {
            use_type_invariant(self);
        }
        self.files[self.at].path.as_str()
    }
}

/// What the cache wants done next in a scan.
pub enum PluginStep {
    /// Load the file that the ticket names, find its entry point, and
    /// report to `PluginCache::loaded`. The cache holds no module of that
    /// path any more.
    Load { ticket: LoadTicket },
    /// Call the entry point of the module that the cache holds for the file
    /// that the ticket names, and report to `PluginCache::invoked`.
    Invoke { ticket: InvokeTicket },
    /// The scan is over, and this is how it went.
    Finished { result: Result<(), Error> },
}

/// What a `PluginStep` holds.
pub enum PluginStepView {
    Load { files: Seq<PluginFileView>, at: int },
    Invoke { files: Seq<PluginFileView>, at: int },
    Finished { result: Result<(), ErrorView> },
}

impl View for PluginStep {
    type V = PluginStepView;

    open spec fn view(&self) -> PluginStepView {
        match self {
            PluginStep::Load { ticket } => PluginStepView::Load {
                files: ticket.files(),
                at: ticket.at(),
            },
            PluginStep::Invoke { ticket } => PluginStepView::Invoke {
                files: ticket.files(),
                at: ticket.at(),
            },
            PluginStep::Finished { result } => PluginStepView::Finished {
                result: crate::error::outcome_view(*result),
            },
        }
    }
}

/// The loaded plugins of one connection, by the paths of their files.
///
/// A module stays in the cache until its file is seen to have changed. A
/// file that is no longer listed is not called; its module is kept.
#[verifier::reject_recursive_types(M)]
pub struct PluginCache<M> {
    records: StringHashMap<PluginRecord<M>>,
}

impl<M> PluginCache<M> {
    /// The loaded plugins, by the paths of their files.
    pub closed spec fn records(&self) -> Map<Seq<char>, PluginRecord<M>> {
        self.records@
    }

    /// Whether the cache holds the module of `file` as the file is now: a
    /// record under its path, with its time of change.
    pub open spec fn current(&self, file: PluginFileView) -> bool {
        self.records().contains_key(file.path) && self.records()[file.path].modified
            == file.modified
    }

    /// `step` is the visit of the file at `i`, and leaves the cache as
    /// `after`.
    ///
    /// Where the cache holds the file's module as the file is now, the
    /// module is to be called and the cache stays as it is. Else the cache
    /// lets go of what it holds under the file's path, and the file is to be
    /// loaded.
    pub open spec fn visits(
        &self,
        files: Seq<PluginFileView>,
        i: int,
        after: &Self,
        step: PluginStepView,
    ) -> bool {
        if self.current(files[i]) {
            after.records() == self.records() && step == (PluginStepView::Invoke { files, at: i })
        } else {
            after.records() == self.records().remove(files[i].path) && step == (
            PluginStepView::Load { files, at: i })
        }
    }

    /// `step` goes on with the scan of `files` behind the path `last`, and
    /// leaves the cache as `after`: the next file is visited, or the scan is
    /// over with success where no file is left.
    pub open spec fn moves_on(
        &self,
        files: Seq<PluginFileView>,
        last: Option<Seq<char>>,
        after: &Self,
        step: PluginStepView,
    ) -> bool {
        ||| exists|i: int| #[trigger] is_next(files, last, i) && self.visits(files, i, after, step)
        ||| {
            &&& forall|j: int| !#[trigger] candidate(files, last, j)
            &&& after.records() == self.records()
            &&& step == (PluginStepView::Finished { result: Ok(()) })
        }
    }

    /// A cache that holds nothing.
    pub fn new() -> (c: PluginCache<M>)
        ensures
            c.records() == Map::<Seq<char>, PluginRecord<M>>::empty(),
    {
        PluginCache { records: StringHashMap::new() }
    }

    /// The module that the cache holds for `path`, if it holds one.
    pub fn module(&self, path: &str) -> (m: Option<&M>)
        ensures
            match m {
                Some(m) => self.records().contains_key(path@) && *m == self.records()[path@].module,
                None => !self.records().contains_key(path@),
            },
    {
        match self.records.get(path) {
            Some(r) => Some(&r.module),
            None => None,
        }
    }

    /// The time of change of the file that the module under `path` was
    /// loaded from, if the cache holds one.
    pub fn modified(&self, path: &str) -> (m: Option<Modified>)
        ensures
            match m {
                Some(m) => self.records().contains_key(path@) && m
                    == self.records()[path@].modified,
                None => !self.records().contains_key(path@),
            },
    {
        match self.records.get(path) {
            Some(r) => Some(r.modified),
            None => None,
        }
    }

    /// Goes on with the scan of `files` behind `last`.
    fn advance(&mut self, files: Vec<PluginFile>, last: Option<&str>) -> (step: PluginStep)
        ensures
            old(self).moves_on(
                views(files@),
                text_of(last),
                final(self),
                step@,
            ),
    {
        let ghost from: Option<Seq<char>> = text_of(last);
        match next_after(&files, last) {
            None => PluginStep::Finished { result: Ok(()) },
            Some(i) => {
                let file: &PluginFile = &files[i];
                let current: bool = match self.records.get(file.path.as_str()) {
                    Some(r) => r.modified == file.modified,
                    None => false,
                };
                if current {
                    let step = PluginStep::Invoke { ticket: InvokeTicket { files, at: i } };
                    step
                } else {
                    self.records.remove(file.path.as_str());
                    let step = PluginStep::Load { ticket: LoadTicket { files, at: i } };
                    step
                }
            },
        }
    }

    /// Starts a scan of the plugin directory as `files` lists it.
    ///
    /// The plugins are visited in the order of their paths in the
    /// dictionary, whatever the order of the listing; a path that is listed
    /// twice is visited once, as it is listed first.
    pub fn scan(&mut self, files: Vec<PluginFile>) -> (step: PluginStep)
        ensures
            old(self).moves_on(views(files@), None, final(self), step@),
    {
        self.advance(files, None)
    }

    /// Goes on with a scan after the file of `ticket` was loaded, or was
    /// not.
    ///
    /// A module that was loaded is kept under the file's path with the
    /// file's time of change, and is to be called next. A file that could
    /// not be loaded is passed over: the scan goes on behind it.
    pub fn loaded(&mut self, ticket: LoadTicket, module: Option<M>) -> (step: PluginStep)
        ensures
            match module {
                Some(m) => {
                    &&& final(self).records() == old(self).records().insert(
                        ticket.file().path,
                        PluginRecord { modified: ticket.file().modified, module: m },
                    )
                    &&& step@ == (PluginStepView::Invoke { files: ticket.files(), at: ticket.at() })
                },
                None => old(self).moves_on(
                    ticket.files(),
                    Some(ticket.file().path),
                    final(self),
                    step@,
                ),
            },
    {
        proof {
            use_type_invariant(&ticket);
        }
        let LoadTicket { files, at } = ticket;
        match module {
            Some(m) => {
                let record = PluginRecord { modified: files[at].modified, module: m };
                self.records.insert(files[at].path.clone(), record);
                PluginStep::Invoke { ticket: InvokeTicket { files, at } }
            },
            None => {
                let last: String = files[at].path.clone();
                self.advance(files, Some(last.as_str()))
            },
        }
    }

    /// Goes on with a scan after the module of the file of `ticket` was
    /// called.
    ///
    /// After a success the scan goes on behind the file. A failure ends the
    /// scan: no further plugin is called for this line, and the failure, an
    /// ephemeral one, is the result. The cache stays as it is.
    pub fn invoked(&mut self, ticket: InvokeTicket, outcome: Result<(), Failure>) -> (step:
        PluginStep)
        ensures
            match outcome {
                Ok(()) => old(self).moves_on(
                    ticket.files(),
                    Some(ticket.file().path),
                    final(self),
                    step@,
                ),
                Err(f) => {
                    &&& final(self).records() == old(self).records()
                    &&& step@ == (PluginStepView::Finished {
                        result: Err(ErrorView::Ephemeral(f@)),
                    })
                },
            },
    {
        proof {
            use_type_invariant(&ticket);
        }
        let InvokeTicket { files, at } = ticket;
        match outcome {
            Ok(()) => {
                let last: String = files[at].path.clone();
                self.advance(files, Some(last.as_str()))
            },
            Err(f) => PluginStep::Finished { result: Err(Error::Ephemeral(f)) },
        }
    }
}

/// A file that has not changed is loaded once at most.
///
/// Let the module `module` of the file at `i` be loaded into the cache
/// `before`, which gives the cache `loaded`. Let the cache then come to hold
/// other plugins or lose some, but keep the record of that file: this is
/// `later`. Then a visit of the same path with the same time of change, in
/// whatever listing, asks for the module to be called, not loaded, and
/// leaves the cache as it is.
pub proof fn lemma_unchanged_file_is_not_loaded_again<M>(
    before: PluginCache<M>,
    loaded: PluginCache<M>,
    later: PluginCache<M>,
    files: Seq<PluginFileView>,
    i: int,
    module: M,
    again: Seq<PluginFileView>,
    j: int,
    after: PluginCache<M>,
    step: PluginStepView,
)
    requires
        loaded.records() == before.records().insert(
            files[i].path,
            PluginRecord { modified: files[i].modified, module },
        ),
        later.records().contains_key(files[i].path),
        later.records()[files[i].path] == loaded.records()[files[i].path],
        again[j] == files[i],
        later.visits(again, j, &after, step),
    ensures
        step == (PluginStepView::Invoke { files: again, at: j }),
        after.records() == later.records(),
{
}

/// A file that has changed is loaded afresh, once, before it is called.
///
/// Let the cache `before` hold a module for the path of the file at `i`,
/// loaded when the file's time of change was another. Then the visit of the
/// file asks for it to be loaded, and the cache has let go of the old
/// module by then. Once the new module is reported, the cache holds it with
/// the new time of change; the module is called; and the next visit of the
/// file, unchanged, asks for a call and no load.
pub proof fn lemma_changed_file_is_loaded_once<M>(
    before: PluginCache<M>,
    files: Seq<PluginFileView>,
    i: int,
    released: PluginCache<M>,
    first: PluginStepView,
    module: M,
    reloaded: PluginCache<M>,
    after: PluginCache<M>,
    second: PluginStepView,
)
    requires
        before.records().contains_key(files[i].path),
        before.records()[files[i].path].modified != files[i].modified,
        before.visits(files, i, &released, first),
        reloaded.records() == released.records().insert(
            files[i].path,
            PluginRecord { modified: files[i].modified, module },
        ),
        reloaded.visits(files, i, &after, second),
    ensures
        first == (PluginStepView::Load { files, at: i }),
        !released.records().contains_key(files[i].path),
        reloaded.current(files[i]),
        reloaded.records()[files[i].path].module == module,
        second == (PluginStepView::Invoke { files, at: i }),
        after.records() == reloaded.records(),
{
}

/// A plugin that fails ends the scan, and the next scan is none the worse.
///
/// The cache after a failed call is the cache before it. So the scan for
/// the next line starts where any scan starts: with the first of all the
/// plugins in the listing, in the order of the dictionary, visited as the
/// cache before the failure would have it visited.
pub proof fn lemma_failure_spares_the_next_scan<M>(
    before: PluginCache<M>,
    failed: PluginCache<M>,
    files: Seq<PluginFileView>,
    i: int,
    after: PluginCache<M>,
    step: PluginStepView,
)
    requires
        failed.records() == before.records(),
        0 <= i < files.len(),
        eligible(files[i].path),
        forall|j: int| 0 <= j < files.len() && eligible(files[j].path) ==> !precedes(#[trigger]
                files[j].path, files[i].path),
        forall|j: int| 0 <= j < i ==> (#[trigger] files[j]).path != files[i].path,
        failed.moves_on(files, None, &after, step),
    ensures
        before.visits(files, i, &after, step),
{
    assert(is_next(files, None, i));
    if exists|k: int| #[trigger] is_next(files, None, k) && failed.visits(files, k, &after, step) {
        let k = choose|k: int| #[trigger]
            is_next(files, None, k) && failed.visits(files, k, &after, step);
        lemma_next_is_unique(files, None, i, k);
    }
}

/// A scan passes over no plugin.
///
/// The file that is visited next behind the path `last` is the plugin
/// whose path follows `last` most closely: the path of no other plugin lies
/// between the two.
pub proof fn lemma_scan_passes_over_nothing(
    files: Seq<PluginFileView>,
    last: Option<Seq<char>>,
    i: int,
    j: int,
)
    requires
        is_next(files, last, i),
        0 <= j < files.len(),
        eligible(files[j].path),
        last matches Some(l) ==> precedes(l, files[j].path),
    ensures
        files[j].path == files[i].path || precedes(files[i].path, files[j].path),
{
    assert(candidate(files, last, j));
    lemma_precedes_total(files[i].path, files[j].path);
}

/// The path behind which the visit at `k` of a scan looks for its file: the
/// path of the visit before it, and none for the first visit.
pub open spec fn visited_before(files: Seq<PluginFileView>, visited: Seq<int>, k: int) -> Option<
    Seq<char>,
> {
    if k == 0 {
        None
    } else {
        Some(files[visited[k - 1]].path)
    }
}

/// Whether `visited` lists the places, in `files`, of the files that a scan
/// visits from its start to its end, none of the calls failing.
#[verifier::opaque]
pub open spec fn whole_scan(files: Seq<PluginFileView>, visited: Seq<int>) -> bool {
    &&& forall|k: int|
        0 <= k < visited.len() ==> is_next(
            files,
            visited_before(files, visited, k),
            #[trigger] visited[k],
        )
    &&& forall|j: int|
        !#[trigger] candidate(files, visited_before(files, visited, visited.len() as int), j)
}

/// A plugin whose path lies behind the visit before `k` is visited at `k` or
/// later.
proof fn lemma_scan_reaches(files: Seq<PluginFileView>, visited: Seq<int>, j: int, k: int)
    requires
        whole_scan(files, visited),
        0 <= j < files.len(),
        eligible(files[j].path),
        0 <= k <= visited.len(),
        visited_before(files, visited, k) matches Some(l) ==> precedes(l, files[j].path),
    ensures
        exists|n: int| k <= n < visited.len() && files[#[trigger] visited[n]].path == files[j].path,
    decreases visited.len() - k,
{
    reveal(whole_scan);
    assert(candidate(files, visited_before(files, visited, k), j));
    if k < visited.len() {
        lemma_scan_passes_over_nothing(files, visited_before(files, visited, k), visited[k], j);
        if files[j].path != files[visited[k]].path {
            lemma_scan_reaches(files, visited, j, k + 1);
        }
    }
}

/// A scan visits every plugin of the listing.
///
/// Whatever became of the scan before it, a scan that runs to its end
/// visits a file of every path in the listing that names a plugin.
pub proof fn lemma_scan_visits_every_plugin(
    files: Seq<PluginFileView>,
    visited: Seq<int>,
    j: int,
)
    requires
        whole_scan(files, visited),
        0 <= j < files.len(),
        eligible(files[j].path),
    ensures
        exists|n: int| 0 <= n < visited.len() && files[#[trigger] visited[n]].path == files[j].path,
{
    lemma_scan_reaches(files, visited, j, 0);
}

/// Each visit of a scan is of a path behind the path of the visit before.
proof fn lemma_scan_steps_forward(files: Seq<PluginFileView>, visited: Seq<int>, n: int)
    requires
        whole_scan(files, visited),
        0 < n < visited.len(),
    ensures
        precedes(files[visited[n - 1]].path, files[visited[n]].path),
{
    reveal(whole_scan);
}

/// A scan visits the plugins in the order of the dictionary, each path
/// once.
pub proof fn lemma_scan_goes_forward(files: Seq<PluginFileView>, visited: Seq<int>, m: int, n: int)
    requires
        whole_scan(files, visited),
        0 <= m < n < visited.len(),
    ensures
        precedes(files[visited[m]].path, files[visited[n]].path),
    decreases n - m,
{
    lemma_scan_steps_forward(files, visited, n);
    if m + 1 < n {
        lemma_scan_goes_forward(files, visited, m, n - 1);
        lemma_precedes_transitive(
            files[visited[m]].path,
            files[visited[n - 1]].path,
            files[visited[n]].path,
        );
    }
}

} // verus!
