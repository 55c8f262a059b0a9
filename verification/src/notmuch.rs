//! The mail plugin: a query is handed to the mail index, and the threads that
//! the index returns are shown in its order.

use crate::plugin::PopLauncherPlugin;
use crate::protocol::{
    append_entry, appended, close_pass, closing_launch, lemma_empty_pass, lemma_pass_shape,
    no_launch, open_pass, opened, pass, plain_result, views, Launch, LaunchView, Response,
    ResponseView, SearchResult, SearchResultView, Spawn, SpawnView,
};
use crate::results::ResultList;
use crate::text::{after, has_prefix, join2, strip_prefix};
use vstd::prelude::*;
use vstd::string::*;

verus! {

/// The word that claims a query for this plugin.
pub const PLUGIN_PREFIX: &'static str = "notmuch";

/// The most results that one pass shows.
pub const MAX_RESULTS: usize = 20;

/// The beginning of every query that is meant for this plugin: the reserved
/// word and a blank.
pub open spec fn claim() -> Seq<char> {
    "notmuch"@ + " "@
}

/// A thread of the mail index.
#[derive(Debug, Clone)]
pub struct Thread {
    /// The identifier of the thread in the index.
    pub id: String,
    pub subject: String,
}

/// A `Thread`, with its texts as sequences of characters.
pub struct ThreadView {
    pub id: Seq<char>,
    pub subject: Seq<char>,
}

impl View for Thread {
    type V = ThreadView;

    open spec fn view(&self) -> ThreadView {
        ThreadView { id: self.id@, subject: self.subject@ }
    }
}

impl Thread {
    /// A copy of the thread.
    pub fn duplicate(&self) -> (copy: Thread)
        ensures
            copy@ == self@,
    {
        Thread { id: self.id.clone(), subject: self.subject.clone() }
    }
}

/// The views of a list of threads.
pub open spec fn thread_views(threads: Seq<Thread>) -> Seq<ThreadView> {
    threads.map_values(|t: Thread| t@)
}

/// The query for the mail index that `input` holds: its text after the claim,
/// or nothing where the input is not meant for this plugin.
pub open spec fn index_query(input: Seq<char>) -> Option<Seq<char>> {
    if has_prefix(input, claim()) {
        Some(after(input, claim().len()))
    } else {
        None
    }
}

/// Reads the query for the mail index from the launcher's input.
pub fn query_of(input: &str) -> (query: Option<String>)
    ensures
        match query {
            Some(q) => Some(q@),
            None => None,
        } == index_query(input@),
{
    let claimed = join2(PLUGIN_PREFIX, " ");
    match strip_prefix(input, claimed.as_str()) {
        Some(text) => Some(String::from_str(text)),
        None => None,
    }
}

/// The first `n` of `threads`, or all of them where there are fewer.
pub open spec fn first(threads: Seq<ThreadView>, n: nat) -> Seq<ThreadView> {
    if threads.len() <= n {
        threads
    } else {
        threads.subrange(0, n as int)
    }
}

/// What a search for `input` shows of the threads that the index returned for
/// it: the first twenty, in the order of the index; nothing where the input is
/// not meant for this plugin.
pub open spec fn found(input: Seq<char>, threads: Seq<ThreadView>) -> Seq<ThreadView> {
    if has_prefix(input, claim()) {
        first(threads, 20)
    } else {
        Seq::<ThreadView>::empty()
    }
}

/// The entry under which `thread` is shown, at position `id`.
pub open spec fn entry(id: u32, thread: ThreadView) -> SearchResultView {
    plain_result(id, thread.subject, "Description"@, None)
}

/// The entries under which `items` are shown: each at its position.
pub open spec fn entries_of(items: Seq<ThreadView>) -> Seq<SearchResultView> {
    Seq::new(items.len(), |i: int| entry(i as u32, items[i]))
}

/// The address under which a thread is opened.
pub open spec fn thread_uri(thread: ThreadView) -> Seq<char> {
    "notmuch://thread/"@ + thread.id
}

/// The program that opens `file` with the application that the desktop has
/// for it.
pub open spec fn opener(file: Seq<char>) -> SpawnView {
    SpawnView { program: "xdg-open"@, args: seq![file] }
}

/// The program that opens `file` with the application that the desktop has
/// for it.
pub fn xdg_open(file: &str) -> (spawn: Spawn)
    ensures
        spawn@ == opener(file@),
{
    let mut args: Vec<String> = Vec::new();
    args.push(String::from_str(file));
    let spawn = Spawn { program: String::from_str("xdg-open"), args };
    assert(spawn@.args =~= seq![file@]);
    spawn
}

/// What activating the result `id` asks for: the thread is opened and the
/// interaction closed. An identifier that the list does not hold asks for
/// nothing.
pub open spec fn activation(items: Seq<ThreadView>, id: u32) -> LaunchView {
    if id < items.len() {
        closing_launch(Some(opener(thread_uri(items[id as int]))))
    } else {
        no_launch()
    }
}

/// The state of the mail plugin: what the current search pass found.
pub struct NotmuchPlugin {
    items: ResultList<Thread>,
}

impl View for NotmuchPlugin {
    type V = Seq<ThreadView>;

    closed spec fn view(&self) -> Seq<ThreadView> {
        thread_views(self.items@)
    }
}

impl NotmuchPlugin {
    /// A plugin that has found nothing yet.
    pub fn new() -> (plugin: Self)
        ensures
            plugin@ == Seq::<ThreadView>::empty(),
    {
        let plugin = NotmuchPlugin { items: ResultList::new() };
        assert(plugin@ =~= Seq::<ThreadView>::empty());
        plugin
    }

    /// The number of results of the current pass.
    pub fn len(&self) -> (n: usize)
        ensures
            n == self@.len(),
    {
        self.items.len()
    }

    /// The result with identifier `id`, where the current pass holds one.
    pub fn get(&self, id: u32) -> (found: Option<&Thread>)
        ensures
            found is Some <==> id < self@.len(),
            found matches Some(item) ==> item@ == self@[id as int],
    {
        self.items.get(id)
    }

    /// The entry for a thread that is appended next.
    pub fn format_item(&self, item: &Thread) -> (result: SearchResult)
        requires
            self@.len() <= u32::MAX,
        ensures
            result@ == entry(self@.len() as u32, item@),
    {
        let id: u32 = self.items.len() as u32;
        SearchResult::plain(id, item.subject.clone(), String::from_str("Description"), None)
    }

    /// Forgets the results of the last pass and begins a new one.
    fn clear(&mut self) -> (responses: Vec<Response>)
        ensures
            final(self)@ == Seq::<ThreadView>::empty(),
            views(responses@) == opened(entries_of(final(self)@)),
    {
        self.items.clear();
        assert(self@ =~= Seq::<ThreadView>::empty());
        assert(entries_of(self@) =~= Seq::<SearchResultView>::empty());
        open_pass()
    }

    /// Appends a thread to the pass.
    fn add_item(&mut self, responses: &mut Vec<Response>, item: Thread)
        requires
            old(self)@.len() <= u32::MAX,
            views(old(responses)@) == opened(entries_of(old(self)@)),
        ensures
            final(self)@ == old(self)@.push(item@),
            views(final(responses)@) == opened(entries_of(final(self)@)),
    {
        let result = self.format_item(&item);
        append_entry(responses, result, Ghost(entries_of(self@)));
        self.items.push(item);
        assert(self@ =~= old(self)@.push(item@));
        assert(entries_of(self@) =~= entries_of(old(self)@).push(result@));
    }

    /// Answers a search, given the threads that the index returned for the
    /// query: the results of the last pass are forgotten, and the pass that is
    /// returned holds the first twenty threads, each at its position. An input
    /// that is not meant for this plugin finds nothing.
    pub fn search(&mut self, input: &str, threads: &Vec<Thread>) -> (responses: Vec<Response>)
        ensures
            final(self)@ == found(input@, thread_views(threads@)),
            views(responses@) == pass(entries_of(final(self)@)),
    {
        let mut responses = self.clear();
        if query_of(input).is_some() {
            let shown: usize = if threads.len() <= MAX_RESULTS {
                threads.len()
            } else {
                MAX_RESULTS
            };
            let mut n: usize = 0;
            while n < shown
                invariant
                    n <= shown <= 20,
                    shown <= threads.len(),
                    self@.len() == n,
                    forall|k: int| 0 <= k < n ==> (#[trigger] self@[k]) == threads[k]@,
                    views(responses@) == opened(entries_of(self@)),
                decreases shown - n,
            {
                self.add_item(&mut responses, threads[n].duplicate());
                n += 1;
            }
            assert(self@ =~= found(input@, thread_views(threads@)));
        }
        close_pass(&mut responses, Ghost(entries_of(self@)));
        responses
    }

    /// Activates the result `id`: the thread is handed out to be opened, and the
    /// interaction is closed. An identifier that the list does not hold is
    /// ignored.
    pub fn activate(&self, id: u32) -> (launch: Launch)
        ensures
            launch@ == activation(self@, id),
    {
        let item = match self.items.get(id) {
            Some(item) => item,
            None => {
                return Launch::none();
            },
        };
        let uri = join2("notmuch://thread/", item.id.as_str());
        Launch::closing(Some(xdg_open(uri.as_str())))
    }
}

impl PopLauncherPlugin for NotmuchPlugin {
    /// The threads that the index returned for the query of a search.
    type World = Vec<Thread>;

    type Answer = Launch;

    open spec fn ready(&self, world: &Vec<Thread>) -> bool {
        true
    }

    open spec fn is_silent(answer: &Launch) -> bool {
        answer@ == no_launch()
    }

    open spec fn searched(
        pre: &Self,
        query: Seq<char>,
        world: &Vec<Thread>,
        post: &Self,
        answer: &Launch,
    ) -> bool {
        &&& post@ == found(query, thread_views(world@))
        &&& answer@ == (LaunchView { responses: pass(entries_of(post@)), spawn: None })
    }

    open spec fn activated(
        pre: &Self,
        id: u32,
        world: &Vec<Thread>,
        post: &Self,
        answer: &Launch,
    ) -> bool {
        post@ == pre@ && answer@ == activation(pre@, id)
    }

    open spec fn completed(
        pre: &Self,
        id: u32,
        world: &Vec<Thread>,
        post: &Self,
        answer: &Launch,
    ) -> bool {
        post@ == pre@ && answer@ == no_launch()
    }

    fn silent() -> (answer: Launch) {
        Launch::none()
    }

    fn search(&mut self, query: &str, world: &Vec<Thread>) -> (answer: Launch) {
        let responses = NotmuchPlugin::search(self, query, world);
        Launch { responses, spawn: None }
    }

    fn activate(&mut self, id: u32, world: &Vec<Thread>) -> (answer: Launch) {
        NotmuchPlugin::activate(self, id)
    }

    /// Completing does nothing.
    fn complete(&mut self, id: u32, world: &Vec<Thread>) -> (answer: Launch) {
        Launch::none()
    }
}

/// An input that does not begin with the claim finds nothing: its pass is
/// `Clear` followed by `Finished`, with no `Append`.
pub proof fn lemma_unclaimed_finds_nothing(input: Seq<char>, threads: Seq<ThreadView>)
    requires
        !has_prefix(input, claim()),
    ensures
        found(input, threads) == Seq::<ThreadView>::empty(),
        pass(entries_of(found(input, threads))) == seq![ResponseView::Clear, ResponseView::Finished],
{
    lemma_empty_pass();
    assert(entries_of(Seq::<ThreadView>::empty()) =~= Seq::<SearchResultView>::empty());
}

/// A pass holds one `Append` for each result of the list, and the n-th of them
/// carries the identifier n - 1.
pub proof fn lemma_pass_numbers_results(items: Seq<ThreadView>)
    requires
        items.len() <= u32::MAX,
    ensures
        appended(pass(entries_of(items))) == items.len(),
        forall|n: int|
            1 <= n <= items.len() ==> #[trigger] pass(entries_of(items))[n] == ResponseView::Append(
                entry((n - 1) as u32, items[n - 1]),
            ),
        forall|n: int|
            1 <= n <= items.len() ==> (#[trigger] pass(entries_of(items))[n])->Append_0.id == n - 1,
{
    let entries = entries_of(items);
    assert forall|i: int| 0 <= i < entries.len() implies (#[trigger] entries[i]).id == i by {
        assert(entries[i] == entry(i as u32, items[i]));
    }
    lemma_pass_shape(entries);
}

} // verus!
