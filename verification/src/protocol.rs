//! The values exchanged with the launcher.

use vstd::prelude::*;
use vstd::string::*;

verus! {

/// A request sent by the launcher to a plugin.
#[derive(Debug, Clone)]
pub enum Request {
    /// Perform a search for the given query.
    Search(String),
    /// Activate the result with the given identifier.
    Activate(u32),
    /// Activate a context entry of a result.
    ActivateContext { id: u32, context: u32 },
    /// Complete the query from the result with the given identifier.
    Complete(u32),
    /// Ask for the context entries of a result.
    Context(u32),
    /// The launcher asks the plugin to end.
    Exit,
    /// Abort whatever is in progress.
    Interrupt,
    /// Ask the application behind a result to quit.
    Quit(u32),
}

/// A `Request`, with its query as a sequence of characters.
pub enum RequestView {
    Search(Seq<char>),
    Activate(u32),
    ActivateContext { id: u32, context: u32 },
    Complete(u32),
    Context(u32),
    Exit,
    Interrupt,
    Quit(u32),
}

impl View for Request {
    type V = RequestView;

    open spec fn view(&self) -> RequestView {
        match self {
            Request::Search(query) => RequestView::Search(query@),
            Request::Activate(id) => RequestView::Activate(*id),
            Request::ActivateContext { id, context } => RequestView::ActivateContext {
                id: *id,
                context: *context,
            },
            Request::Complete(id) => RequestView::Complete(*id),
            Request::Context(id) => RequestView::Context(*id),
            Request::Exit => RequestView::Exit,
            Request::Interrupt => RequestView::Interrupt,
            Request::Quit(id) => RequestView::Quit(*id),
        }
    }
}

/// Where the launcher finds the icon of a result.
#[derive(Debug, Clone)]
pub enum Icon {
    /// An icon of the icon theme, by its name.
    Name(String),
    /// The icon of a MIME type.
    Mime(String),
}

/// An `Icon`, with its text as a sequence of characters.
pub enum IconView {
    Name(Seq<char>),
    Mime(Seq<char>),
}

impl View for Icon {
    type V = IconView;

    open spec fn view(&self) -> IconView {
        match self {
            Icon::Name(name) => IconView::Name(name@),
            Icon::Mime(mime) => IconView::Mime(mime@),
        }
    }
}

/// One entry of a search pass, as it is shown to the user.
#[derive(Debug, Clone)]
pub struct SearchResult {
    /// The position of the entry in the pass it belongs to.
    pub id: u32,
    pub name: String,
    pub description: String,
    pub keywords: Option<Vec<String>>,
    pub icon: Option<Icon>,
    pub exec_command: Option<String>,
    pub window: Option<(u32, u32)>,
}

/// A `SearchResult`, with its texts as sequences of characters.
pub struct SearchResultView {
    pub id: u32,
    pub name: Seq<char>,
    pub description: Seq<char>,
    pub keywords: Option<Seq<Seq<char>>>,
    pub icon: Option<IconView>,
    pub exec_command: Option<Seq<char>>,
    pub window: Option<(u32, u32)>,
}

impl View for SearchResult {
    type V = SearchResultView;

    open spec fn view(&self) -> SearchResultView {
        SearchResultView {
            id: self.id,
            name: self.name@,
            description: self.description@,
            keywords: match self.keywords {
                Some(words) => Some(words@.map_values(|w: String| w@)),
                None => None,
            },
            icon: match self.icon {
                Some(icon) => Some(icon@),
                None => None,
            },
            exec_command: match self.exec_command {
                Some(command) => Some(command@),
                None => None,
            },
            window: self.window,
        }
    }
}

/// The entry that a plugin of this crate sends: a name, a description and an
/// icon, and nothing else.
pub open spec fn plain_result(
    id: u32,
    name: Seq<char>,
    description: Seq<char>,
    icon: Option<IconView>,
) -> SearchResultView {
    SearchResultView { id, name, description, keywords: None, icon, exec_command: None, window: None }
}

impl SearchResult {
    /// An entry with a name, a description and an icon, and nothing else.
    pub fn plain(id: u32, name: String, description: String, icon: Option<Icon>) -> (r: SearchResult)
        ensures
            r@ == plain_result(
                id,
                name@,
                description@,
                match icon {
                    Some(i) => Some(i@),
                    None => None,
                },
            ),
    {
        SearchResult { id, name, description, keywords: None, icon, exec_command: None, window: None }
    }
}

/// What a plugin answers to the launcher.
#[derive(Debug, Clone)]
pub enum Response {
    /// Discard every result shown so far.
    Clear,
    /// Add one result.
    Append(SearchResult),
    /// The search pass is complete.
    Finished,
    /// Replace the text of the query box.
    Fill(String),
    /// The plugin is done with this interaction.
    Close,
}

/// A `Response`, with its texts as sequences of characters.
pub enum ResponseView {
    Clear,
    Append(SearchResultView),
    Finished,
    Fill(Seq<char>),
    Close,
}

impl View for Response {
    type V = ResponseView;

    open spec fn view(&self) -> ResponseView {
        match self {
            Response::Clear => ResponseView::Clear,
            Response::Append(result) => ResponseView::Append(result@),
            Response::Finished => ResponseView::Finished,
            Response::Fill(text) => ResponseView::Fill(text@),
            Response::Close => ResponseView::Close,
        }
    }
}

/// The views of a run of responses.
pub open spec fn views(responses: Seq<Response>) -> Seq<ResponseView> {
    responses.map_values(|r: Response| r@)
}

/// The number of `Append` among `responses`.
pub open spec fn appended(responses: Seq<ResponseView>) -> nat
    decreases responses.len(),
{
    if responses.len() == 0 {
        0
    } else if responses.last() is Append {
        1 + appended(responses.drop_last())
    } else {
        appended(responses.drop_last())
    }
}

/// The line that carries one encoded value: the value, then a line feed.
pub open spec fn framed(encoded: Seq<char>) -> Seq<char> {
    encoded.push('\n')
}

/// Frames one encoded value as a line of the protocol.
pub fn frame_line(encoded: String) -> (line: String)
    ensures
        line@ == framed(encoded@),
{
    let mut line = encoded;
    line.append("\n");
    proof {
        reveal_strlit("\n");
        assert("\n"@ =~= seq!['\n']);
        assert(line@ =~= framed(encoded@));
    }
    line
}

/// A search pass that is still open: `Clear`, then one `Append` for each entry.
pub open spec fn opened(entries: Seq<SearchResultView>) -> Seq<ResponseView> {
    seq![ResponseView::Clear] + entries.map_values(|e: SearchResultView| ResponseView::Append(e))
}

/// A whole search pass: `Clear`, one `Append` for each entry, then `Finished`.
pub open spec fn pass(entries: Seq<SearchResultView>) -> Seq<ResponseView> {
    opened(entries).push(ResponseView::Finished)
}

/// Whether each entry carries its own position as its identifier.
pub open spec fn is_numbered(entries: Seq<SearchResultView>) -> bool {
    forall|i: int| 0 <= i < entries.len() ==> (#[trigger] entries[i]).id == i
}

/// An open pass with one more entry is the open pass followed by its `Append`.
pub proof fn lemma_opened_push(entries: Seq<SearchResultView>, entry: SearchResultView)
    ensures
        opened(entries.push(entry)) == opened(entries).push(ResponseView::Append(entry)),
        opened(Seq::<SearchResultView>::empty()) == seq![ResponseView::Clear],
{
    assert(opened(entries.push(entry)) =~= opened(entries).push(ResponseView::Append(entry)));
    assert(opened(Seq::<SearchResultView>::empty()) =~= seq![ResponseView::Clear]);
}

/// An open pass holds as many `Append` as it has entries.
proof fn lemma_opened_appended(entries: Seq<SearchResultView>)
    ensures
        appended(opened(entries)) == entries.len(),
    decreases entries.len(),
{
    if entries.len() == 0 {
        lemma_opened_push(entries, arbitrary());
        assert(entries =~= Seq::<SearchResultView>::empty());
        let only = seq![ResponseView::Clear];
        assert(only.drop_last() =~= Seq::<ResponseView>::empty());
        assert(appended(only.drop_last()) == 0);
    } else {
        let fewer = entries.drop_last();
        lemma_opened_push(fewer, entries.last());
        assert(entries =~= fewer.push(entries.last()));
        lemma_opened_appended(fewer);
        assert(opened(entries).drop_last() =~= opened(fewer));
    }
}

/// The shape of a search pass: it begins with `Clear` and ends with `Finished`;
/// between them stands one `Append` for each entry, the n-th of them carrying
/// the n-th entry; so the pass holds as many `Append` as there are entries, and
/// where the entries are numbered by position, the n-th `Append` has the
/// identifier n - 1.
pub proof fn lemma_pass_shape(entries: Seq<SearchResultView>)
    ensures
        pass(entries).len() == entries.len() + 2,
        pass(entries)[0] == ResponseView::Clear,
        pass(entries).last() == ResponseView::Finished,
        forall|n: int|
            1 <= n <= entries.len() ==> #[trigger] pass(entries)[n] == ResponseView::Append(
                entries[n - 1],
            ),
        appended(pass(entries)) == entries.len(),
        is_numbered(entries) ==> forall|n: int|
            1 <= n <= entries.len() ==> (#[trigger] pass(entries)[n])->Append_0.id == n - 1,
{
    lemma_opened_appended(entries);
    assert(pass(entries).drop_last() =~= opened(entries));
}

/// A pass without entries is `Clear` followed by `Finished`.
pub proof fn lemma_empty_pass()
    ensures
        pass(Seq::<SearchResultView>::empty()) == seq![ResponseView::Clear, ResponseView::Finished],
{
    assert(pass(Seq::<SearchResultView>::empty()) =~= seq![
        ResponseView::Clear,
        ResponseView::Finished,
    ]);
}

/// A program to start, detached from the plugin, with its arguments.
#[derive(Debug, Clone)]
pub struct Spawn {
    pub program: String,
    pub args: Vec<String>,
}

/// A `Spawn`, with its texts as sequences of characters.
pub struct SpawnView {
    pub program: Seq<char>,
    pub args: Seq<Seq<char>>,
}

impl View for Spawn {
    type V = SpawnView;

    open spec fn view(&self) -> SpawnView {
        SpawnView { program: self.program@, args: self.args@.map_values(|a: String| a@) }
    }
}

/// Begins a search pass: the responses so far are `Clear` alone.
pub(crate) fn open_pass() -> (responses: Vec<Response>)
    ensures
        views(responses@) == opened(Seq::<SearchResultView>::empty()),
{
    let mut responses: Vec<Response> = Vec::new();
    responses.push(Response::Clear);
    assert(views(responses@) =~= opened(Seq::<SearchResultView>::empty()));
    responses
}

/// Adds the `Append` of one more entry to an open pass.
pub(crate) fn append_entry(responses: &mut Vec<Response>, entry: SearchResult, Ghost(entries): Ghost<
    Seq<SearchResultView>,
>)
    requires
        views(old(responses)@) == opened(entries),
    ensures
        views(final(responses)@) == opened(entries.push(entry@)),
{
    proof {
        lemma_opened_push(entries, entry@);
    }
    responses.push(Response::Append(entry));
    assert(views(responses@) =~= views(old(responses)@).push(ResponseView::Append(entry@)));
}

/// Ends a search pass with `Finished`.
pub(crate) fn close_pass(responses: &mut Vec<Response>, Ghost(entries): Ghost<Seq<SearchResultView>>)
    requires
        views(old(responses)@) == opened(entries),
    ensures
        views(final(responses)@) == pass(entries),
{
    responses.push(Response::Finished);
    assert(views(responses@) =~= views(old(responses)@).push(ResponseView::Finished));
}

/// What a plugin that starts programs asks for in answer to a request:
/// responses to send, in their order, and at most one program to start.
#[derive(Debug, Clone)]
pub struct Launch {
    pub responses: Vec<Response>,
    pub spawn: Option<Spawn>,
}

/// A `Launch`, as plain values.
pub struct LaunchView {
    pub responses: Seq<ResponseView>,
    pub spawn: Option<SpawnView>,
}

impl View for Launch {
    type V = LaunchView;

    open spec fn view(&self) -> LaunchView {
        LaunchView {
            responses: views(self.responses@),
            spawn: match self.spawn {
                Some(spawn) => Some(spawn@),
                None => None,
            },
        }
    }
}

/// The launch that asks for nothing.
pub open spec fn no_launch() -> LaunchView {
    LaunchView { responses: Seq::<ResponseView>::empty(), spawn: None }
}

/// The launch that ends the interaction and starts `spawn`, if there is one.
pub open spec fn closing_launch(spawn: Option<SpawnView>) -> LaunchView {
    LaunchView { responses: seq![ResponseView::Close], spawn }
}

impl Launch {
    /// The launch that asks for nothing.
    pub fn none() -> (launch: Launch)
        ensures
            launch@ == no_launch(),
    {
        let launch = Launch { responses: Vec::new(), spawn: None };
        assert(launch@.responses =~= Seq::<ResponseView>::empty());
        launch
    }

    /// The launch that ends the interaction and starts `spawn`, if there is one.
    pub fn closing(spawn: Option<Spawn>) -> (launch: Launch)
        ensures
            launch@ == closing_launch(
                match spawn {
                    Some(s) => Some(s@),
                    None => None,
                },
            ),
    {
        let mut responses: Vec<Response> = Vec::new();
        responses.push(Response::Close);
        let launch = Launch { responses, spawn };
        assert(launch@.responses =~= seq![ResponseView::Close]);
        launch
    }
}

} // verus!
