//! The documentation plugin: a query names a module path and a term, and the
//! entries of that module's directory are ranked against the term.

use crate::plugin::PopLauncherPlugin;
use crate::protocol::{
    append_entry, appended, close_pass, closing_launch, lemma_empty_pass, lemma_pass_shape,
    no_launch, open_pass, opened, pass, plain_result, views, Launch, LaunchView, Response,
    ResponseView, SearchResult, SearchResultView, Spawn, SpawnView,
};
use crate::rank::{is_ranking, ranked, ranked_matches, scores_of, texts};
use crate::results::ResultList;
use crate::text::{
    after, has_prefix, join, join2, joined, pieces, same_text, split,
    strip_prefix,
};
use vstd::prelude::*;
use vstd::string::*;

verus! {

/// The word that claims a query for this plugin.
pub const PLUGIN_PREFIX: &'static str = "rust";

/// The most results that one pass shows.
pub const MAX_RESULTS: usize = 10;

/// The beginning of every query that is meant for this plugin: the reserved
/// word and a blank.
pub open spec fn claim() -> Seq<char> {
    "rust"@ + " "@
}

/// The kind of a documented item.
#[derive(Debug, Clone, Copy, PartialEq, Eq, Structural)]
pub enum Type {
    Constant,
    Enum,
    Function,
    Keyword,
    Macro,
    Module,
    Primitive,
    Struct,
    Trait,
    Type,
}

impl Type {
    /// The kind that a file of the documentation tree is tagged with, where the
    /// tag is a known one.
    pub open spec fn spec_from(tag: Seq<char>) -> Option<Type> {
        if tag == "fn"@ {
            Some(Type::Function)
        } else if tag == "struct"@ {
            Some(Type::Struct)
        } else if tag == "constant"@ {
            Some(Type::Constant)
        } else if tag == "trait"@ {
            Some(Type::Trait)
        } else if tag == "macro"@ {
            Some(Type::Macro)
        } else if tag == "type"@ {
            Some(Type::Type)
        } else if tag == "enum"@ {
            Some(Type::Enum)
        } else if tag == "primitive"@ {
            Some(Type::Primitive)
        } else if tag == "keyword"@ {
            Some(Type::Keyword)
        } else {
            None
        }
    }

    /// The word that describes the kind in a result.
    pub open spec fn spec_description(self) -> Seq<char> {
        match self {
            Type::Function => "function"@,
            Type::Struct => "struct"@,
            Type::Keyword => "keyword"@,
            Type::Macro => "macro"@,
            Type::Trait => "trait"@,
            Type::Module => "module"@,
            Type::Primitive => "primitive"@,
            Type::Constant => "contant"@,
            Type::Enum => "enum"@,
            Type::Type => "type"@,
        }
    }

    /// The kind that a file of the documentation tree is tagged with. An
    /// unknown tag is an error that names it.
    pub fn try_from(value: &str) -> (r: Result<Type, String>)
        ensures
            match r {
                Ok(kind) => Type::spec_from(value@) == Some(kind),
                Err(why) => Type::spec_from(value@) is None && why@ == "Could not find type "@
                    + value@,
            },
    {
        if same_text(value, "fn") {
            Ok(Type::Function)
        } else if same_text(value, "struct") {
            Ok(Type::Struct)
        } else if same_text(value, "constant") {
            Ok(Type::Constant)
        } else if same_text(value, "trait") {
            Ok(Type::Trait)
        } else if same_text(value, "macro") {
            Ok(Type::Macro)
        } else if same_text(value, "type") {
            Ok(Type::Type)
        } else if same_text(value, "enum") {
            Ok(Type::Enum)
        } else if same_text(value, "primitive") {
            Ok(Type::Primitive)
        } else if same_text(value, "keyword") {
            Ok(Type::Keyword)
        } else {
            Err(join2("Could not find type ", value))
        }
    }

    /// The word that describes the kind in a result.
    pub fn description(&self) -> (word: String)
        ensures
            word@ == self.spec_description(),
    {
        match self {
            Type::Function => String::from_str("function"),
            Type::Struct => String::from_str("struct"),
            Type::Keyword => String::from_str("keyword"),
            Type::Macro => String::from_str("macro"),
            Type::Trait => String::from_str("trait"),
            Type::Module => String::from_str("module"),
            Type::Primitive => String::from_str("primitive"),
            Type::Constant => String::from_str("contant"),
            Type::Enum => String::from_str("enum"),
            Type::Type => String::from_str("type"),
        }
    }
}

/// One entry of a directory of the documentation tree, as it was listed.
#[derive(Debug, Clone)]
pub struct Listed {
    /// The name of the file or directory.
    pub file_name: String,
    /// Whether it is a directory.
    pub is_dir: bool,
    /// Its full path.
    pub path: String,
}

/// A `Listed`, with its texts as sequences of characters.
pub struct ListedView {
    pub file_name: Seq<char>,
    pub is_dir: bool,
    pub path: Seq<char>,
}

impl View for Listed {
    type V = ListedView;

    open spec fn view(&self) -> ListedView {
        ListedView { file_name: self.file_name@, is_dir: self.is_dir, path: self.path@ }
    }
}

/// A documented item.
#[derive(Debug, Clone)]
pub struct Entry {
    pub name: String,
    pub kind: Type,
    /// The page that documents the item.
    pub file_path: String,
}

/// An `Entry`, with its texts as sequences of characters.
pub struct EntryView {
    pub name: Seq<char>,
    pub kind: Type,
    pub file_path: Seq<char>,
}

impl View for Entry {
    type V = EntryView;

    open spec fn view(&self) -> EntryView {
        EntryView { name: self.name@, kind: self.kind, file_path: self.file_path@ }
    }
}

impl Entry {
    /// A copy of the entry.
    pub fn duplicate(&self) -> (copy: Entry)
        ensures
            copy@ == self@,
    {
        Entry { name: self.name.clone(), kind: self.kind, file_path: self.file_path.clone() }
    }
}

/// The views of a list of entries.
pub open spec fn entry_views(entries: Seq<Entry>) -> Seq<EntryView> {
    entries.map_values(|e: Entry| e@)
}

/// The views of a listing.
pub open spec fn listed_views(listing: Seq<Listed>) -> Seq<ListedView> {
    listing.map_values(|l: Listed| l@)
}

/// The item that a listed file or directory documents. A directory is a module,
/// documented by the index page inside it. A file is named by its kind, a dot,
/// the item's name and what follows the next dot; a file without a dot or of an
/// unknown kind documents nothing.
pub open spec fn entry_of(listed: ListedView) -> Option<EntryView> {
    if listed.is_dir {
        Some(
            EntryView {
                name: listed.file_name,
                kind: Type::Module,
                file_path: listed.path + "/index.html"@,
            },
        )
    } else {
        let parts = pieces(listed.file_name, "."@);
        if parts.len() < 2 {
            None
        } else {
            match Type::spec_from(parts[0]) {
                Some(kind) => Some(EntryView { name: parts[1], kind, file_path: listed.path }),
                None => None,
            }
        }
    }
}

/// The items that a listing documents, in the order of the listing.
pub open spec fn parsed(listing: Seq<ListedView>) -> Seq<EntryView>
    decreases listing.len(),
{
    if listing.len() == 0 {
        Seq::<EntryView>::empty()
    } else {
        match entry_of(listing.last()) {
            Some(entry) => parsed(listing.drop_last()).push(entry),
            None => parsed(listing.drop_last()),
        }
    }
}

/// Reads one listed file or directory as a documented item.
pub fn parse_listed(listed: &Listed) -> (entry: Option<Entry>)
    ensures
        match entry {
            Some(e) => Some(e@),
            None => None,
        } == entry_of(listed@),
{
    if listed.is_dir {
        return Some(
            Entry {
                name: listed.file_name.clone(),
                kind: Type::Module,
                file_path: join2(listed.path.as_str(), "/index.html"),
            },
        );
    }
    let parts = split(listed.file_name.as_str(), ".");
    if parts.len() < 2 {
        return None;
    }
    assert(parts@.map_values(|p: String| p@)[0] == parts[0]@);
    assert(parts@.map_values(|p: String| p@)[1] == parts[1]@);
    match Type::try_from(parts[0].as_str()) {
        Ok(kind) => Some(Entry { name: parts[1].clone(), kind, file_path: listed.path.clone() }),
        Err(_) => None,
    }
}

/// Reads a listing as documented items, leaving out what documents nothing.
pub fn parse_listing(listing: &Vec<Listed>) -> (entries: Vec<Entry>)
    ensures
        entry_views(entries@) == parsed(listed_views(listing@)),
        entries@.len() <= listing@.len(),
{
    let mut entries: Vec<Entry> = Vec::new();
    let mut i: usize = 0;
    assert(listed_views(listing@).subrange(0, 0) =~= Seq::<ListedView>::empty());
    assert(entry_views(entries@) =~= Seq::<EntryView>::empty());
    while i < listing.len()
        invariant
            i <= listing.len(),
            entries@.len() <= i,
            entry_views(entries@) == parsed(listed_views(listing@).subrange(0, i as int)),
        decreases listing.len() - i,
    {
        let ghost all = listed_views(listing@);
        assert(all.subrange(0, i + 1).drop_last() =~= all.subrange(0, i as int));
        assert(all.subrange(0, i + 1).last() == listing[i as int]@);
        match parse_listed(&listing[i]) {
            Some(entry) => {
                let ghost before = entry_views(entries@);
                entries.push(entry);
                assert(entry_views(entries@) =~= before.push(entry@));
            },
            None => {},
        }
        i += 1;
    }
    assert(listed_views(listing@).subrange(0, i as int) =~= listed_views(listing@));
    entries
}

/// What a query asks for.
#[derive(Debug, Clone)]
pub struct Lookup {
    /// The directory of the module to look into, below the root of the
    /// documentation: the segments of the module path, with a slash between
    /// each two.
    pub module: String,
    /// The term to rank the items of the module against.
    pub term: String,
}

/// A `Lookup`, with its texts as sequences of characters.
pub struct LookupView {
    pub module: Seq<char>,
    pub term: Seq<char>,
}

impl View for Lookup {
    type V = LookupView;

    open spec fn view(&self) -> LookupView {
        LookupView { module: self.module@, term: self.term@ }
    }
}

/// What `query` asks for: nothing where it is not meant for this plugin; else
/// its text after the claim is cut at each `::`, the last piece is the term,
/// and the pieces before it are the module path.
pub open spec fn lookup_of(query: Seq<char>) -> Option<LookupView> {
    if has_prefix(query, claim()) {
        let parts = pieces(after(query, claim().len()), "::"@);
        Some(LookupView { module: joined(parts.drop_last(), "/"@), term: parts.last() })
    } else {
        None
    }
}

/// Reads a query: which module it looks into, and for which term.
pub fn lookup(query: &str) -> (found: Option<Lookup>)
    ensures
        match found {
            Some(l) => Some(l@),
            None => None,
        } == lookup_of(query@),
{
    let claimed = join2(PLUGIN_PREFIX, " ");
    let text = match strip_prefix(query, claimed.as_str()) {
        Some(text) => text,
        None => {
            return None;
        },
    };
    let mut segments = split(text, "::");
    let ghost parts = segments@.map_values(|p: String| p@);
    let term = match segments.pop() {
        Some(term) => term,
        None => String::new(),
    };
    assert(term@ == parts.last());
    assert(segments@.map_values(|p: String| p@) =~= parts.drop_last());
    Some(Lookup { module: join(&segments, "/"), term })
}

/// The first `n` of `order`, or all of it where it is shorter.
pub open spec fn best(order: Seq<usize>, n: nat) -> Seq<usize> {
    if order.len() <= n {
        order
    } else {
        order.subrange(0, n as int)
    }
}

/// The names of `entries`.
pub open spec fn names_of(entries: Seq<EntryView>) -> Seq<Seq<char>> {
    entries.map_values(|e: EntryView| e.name)
}

/// What a search for `query` finds in the listing of its module: nothing where
/// the query is not meant for this plugin; else the ten best of the documented
/// items whose name the term matches, best first.
pub open spec fn found(query: Seq<char>, listing: Seq<ListedView>) -> Seq<EntryView> {
    match lookup_of(query) {
        Some(asked) => {
            let entries = parsed(listing);
            best(ranked(names_of(entries), asked.term), 10).map_values(|k: usize| entries[k as int])
        },
        None => Seq::<EntryView>::empty(),
    }
}

/// The entry under which `item` is shown, at position `id`.
pub open spec fn entry(id: u32, item: EntryView) -> SearchResultView {
    plain_result(id, item.name, item.kind.spec_description(), None)
}

/// The entries under which `items` are shown: each at its position.
pub open spec fn entries_of(items: Seq<EntryView>) -> Seq<SearchResultView> {
    Seq::new(items.len(), |i: int| entry(i as u32, items[i]))
}

/// The program that opens the page of `item`.
pub open spec fn opener(item: EntryView) -> SpawnView {
    SpawnView { program: "xdg-open"@, args: seq![item.file_path] }
}

/// What activating the result `id` asks for: the page of the item is opened and
/// the interaction closed. An identifier that the list does not hold asks for
/// nothing.
pub open spec fn activation(items: Seq<EntryView>, id: u32) -> LaunchView {
    if id < items.len() {
        closing_launch(Some(opener(items[id as int])))
    } else {
        no_launch()
    }
}

/// The root of the documentation as the toolchain manager prints it: the
/// output without the line feed that ends it, or `None` where it does not end
/// with one.
pub open spec fn index_path_of(output: Seq<char>) -> Option<Seq<char>> {
    if output.len() > 0 && output.last() == '\n' {
        Some(output.drop_last())
    } else {
        None
    }
}

/// Reads the path of the documentation's index page from the output of the
/// toolchain manager.
pub fn get_index_path(output: &str) -> (path: Option<String>)
    ensures
        match path {
            Some(p) => Some(p@),
            None => None,
        } == index_path_of(output@),
{
    let n: usize = output.unicode_len();
    if n > 0 && output.get_char(n - 1) == '\n' {
        let path = String::from_str(output.substring_char(0, n - 1));
        assert(path@ =~= output@.drop_last());
        Some(path)
    } else {
        None
    }
}

/// The state of the documentation plugin: what the current search pass found.
pub struct RustDocsPlugin {
    items: ResultList<Entry>,
}

impl View for RustDocsPlugin {
    type V = Seq<EntryView>;

    closed spec fn view(&self) -> Seq<EntryView> {
        entry_views(self.items@)
    }
}

impl RustDocsPlugin {
    /// A plugin that has found nothing yet.
    pub fn new() -> (plugin: Self)
        ensures
            plugin@ == Seq::<EntryView>::empty(),
    {
        let plugin = RustDocsPlugin { items: ResultList::new() };
        assert(plugin@ =~= Seq::<EntryView>::empty());
        plugin
    }

    /// The number of results of the current pass.
    pub fn len(&self) -> (n: usize)
        ensures
            n == self@.len(),
    {
        self.items.len()
    }

    /// The result with identifier `id`, where the current pass holds one.
    pub fn get(&self, id: u32) -> (found: Option<&Entry>)
        ensures
            found is Some <==> id < self@.len(),
            found matches Some(item) ==> item@ == self@[id as int],
    {
        self.items.get(id)
    }

    /// Answers a search, given the listing of the directory that the query
    /// looks into: the results of the last pass are forgotten, and the pass that
    /// is returned holds the ten best items whose name the term matches, each at
    /// its position. A query that is not meant for this plugin finds nothing.
    pub fn search(&mut self, query: &str, listing: &Vec<Listed>) -> (responses: Vec<Response>)
        ensures
            final(self)@ == found(query@, listed_views(listing@)),
            views(responses@) == pass(entries_of(final(self)@)),
    {
        self.items.clear();
        let mut responses = open_pass();
        assert(self@ =~= Seq::<EntryView>::empty());
        assert(entries_of(self@) =~= Seq::<SearchResultView>::empty());
        match lookup(query) {
            None => {},
            Some(asked) => {
                let entries = parse_listing(listing);
                let mut names: Vec<String> = Vec::new();
                let mut i: usize = 0;
                while i < entries.len()
                    invariant
                        i <= entries.len(),
                        names.len() == i,
                        forall|k: int| 0 <= k < i ==> (#[trigger] names[k])@ == entries[k].name@,
                    decreases entries.len() - i,
                {
                    names.push(entries[i].name.clone());
                    i += 1;
                }
                assert(texts(names@) =~= names_of(entry_views(entries@)));
                let order = ranked_matches(&names, asked.term.as_str());
                let shown: usize = if order.len() <= MAX_RESULTS {
                    order.len()
                } else {
                    MAX_RESULTS
                };
                let ghost top = best(order@, 10);
                assert(top.len() == shown);
                let mut n: usize = 0;
                while n < shown
                    invariant
                        n <= shown <= 10,
                        shown <= order.len(),
                        top == best(order@, 10),
                        top.len() == shown,
                        names@.len() == entries@.len(),
                        is_ranking(scores_of(texts(names@), asked.term@), order@),
                        self@.len() == n,
                        forall|k: int|
                            0 <= k < n ==> (#[trigger] self@[k]) == entries[top[k] as int]@,
                        views(responses@) == opened(entries_of(self@)),
                    decreases shown - n,
                {
                    let at: usize = order[n];
                    assert(top[n as int] == at);
                    assert(at < scores_of(texts(names@), asked.term@).len());
                    let item = entries[at].duplicate();
                    let id: u32 = self.items.len() as u32;
                    let result = SearchResult::plain(
                        id,
                        item.name.clone(),
                        item.kind.description(),
                        None,
                    );
                    let ghost before = entries_of(self@);
                    let ghost items_before = self@;
                    append_entry(&mut responses, result, Ghost(before));
                    self.items.push(item);
                    assert(self@ =~= items_before.push(item@));
                    assert(entries_of(self@) =~= before.push(result@));
                    n += 1;
                }
                assert(self@ =~= found(query@, listed_views(listing@)));
            },
        }
        close_pass(&mut responses, Ghost(entries_of(self@)));
        responses
    }

    /// Activates the result `id`: the page of the item is handed out to be
    /// opened, and the interaction is closed. An identifier that the list does
    /// not hold is ignored.
    pub fn activate(&self, id: u32) -> (launch: Launch)
        ensures
            launch@ == activation(self@, id),
    {
        let item = match self.items.get(id) {
            Some(item) => item,
            None => {
                return Launch::none();
            },
        };
        let mut args: Vec<String> = Vec::new();
        args.push(item.file_path.clone());
        let spawn = Spawn { program: String::from_str("xdg-open"), args };
        assert(spawn@.args =~= seq![item@.file_path]);
        Launch::closing(Some(spawn))
    }
}

impl PopLauncherPlugin for RustDocsPlugin {
    /// The listing of the directory that the query of a search looks into.
    type World = Vec<Listed>;

    type Answer = Launch;

    open spec fn ready(&self, world: &Vec<Listed>) -> bool {
        true
    }

    open spec fn is_silent(answer: &Launch) -> bool {
        answer@ == no_launch()
    }

    open spec fn searched(
        pre: &Self,
        query: Seq<char>,
        world: &Vec<Listed>,
        post: &Self,
        answer: &Launch,
    ) -> bool {
        &&& post@ == found(query, listed_views(world@))
        &&& answer@ == (LaunchView { responses: pass(entries_of(post@)), spawn: None })
    }

    open spec fn activated(
        pre: &Self,
        id: u32,
        world: &Vec<Listed>,
        post: &Self,
        answer: &Launch,
    ) -> bool {
        post@ == pre@ && answer@ == activation(pre@, id)
    }

    open spec fn completed(
        pre: &Self,
        id: u32,
        world: &Vec<Listed>,
        post: &Self,
        answer: &Launch,
    ) -> bool {
        post@ == pre@ && answer@ == no_launch()
    }

    fn silent() -> (answer: Launch) {
        Launch::none()
    }

    fn search(&mut self, query: &str, world: &Vec<Listed>) -> (answer: Launch) {
        let responses = RustDocsPlugin::search(self, query, world);
        Launch { responses, spawn: None }
    }

    fn activate(&mut self, id: u32, world: &Vec<Listed>) -> (answer: Launch) {
        RustDocsPlugin::activate(self, id)
    }

    /// Completing does nothing.
    fn complete(&mut self, id: u32, world: &Vec<Listed>) -> (answer: Launch) {
        Launch::none()
    }
}

/// A query that does not begin with the claim finds nothing: its pass is `Clear`
/// followed by `Finished`, with no `Append`.
pub proof fn lemma_unclaimed_finds_nothing(query: Seq<char>, listing: Seq<ListedView>)
    requires
        !has_prefix(query, claim()),
    ensures
        found(query, listing) == Seq::<EntryView>::empty(),
        pass(entries_of(found(query, listing))) == seq![ResponseView::Clear, ResponseView::Finished],
{
    lemma_empty_pass();
    assert(entries_of(Seq::<EntryView>::empty()) =~= Seq::<SearchResultView>::empty());
}

/// A pass holds one `Append` for each result of the list, and the n-th of them
/// carries the identifier n - 1.
pub proof fn lemma_pass_numbers_results(items: Seq<EntryView>)
    requires
        items.len() <= u32::MAX,
    ensures
        appended(pass(entries_of(items))) == items.len(),
        forall|n: int|
            1 <= n <= items.len() ==> #[trigger] pass(entries_of(items))[n] == ResponseView::Append(
                entry((n - 1) as u32, items[n - 1]),
            ),
        forall|n: int|
            1 <= n <= items.len() ==> (#[trigger] pass(entries_of(items))[n])->Append_0.id == n - 1,
{
    let entries = entries_of(items);
    assert forall|i: int| 0 <= i < entries.len() implies (#[trigger] entries[i]).id == i by {
        assert(entries[i] == entry(i as u32, items[i]));
    }
    lemma_pass_shape(entries);
}

/// A search never shows more than ten results.
pub proof fn lemma_found_is_short(query: Seq<char>, listing: Seq<ListedView>)
    ensures
        found(query, listing).len() <= 10,
{
}

} // verus!
