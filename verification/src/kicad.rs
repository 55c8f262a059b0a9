//! The project plugin: the projects found below a directory, found by name and
//! opened on activation.

use crate::plugin::PopLauncherPlugin;
use crate::protocol::{
    append_entry, appended, close_pass, closing_launch, lemma_empty_pass, lemma_pass_shape,
    no_launch, open_pass, opened, pass, plain_result, views, Icon, IconView, Launch, LaunchView,
    Response, ResponseView, SearchResult, SearchResultView, Spawn, SpawnView,
};
use crate::rank::{is_ranking, ranked, ranked_matches, scores_of, texts};
use crate::results::ResultList;
use crate::text::{after, has_prefix, join2, pieces, split, strip_prefix};
use vstd::prelude::*;
use vstd::string::*;

verus! {

/// The word that claims a query for this plugin.
pub const PLUGIN_PREFIX: &'static str = "kicad";

/// The beginning of every query that is meant for this plugin: the reserved
/// word and a blank.
pub open spec fn claim() -> Seq<char> {
    "kicad"@ + " "@
}

/// The configuration of the plugin.
#[derive(Debug, Clone)]
pub struct Config {
    /// The directory below which projects are looked for.
    pub path: Option<String>,
}

/// The directory that a run of configurations settles on: that of the first
/// one that names a directory. A configuration that could not be read counts
/// for nothing.
pub open spec fn settled_path(parsed: Seq<Option<Config>>) -> Option<Seq<char>>
    decreases parsed.len(),
{
    if parsed.len() == 0 {
        None
    } else {
        match settled_path(parsed.drop_last()) {
            Some(path) => Some(path),
            None => match parsed.last() {
                Some(config) => match config.path {
                    Some(path) => Some(path@),
                    None => None,
                },
                None => None,
            },
        }
    }
}

impl Config {
    /// The configuration that names nothing.
    pub fn new() -> (config: Config)
        ensures
            config.path is None,
    {
        Config { path: None }
    }

    /// Takes from `other` what this configuration leaves open.
    pub fn merge(&mut self, other: Config)
        ensures
            final(self).path == if old(self).path is Some {
                old(self).path
            } else {
                other.path
            },
    {
        if self.path.is_none() {
            self.path = other.path;
        }
    }
}

/// Merges the configurations that were read, in their order; `None` stands for
/// a file that could not be read or understood.
pub fn get_config(parsed: Vec<Option<Config>>) -> (config: Config)
    ensures
        match config.path {
            Some(path) => Some(path@),
            None => None,
        } == settled_path(parsed@),
{
    let mut config = Config::new();
    let mut parsed = parsed;
    let ghost all = parsed@;
    let total: usize = parsed.len();
    let mut rest: Vec<Option<Config>> = Vec::new();
    while parsed.len() > 0
        invariant
            all.len() == total,
            parsed@.len() + rest@.len() == all.len(),
            forall|k: int| 0 <= k < parsed@.len() ==> parsed@[k] == all[k],
            forall|k: int|
                0 <= k < rest@.len() ==> (#[trigger] rest@[k]) == all[all.len() - 1 - k],
        decreases parsed.len(),
    {
        match parsed.pop() {
            Some(one) => rest.push(one),
            None => {},
        }
    }
    assert(all.subrange(0, 0) =~= Seq::<Option<Config>>::empty());
    let mut i: usize = 0;
    while rest.len() > 0
        invariant
            all.len() == total,
            i + rest@.len() == all.len(),
            forall|k: int|
                0 <= k < rest@.len() ==> (#[trigger] rest@[k]) == all[all.len() - 1 - k],
            match config.path {
                Some(path) => Some(path@),
                None => None,
            } == settled_path(all.subrange(0, i as int)),
        decreases rest.len(),
    {
        assert(all.subrange(0, i + 1).drop_last() =~= all.subrange(0, i as int));
        assert(all.subrange(0, i + 1).last() == all[i as int]);
        match rest.pop() {
            Some(Some(one)) => {
                config.merge(one);
            },
            _ => {},
        }
        i += 1;
    }
    assert(all.subrange(0, i as int) =~= all);
    config
}

/// The directory to look for projects in: the configured one where it exists,
/// else the home directory.
pub fn project_root(configured: Option<String>, exists: bool, home: Option<String>) -> (root:
    Option<String>)
    ensures
        (configured is Some && exists) ==> root == configured,
        !(configured is Some && exists) ==> root == home,
{
    match configured {
        Some(path) => if exists {
            Some(path)
        } else {
            home
        },
        None => home,
    }
}

/// The stem of the file that `path` names: its last component without its
/// extension, or `None` where the path names no file.
pub uninterp spec fn file_stem(path: Seq<char>) -> Option<Seq<char>>;

/// Calls `Path::file_stem` of std on the path written in `path`, in the path
/// syntax of the platform that the plugin runs on. The contract names the
/// result.
#[verifier::external_body]
fn stem_of(path: &str) -> (stem: Option<String>)
    ensures
        match stem {
            Some(s) => Some(s@),
            None => None,
        } == file_stem(path@),
{
    std::path::Path::new(path).file_stem().and_then(|stem| stem.to_str()).map(String::from)
}

/// The name of the project in the file `path`: the stem of the file.
pub fn get_project_name(path: &str) -> (name: Option<String>)
    ensures
        match name {
            Some(n) => Some(n@),
            None => None,
        } == file_stem(path@),
{
    stem_of(path)
}

/// A project.
#[derive(Debug, Clone)]
pub struct KicadProject {
    /// The project file.
    pub path: String,
    pub name: String,
}

/// A `KicadProject`, with its texts as sequences of characters.
pub struct ProjectView {
    pub path: Seq<char>,
    pub name: Seq<char>,
}

impl View for KicadProject {
    type V = ProjectView;

    open spec fn view(&self) -> ProjectView {
        ProjectView { path: self.path@, name: self.name@ }
    }
}

/// The views of a list of projects.
pub open spec fn project_views(projects: Seq<KicadProject>) -> Seq<ProjectView> {
    projects.map_values(|p: KicadProject| p@)
}

/// The lines of `output`: its pieces between line feeds, without the empty
/// piece after a line feed that ends the output.
pub open spec fn lines_of(output: Seq<char>) -> Seq<Seq<char>> {
    let all = pieces(output, "\n"@);
    if all.len() > 0 && all.last().len() == 0 {
        all.drop_last()
    } else {
        all
    }
}

/// Whether each of `paths` names a file.
pub open spec fn all_named(paths: Seq<Seq<char>>) -> bool {
    forall|i: int| 0 <= i < paths.len() ==> file_stem(#[trigger] paths[i]) is Some
}

/// The projects in the files `paths`.
pub open spec fn projects_at(paths: Seq<Seq<char>>) -> Seq<ProjectView> {
    paths.map_values(|path: Seq<char>| ProjectView { path, name: file_stem(path)->0 })
}

/// Reads the projects from the output of the file finder, which prints one
/// path on each line. The result is `None` where a line names no file.
pub fn get_projects(output: &str) -> (projects: Option<Vec<KicadProject>>)
    ensures
        projects is Some <==> all_named(lines_of(output@)),
        projects matches Some(list) ==> project_views(list@) == projects_at(lines_of(output@)),
{
    let mut lines = split(output, "\n");
    let ghost all = lines@.map_values(|p: String| p@);
    let last: usize = lines.len() - 1;
    assert(all[last as int] == lines[last as int]@);
    if lines[last].as_str().unicode_len() == 0 {
        lines.pop();
        assert(lines@.map_values(|p: String| p@) =~= all.drop_last());
    }
    assert(lines@.map_values(|p: String| p@) == lines_of(output@));
    let ghost wanted = lines_of(output@);
    let mut projects: Vec<KicadProject> = Vec::new();
    let mut i: usize = 0;
    while i < lines.len()
        invariant
            i <= lines.len(),
            wanted == lines@.map_values(|p: String| p@),
            wanted == lines_of(output@),
            projects.len() == i,
            forall|k: int| 0 <= k < i ==> file_stem(#[trigger] wanted[k]) is Some,
            forall|k: int|
                0 <= k < i ==> (#[trigger] projects[k])@ == (ProjectView {
                    path: wanted[k],
                    name: file_stem(wanted[k])->0,
                }),
        decreases lines.len() - i,
    {
        assert(wanted[i as int] == lines[i as int]@);
        match get_project_name(lines[i].as_str()) {
            Some(name) => {
                projects.push(KicadProject { path: lines[i].clone(), name });
            },
            None => {
                assert(file_stem(lines_of(output@)[i as int]) is None);
                return None;
            },
        }
        i += 1;
    }
    assert(project_views(projects@) =~= projects_at(wanted));
    Some(projects)
}

/// The entry under which `project` is shown, at position `id`.
pub open spec fn entry(id: u32, project: ProjectView) -> SearchResultView {
    plain_result(id, project.name, Seq::<char>::empty(), Some(IconView::Name("kicad"@)))
}

/// The names of `projects`.
pub open spec fn names_of(projects: Seq<ProjectView>) -> Seq<Seq<char>> {
    projects.map_values(|p: ProjectView| p.name)
}

/// The entries of a pass whose results are the projects at the positions
/// `items`.
pub open spec fn entries_of(projects: Seq<ProjectView>, items: Seq<usize>) -> Seq<SearchResultView> {
    Seq::new(items.len(), |i: int| entry(i as u32, projects[items[i] as int]))
}

/// What a search for `query` finds among `projects`: nothing where the query
/// is not meant for this plugin; else the positions of the projects whose name
/// the rest of the query matches, best first.
pub open spec fn found(query: Seq<char>, projects: Seq<ProjectView>) -> Seq<usize> {
    if has_prefix(query, claim()) {
        ranked(names_of(projects), after(query, claim().len()))
    } else {
        Seq::<usize>::empty()
    }
}

/// The program that opens `project`.
pub open spec fn opener(project: ProjectView) -> SpawnView {
    SpawnView { program: "kicad"@, args: seq![project.path] }
}

/// The state of the project plugin, as plain values.
pub struct KicadView {
    /// The projects that were found when the plugin started.
    pub projects: Seq<ProjectView>,
    /// The results of the current pass: positions among the projects.
    pub items: Seq<usize>,
}

/// Whether a state is well formed: every result is one of the projects, and
/// each project can be given an identifier.
pub open spec fn well_formed(state: KicadView) -> bool {
    &&& state.projects.len() <= u32::MAX
    &&& forall|i: int| 0 <= i < state.items.len() ==> (#[trigger] state.items[i]) < state.projects.len()
}

/// What activating the result `id` asks for: the project is opened and the
/// interaction closed. An identifier that the list does not hold asks for
/// nothing.
pub open spec fn activation(state: KicadView, id: u32) -> LaunchView {
    if id < state.items.len() {
        closing_launch(Some(opener(state.projects[state.items[id as int] as int])))
    } else {
        no_launch()
    }
}

/// The state of the project plugin.
pub struct KicadPlugin {
    projects: Vec<KicadProject>,
    items: ResultList<usize>,
}

impl View for KicadPlugin {
    type V = KicadView;

    closed spec fn view(&self) -> KicadView {
        KicadView { projects: project_views(self.projects@), items: self.items@ }
    }
}

impl KicadPlugin {
    /// A plugin over the given projects, which has found nothing yet.
    pub fn new(projects: Vec<KicadProject>) -> (plugin: Self)
        requires
            projects@.len() <= u32::MAX,
        ensures
            well_formed(plugin@),
            plugin@.projects == project_views(projects@),
            plugin@.items == Seq::<usize>::empty(),
    {
        KicadPlugin { projects, items: ResultList::new() }
    }

    /// The number of results of the current pass.
    pub fn len(&self) -> (n: usize)
        ensures
            n == self@.items.len(),
    {
        self.items.len()
    }

    /// The names of the projects.
    fn names(&self) -> (names: Vec<String>)
        ensures
            texts(names@) == names_of(self@.projects),
    {
        let mut names: Vec<String> = Vec::new();
        let mut i: usize = 0;
        while i < self.projects.len()
            invariant
                i <= self.projects.len(),
                names.len() == i,
                forall|k: int| 0 <= k < i ==> (#[trigger] names[k])@ == self.projects[k].name@,
            decreases self.projects.len() - i,
        {
            names.push(self.projects[i].name.clone());
            i += 1;
        }
        assert(texts(names@) =~= names_of(self@.projects));
        names
    }

    /// Answers a search: the results of the last pass are forgotten, and the
    /// pass that is returned holds the projects whose name the query matches,
    /// best first, each at its position. A query that is not meant for this
    /// plugin finds nothing.
    pub fn search(&mut self, query: &str) -> (responses: Vec<Response>)
        requires
            well_formed(old(self)@),
        ensures
            well_formed(final(self)@),
            final(self)@.projects == old(self)@.projects,
            final(self)@.items == found(query@, old(self)@.projects),
            views(responses@) == pass(entries_of(final(self)@.projects, final(self)@.items)),
    {
        self.items.clear();
        let mut responses = open_pass();
        assert(entries_of(self@.projects, self@.items) =~= Seq::<SearchResultView>::empty());
        let claimed = join2(PLUGIN_PREFIX, " ");
        match strip_prefix(query, claimed.as_str()) {
            None => {},
            Some(text) => {
                let names = self.names();
                let order = ranked_matches(&names, text);
                let mut n: usize = 0;
                while n < order.len()
                    invariant
                        n <= order.len(),
                        self.projects == old(self).projects,
                        self@.projects.len() <= u32::MAX,
                        names@.len() == self.projects@.len(),
                        order@.len() <= names@.len(),
                        is_ranking(scores_of(texts(names@), text@), order@),
                        self.items@ == order@.subrange(0, n as int),
                        views(responses@) == opened(entries_of(self@.projects, self@.items)),
                    decreases order.len() - n,
                {
                    let at: usize = order[n];
                    assert(at < scores_of(texts(names@), text@).len());
                    let id: u32 = self.items.len() as u32;
                    let result = SearchResult::plain(
                        id,
                        self.projects[at].name.clone(),
                        String::new(),
                        Some(Icon::Name(String::from_str("kicad"))),
                    );
                    let ghost before = entries_of(self@.projects, self@.items);
                    append_entry(&mut responses, result, Ghost(before));
                    self.items.push(at);
                    assert(self.items@ =~= order@.subrange(0, n + 1));
                    assert(entries_of(self@.projects, self@.items) =~= before.push(result@));
                    n += 1;
                }
                assert(order@.subrange(0, n as int) =~= order@);
            },
        }
        close_pass(&mut responses, Ghost(entries_of(self@.projects, self@.items)));
        responses
    }

    /// Activates the result `id`: the project is handed out to be opened, and
    /// the interaction is closed. An identifier that the list does not hold is
    /// ignored.
    pub fn activate(&self, id: u32) -> (launch: Launch)
        requires
            well_formed(self@),
        ensures
            launch@ == activation(self@, id),
    {
        let at: usize = match self.items.get(id) {
            Some(at) => *at,
            None => {
                return Launch::none();
            },
        };
        assert(self@.items[id as int] == at);
        let mut args: Vec<String> = Vec::new();
        args.push(self.projects[at].path.clone());
        let spawn = Spawn { program: String::from_str("kicad"), args };
        assert(spawn@.args =~= seq![self.projects[at as int]@.path]);
        Launch::closing(Some(spawn))
    }
}

impl PopLauncherPlugin for KicadPlugin {
    /// The projects are found when the plugin starts: nothing of the world is
    /// asked for with a request.
    type World = ();

    type Answer = Launch;

    open spec fn ready(&self, world: &()) -> bool {
        well_formed(self@)
    }

    open spec fn is_silent(answer: &Launch) -> bool {
        answer@ == no_launch()
    }

    open spec fn searched(
        pre: &Self,
        query: Seq<char>,
        world: &(),
        post: &Self,
        answer: &Launch,
    ) -> bool {
        &&& post@.projects == pre@.projects
        &&& post@.items == found(query, pre@.projects)
        &&& answer@ == (LaunchView {
            responses: pass(entries_of(post@.projects, post@.items)),
            spawn: None,
        })
    }

    open spec fn activated(
        pre: &Self,
        id: u32,
        world: &(),
        post: &Self,
        answer: &Launch,
    ) -> bool {
        post@ == pre@ && answer@ == activation(pre@, id)
    }

    open spec fn completed(
        pre: &Self,
        id: u32,
        world: &(),
        post: &Self,
        answer: &Launch,
    ) -> bool {
        post@ == pre@ && answer@ == no_launch()
    }

    fn silent() -> (answer: Launch) {
        Launch::none()
    }

    fn search(&mut self, query: &str, world: &()) -> (answer: Launch) {
        let responses = KicadPlugin::search(self, query);
        Launch { responses, spawn: None }
    }

    fn activate(&mut self, id: u32, world: &()) -> (answer: Launch) {
        KicadPlugin::activate(self, id)
    }

    /// Completing does nothing.
    fn complete(&mut self, id: u32, world: &()) -> (answer: Launch) {
        Launch::none()
    }
}

/// A query that does not begin with the claim finds nothing: its pass is `Clear`
/// followed by `Finished`, with no `Append`.
pub proof fn lemma_unclaimed_finds_nothing(query: Seq<char>, projects: Seq<ProjectView>)
    requires
        !has_prefix(query, claim()),
    ensures
        found(query, projects) == Seq::<usize>::empty(),
        pass(entries_of(projects, found(query, projects))) == seq![
            ResponseView::Clear,
            ResponseView::Finished,
        ],
{
    lemma_empty_pass();
    assert(entries_of(projects, Seq::<usize>::empty()) =~= Seq::<SearchResultView>::empty());
}

/// A pass holds one `Append` for each result of the list, and the n-th of them
/// carries the identifier n - 1.
pub proof fn lemma_pass_numbers_results(projects: Seq<ProjectView>, items: Seq<usize>)
    requires
        items.len() <= u32::MAX,
    ensures
        appended(pass(entries_of(projects, items))) == items.len(),
        forall|n: int|
            1 <= n <= items.len() ==> #[trigger] pass(entries_of(projects, items))[n]
                == ResponseView::Append(entry((n - 1) as u32, projects[items[n - 1] as int])),
        forall|n: int|
            1 <= n <= items.len() ==> (#[trigger] pass(
                entries_of(projects, items),
            )[n])->Append_0.id == n - 1,
{
    let entries = entries_of(projects, items);
    assert forall|i: int| 0 <= i < entries.len() implies (#[trigger] entries[i]).id == i by {
        assert(entries[i] == entry(i as u32, projects[items[i] as int]));
    }
    lemma_pass_shape(entries);
}

} // verus!
