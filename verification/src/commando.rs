//! The command plugin: a list of named shell commands, found by name and
//! started on activation.

use crate::plugin::PopLauncherPlugin;
use crate::protocol::{
    append_entry, appended, close_pass, closing_launch, lemma_pass_shape, no_launch, open_pass,
    opened, pass, plain_result, views, Icon, IconView, Launch, LaunchView, Response, ResponseView,
    SearchResult, SearchResultView, Spawn, SpawnView,
};
use crate::rank::{is_ranking, ranked, ranked_matches, scores_of, texts};
use crate::results::ResultList;
use vstd::prelude::*;
use vstd::string::*;

verus! {

/// A command that the user has defined.
#[derive(Debug, Clone)]
pub struct Command {
    /// The name under which the command is found.
    pub name: String,
    /// The command line.
    pub command: String,
    /// The name of an icon.
    pub icon: Option<String>,
}

/// A `Command`, with its texts as sequences of characters.
pub struct CommandView {
    pub name: Seq<char>,
    pub command: Seq<char>,
    pub icon: Option<Seq<char>>,
}

impl View for Command {
    type V = CommandView;

    open spec fn view(&self) -> CommandView {
        CommandView {
            name: self.name@,
            command: self.command@,
            icon: match self.icon {
                Some(icon) => Some(icon@),
                None => None,
            },
        }
    }
}

impl Command {
    /// A copy of the command.
    pub fn duplicate(&self) -> (copy: Command)
        ensures
            copy@ == self@,
    {
        Command {
            name: self.name.clone(),
            command: self.command.clone(),
            icon: match &self.icon {
                Some(icon) => Some(icon.clone()),
                None => None,
            },
        }
    }
}

/// The commands that one file defines.
#[derive(Debug, Clone)]
pub struct CommandFile {
    pub commands: Vec<Command>,
}

/// The views of a list of commands.
pub open spec fn command_views(commands: Seq<Command>) -> Seq<CommandView> {
    commands.map_values(|c: Command| c@)
}

/// The commands of the first `n` files, file after file.
pub open spec fn commands_of(files: Seq<CommandFile>, n: nat) -> Seq<CommandView>
    decreases n,
{
    if n == 0 || n > files.len() {
        Seq::<CommandView>::empty()
    } else {
        commands_of(files, (n - 1) as nat) + command_views(files[n - 1].commands@)
    }
}

/// Gathers the commands of all files, in the order of the files and, within a
/// file, in the order in which it defines them.
pub fn get_commands(files: &Vec<CommandFile>) -> (commands: Vec<Command>)
    ensures
        command_views(commands@) == commands_of(files@, files@.len()),
{
    let mut commands: Vec<Command> = Vec::new();
    let mut f: usize = 0;
    assert(command_views(commands@) =~= commands_of(files@, 0));
    while f < files.len()
        invariant
            f <= files.len(),
            command_views(commands@) == commands_of(files@, f as nat),
        decreases files.len() - f,
    {
        let file = &files[f];
        let ghost before = command_views(commands@);
        let mut c: usize = 0;
        while c < file.commands.len()
            invariant
                c <= file.commands.len(),
                command_views(commands@) == before + command_views(file.commands@).subrange(
                    0,
                    c as int,
                ),
            decreases file.commands.len() - c,
        {
            let ghost prior = commands@;
            let copy = file.commands[c].duplicate();
            commands.push(copy);
            assert(command_views(commands@) =~= command_views(prior).push(copy@));
            assert(command_views(file.commands@)[c as int] == copy@);
            assert(command_views(commands@) =~= before + command_views(file.commands@).subrange(
                0,
                c + 1,
            ));
            c += 1;
        }
        assert(command_views(file.commands@).subrange(0, c as int) =~= command_views(
            file.commands@,
        ));
        f += 1;
    }
    commands
}

/// The words into which a shell would split `line`, or `None` where the line is
/// malformed.
pub uninterp spec fn shlex_words(line: Seq<char>) -> Option<Seq<Seq<char>>>;

/// Calls `split` of the crate shlex, which splits a command line into words as
/// a POSIX shell does and gives `None` for a line that it cannot split. The
/// contract names the result.
#[verifier::external_body]
fn split_words(line: &str) -> (words: Option<Vec<String>>)
    ensures
        match words {
            Some(list) => shlex_words(line@) == Some(texts(list@)),
            None => shlex_words(line@) is None,
        },
{
    shlex::split(line)
}

/// The program that a split command line starts: its first word, with the
/// other words as arguments. A line that could not be split, or that holds no
/// word, starts nothing.
pub open spec fn spawn_plan(words: Option<Seq<Seq<char>>>) -> Option<SpawnView> {
    match words {
        Some(list) => if list.len() > 0 {
            Some(SpawnView { program: list[0], args: list.subrange(1, list.len() as int) })
        } else {
            None
        },
        None => None,
    }
}

/// Turns the words of a command line into the program to start.
pub fn plan_spawn(words: Option<Vec<String>>) -> (spawn: Option<Spawn>)
    ensures
        match spawn {
            Some(s) => Some(s@),
            None => None,
        } == spawn_plan(
            match words {
                Some(list) => Some(texts(list@)),
                None => None,
            },
        ),
{
    match words {
        Some(list) => {
            if list.len() == 0 {
                return None;
            }
            let program = list[0].clone();
            let mut args: Vec<String> = Vec::new();
            let mut i: usize = 1;
            while i < list.len()
                invariant
                    1 <= i <= list.len(),
                    args.len() == i - 1,
                    forall|k: int| 0 <= k < args.len() ==> (#[trigger] args[k])@ == list[k + 1]@,
                decreases list.len() - i,
            {
                args.push(list[i].clone());
                i += 1;
            }
            let spawn = Spawn { program, args };
            assert(spawn@.args =~= texts(list@).subrange(1, list.len() as int));
            Some(spawn)
        },
        None => None,
    }
}

/// The entry under which `command` is shown, at position `id`.
pub open spec fn entry(id: u32, command: CommandView) -> SearchResultView {
    plain_result(
        id,
        command.name,
        Seq::<char>::empty(),
        match command.icon {
            Some(icon) => Some(IconView::Name(icon)),
            None => None,
        },
    )
}

/// The names of `commands`.
pub open spec fn names_of(commands: Seq<CommandView>) -> Seq<Seq<char>> {
    commands.map_values(|c: CommandView| c.name)
}

/// The entries of a pass whose results are the commands at the positions
/// `items`.
pub open spec fn entries_of(commands: Seq<CommandView>, items: Seq<usize>) -> Seq<SearchResultView> {
    Seq::new(items.len(), |i: int| entry(i as u32, commands[items[i] as int]))
}

/// The state of the command plugin, as plain values.
pub struct CommandoView {
    /// The commands that the user has defined.
    pub commands: Seq<CommandView>,
    /// The results of the current pass: positions among the commands.
    pub items: Seq<usize>,
}

/// The state of the command plugin.
pub struct CommandoPlugin {
    commands: Vec<Command>,
    items: ResultList<usize>,
}

impl View for CommandoPlugin {
    type V = CommandoView;

    closed spec fn view(&self) -> CommandoView {
        CommandoView { commands: command_views(self.commands@), items: self.items@ }
    }
}

/// Whether a state is well formed: every result is one of the commands, and
/// each command can be given an identifier.
pub open spec fn well_formed(state: CommandoView) -> bool {
    &&& state.commands.len() <= u32::MAX
    &&& forall|i: int| 0 <= i < state.items.len() ==> (#[trigger] state.items[i]) < state.commands.len()
}

/// The state after activating the result `id`, and what is asked for: the
/// command line of the result is split into words and its program started, and
/// the interaction is closed whether or not there is a program to start. An
/// identifier that the list does not hold asks for nothing.
pub open spec fn activation(state: CommandoView, id: u32) -> LaunchView {
    if id < state.items.len() {
        closing_launch(spawn_plan(shlex_words(state.commands[state.items[id as int] as int].command)))
    } else {
        no_launch()
    }
}

impl CommandoPlugin {
    /// A plugin over the given commands, which has found nothing yet.
    pub fn new(commands: Vec<Command>) -> (plugin: Self)
        requires
            commands@.len() <= u32::MAX,
        ensures
            well_formed(plugin@),
            plugin@.commands == command_views(commands@),
            plugin@.items == Seq::<usize>::empty(),
    {
        CommandoPlugin { commands, items: ResultList::new() }
    }

    /// The number of results of the current pass.
    pub fn len(&self) -> (n: usize)
        ensures
            n == self@.items.len(),
    {
        self.items.len()
    }

    /// The names of the commands.
    fn names(&self) -> (names: Vec<String>)
        ensures
            texts(names@) == names_of(self@.commands),
    {
        let mut names: Vec<String> = Vec::new();
        let mut i: usize = 0;
        while i < self.commands.len()
            invariant
                i <= self.commands.len(),
                names.len() == i,
                forall|k: int| 0 <= k < i ==> (#[trigger] names[k])@ == self.commands[k].name@,
            decreases self.commands.len() - i,
        {
            names.push(self.commands[i].name.clone());
            i += 1;
        }
        assert(texts(names@) =~= names_of(self@.commands));
        names
    }

    /// Answers a search: the results of the last pass are forgotten, and the
    /// pass that is returned holds the commands whose name `query` matches,
    /// best first, each at its position.
    pub fn search(&mut self, query: &str) -> (responses: Vec<Response>)
        requires
            well_formed(old(self)@),
        ensures
            well_formed(final(self)@),
            final(self)@.commands == old(self)@.commands,
            final(self)@.items == ranked(names_of(old(self)@.commands), query@),
            views(responses@) == pass(entries_of(final(self)@.commands, final(self)@.items)),
    {
        self.items.clear();
        let mut responses = open_pass();
        let names = self.names();
        let order = ranked_matches(&names, query);
        assert(entries_of(self@.commands, self@.items) =~= Seq::<SearchResultView>::empty());
        let mut n: usize = 0;
        while n < order.len()
            invariant
                n <= order.len(),
                self.commands == old(self).commands,
                self@.commands.len() <= u32::MAX,
                names@.len() == self.commands@.len(),
                order@.len() <= names@.len(),
                is_ranking(scores_of(texts(names@), query@), order@),
                self.items@ == order@.subrange(0, n as int),
                views(responses@) == opened(entries_of(self@.commands, self@.items)),
            decreases order.len() - n,
        {
            let at: usize = order[n];
            assert(at < scores_of(texts(names@), query@).len());
            let command = &self.commands[at];
            let id: u32 = self.items.len() as u32;
            let result = SearchResult::plain(
                id,
                command.name.clone(),
                String::new(),
                match &command.icon {
                    Some(icon) => Some(Icon::Name(icon.clone())),
                    None => None,
                },
            );
            let ghost before = entries_of(self@.commands, self@.items);
            append_entry(&mut responses, result, Ghost(before));
            self.items.push(at);
            assert(self.items@ =~= order@.subrange(0, n + 1));
            assert(entries_of(self@.commands, self@.items) =~= before.push(result@));
            n += 1;
        }
        assert(order@.subrange(0, n as int) =~= order@);
        close_pass(&mut responses, Ghost(entries_of(self@.commands, self@.items)));
        responses
    }

    /// Activates the result `id`: its command line is split into words and
    /// handed out as the program to start, and the interaction is closed, also
    /// where the line cannot be split. An identifier that the list does not
    /// hold is ignored.
    pub fn activate(&self, id: u32) -> (launch: Launch)
        requires
            well_formed(self@),
        ensures
            launch@ == activation(self@, id),
    {
        let at: usize = match self.items.get(id) {
            Some(at) => *at,
            None => {
                return Launch::none();
            },
        };
        assert(self@.items[id as int] == at);
        let words = split_words(self.commands[at].command.as_str());
        Launch::closing(plan_spawn(words))
    }
}

impl PopLauncherPlugin for CommandoPlugin {
    /// The commands are read when the plugin starts: nothing of the world is
    /// asked for with a request.
    type World = ();

    type Answer = Launch;

    open spec fn ready(&self, world: &()) -> bool {
        well_formed(self@)
    }

    open spec fn is_silent(answer: &Launch) -> bool {
        answer@ == no_launch()
    }

    open spec fn searched(
        pre: &Self,
        query: Seq<char>,
        world: &(),
        post: &Self,
        answer: &Launch,
    ) -> bool {
        &&& post@.commands == pre@.commands
        &&& post@.items == ranked(names_of(pre@.commands), query)
        &&& answer@ == (LaunchView {
            responses: pass(entries_of(post@.commands, post@.items)),
            spawn: None,
        })
    }

    open spec fn activated(
        pre: &Self,
        id: u32,
        world: &(),
        post: &Self,
        answer: &Launch,
    ) -> bool {
        post@ == pre@ && answer@ == activation(pre@, id)
    }

    open spec fn completed(
        pre: &Self,
        id: u32,
        world: &(),
        post: &Self,
        answer: &Launch,
    ) -> bool {
        post@ == pre@ && answer@ == no_launch()
    }

    fn silent() -> (answer: Launch) {
        Launch::none()
    }

    fn search(&mut self, query: &str, world: &()) -> (answer: Launch) {
        let responses = CommandoPlugin::search(self, query);
        Launch { responses, spawn: None }
    }

    fn activate(&mut self, id: u32, world: &()) -> (answer: Launch) {
        CommandoPlugin::activate(self, id)
    }

    /// Completing does nothing.
    fn complete(&mut self, id: u32, world: &()) -> (answer: Launch) {
        Launch::none()
    }
}

/// A pass holds one `Append` for each result of the list, and the n-th of them
/// carries the identifier n - 1.
pub proof fn lemma_pass_numbers_results(commands: Seq<CommandView>, items: Seq<usize>)
    requires
        items.len() <= u32::MAX,
    ensures
        appended(pass(entries_of(commands, items))) == items.len(),
        forall|n: int|
            1 <= n <= items.len() ==> #[trigger] pass(entries_of(commands, items))[n]
                == ResponseView::Append(entry((n - 1) as u32, commands[items[n - 1] as int])),
        forall|n: int|
            1 <= n <= items.len() ==> (#[trigger] pass(
                entries_of(commands, items),
            )[n])->Append_0.id == n - 1,
{
    let entries = entries_of(commands, items);
    assert forall|i: int| 0 <= i < entries.len() implies (#[trigger] entries[i]).id == i by {
        assert(entries[i] == entry(i as u32, commands[items[i] as int]));
    }
    lemma_pass_shape(entries);
}

/// Activating a result closes the interaction whether or not a program can be
/// started, and activating an identifier that the list does not hold sends
/// nothing and starts nothing.
pub proof fn lemma_activation_closes(state: CommandoView, id: u32)
    ensures
        id < state.items.len() ==> activation(state, id).responses == seq![ResponseView::Close],
        id >= state.items.len() ==> activation(state, id) == no_launch(),
{
}

} // verus!
