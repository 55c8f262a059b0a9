//! The media-control plugin: a query first selects a player, then an action on
//! that player.

use crate::plugin::PopLauncherPlugin;
use crate::protocol::{
    appended, append_entry, close_pass, lemma_empty_pass, lemma_pass_shape, open_pass, opened,
    pass, plain_result, views, Icon, IconView, Response, ResponseView, SearchResult,
    SearchResultView,
};
use crate::rank::{is_ranking, ranked, ranked_matches, scores_of, texts};
use crate::results::ResultList;
use crate::text::{after, has_prefix, join2, same_text, strip_prefix, trim_start, trimmed_start};
use vstd::prelude::*;
use vstd::string::*;

verus! {

/// What can be done to a player.
#[derive(Debug, Clone, Copy, PartialEq, Eq, Structural)]
pub enum PlayerControls {
    VolumeUp,
    VolumeDown,
    Play,
    Pause,
}

/// The controls, in the order in which they are offered.
pub open spec fn all_controls() -> Seq<PlayerControls> {
    seq![
        PlayerControls::VolumeUp,
        PlayerControls::VolumeDown,
        PlayerControls::Play,
        PlayerControls::Pause,
    ]
}

/// The names of the controls, in the order in which they are offered.
pub open spec fn control_names() -> Seq<Seq<char>> {
    all_controls().map_values(|c: PlayerControls| c.spec_name())
}

impl PlayerControls {
    /// The name under which the control is shown.
    pub open spec fn spec_name(self) -> Seq<char> {
        match self {
            PlayerControls::VolumeUp => "Volume up"@,
            PlayerControls::VolumeDown => "Volume down"@,
            PlayerControls::Play => "Play"@,
            PlayerControls::Pause => "Pause"@,
        }
    }

    /// The name of the icon that stands for the control.
    pub open spec fn spec_icon(self) -> Seq<char> {
        match self {
            PlayerControls::VolumeUp => "audio-volume-high"@,
            PlayerControls::VolumeDown => "audio-volume-low"@,
            PlayerControls::Play => "player_play"@,
            PlayerControls::Pause => "player_pause"@,
        }
    }

    /// Whether activating the control ends the interaction.
    pub open spec fn spec_closes(self) -> bool {
        self == PlayerControls::Play || self == PlayerControls::Pause
    }

    /// The name under which the control is shown.
    pub fn name(&self) -> (s: &'static str)
        ensures
            s@ == self.spec_name(),
    {
        match self {
            PlayerControls::VolumeUp => "Volume up",
            PlayerControls::VolumeDown => "Volume down",
            PlayerControls::Play => "Play",
            PlayerControls::Pause => "Pause",
        }
    }

    /// Whether activating the control ends the interaction: playing and pausing
    /// do, a change of volume does not.
    pub fn closes(&self) -> (r: bool)
        ensures
            r == self.spec_closes(),
    {
        match self {
            PlayerControls::Play | PlayerControls::Pause => true,
            _ => false,
        }
    }

    /// The controls, in the order in which they are offered.
    pub fn iter() -> (controls: Vec<PlayerControls>)
        ensures
            controls@ == all_controls(),
    {
        let mut controls: Vec<PlayerControls> = Vec::new();
        controls.push(PlayerControls::VolumeUp);
        controls.push(PlayerControls::VolumeDown);
        controls.push(PlayerControls::Play);
        controls.push(PlayerControls::Pause);
        assert(controls@ =~= all_controls());
        controls
    }

    /// The control with the given name.
    pub fn try_from(value: &str) -> (r: Result<PlayerControls, &'static str>)
        ensures
            r matches Ok(control) ==> control.spec_name() == value@,
            r is Err <==> forall|i: int|
                0 <= i < all_controls().len() ==> (#[trigger] all_controls()[i]).spec_name()
                    != value@,
            r matches Err(why) ==> why@ == "Could not find matching control"@,
    {
        let controls = PlayerControls::iter();
        let mut i: usize = 0;
        while i < controls.len()
            invariant
                i <= controls.len(),
                controls@ == all_controls(),
                forall|k: int| 0 <= k < i ==> (#[trigger] all_controls()[k]).spec_name() != value@,
            decreases controls.len() - i,
        {
            let control = controls[i];
            if same_text(value, control.name()) {
                assert(all_controls()[i as int].spec_name() == value@);
                return Ok(control);
            }
            i += 1;
        }
        Err("Could not find matching control")
    }

    /// The controls whose name `query` matches, best match first.
    pub fn get_matches(query: &str) -> (found: Vec<PlayerControls>)
        ensures
            found@ == matching_controls(query@),
            found@.len() <= 4,
    {
        let controls = PlayerControls::iter();
        let mut names: Vec<String> = Vec::new();
        let mut i: usize = 0;
        while i < controls.len()
            invariant
                i <= controls.len(),
                controls@ == all_controls(),
                names.len() == i,
                forall|k: int| 0 <= k < i ==> (#[trigger] names[k])@ == all_controls()[k].spec_name(),
            decreases controls.len() - i,
        {
            names.push(String::from_str(controls[i].name()));
            i += 1;
        }
        assert(texts(names@) =~= control_names());
        let order = ranked_matches(&names, query);
        let mut found: Vec<PlayerControls> = Vec::new();
        let mut n: usize = 0;
        while n < order.len()
            invariant
                n <= order.len(),
                controls@ == all_controls(),
                names.len() == controls.len(),
                is_ranking(scores_of(texts(names@), query@), order@),
                found.len() == n,
                forall|k: int| 0 <= k < n ==> (#[trigger] found[k]) == all_controls()[order[k] as int],
            decreases order.len() - n,
        {
            assert(order[n as int] < scores_of(texts(names@), query@).len());
            found.push(controls[order[n]]);
            n += 1;
        }
        assert(found@ =~= matching_controls(query@));
        found
    }
}

/// The controls whose name `query` matches, best match first.
pub open spec fn matching_controls(query: Seq<char>) -> Seq<PlayerControls> {
    ranked(control_names(), query).map_values(|k: usize| all_controls()[k as int])
}

/// The word that claims a query for this plugin.
pub const PLUGIN_PREFIX: &'static str = "media";

/// The beginning of every query that is meant for this plugin: the reserved
/// word and a blank.
pub open spec fn claim() -> Seq<char> {
    "media"@ + " "@
}

/// What a result of a search pass stands for.
#[derive(Debug, Clone)]
pub enum Item {
    /// A player, by its identity.
    Player(String),
    /// An action on the player with the given identity.
    Action(String, PlayerControls),
}

/// An `Item`, with the identity as a sequence of characters.
pub enum ItemView {
    Player(Seq<char>),
    Action(Seq<char>, PlayerControls),
}

impl View for Item {
    type V = ItemView;

    open spec fn view(&self) -> ItemView {
        match self {
            Item::Player(identity) => ItemView::Player(identity@),
            Item::Action(identity, control) => ItemView::Action(identity@, *control),
        }
    }
}

/// The views of a list of items.
pub open spec fn item_views(items: Seq<Item>) -> Seq<ItemView> {
    items.map_values(|item: Item| item@)
}

/// How far a query resolves.
#[derive(Debug, Clone)]
pub enum Stage {
    /// The query is not meant for this plugin.
    Unclaimed,
    /// The query filters the players by the given text.
    ForSource(String),
    /// The query names the player at the given position, and filters its
    /// actions by the given text.
    ForSourceAction(usize, String),
}

/// A `Stage`, with its text as a sequence of characters.
pub enum StageView {
    Unclaimed,
    ForSource(Seq<char>),
    ForSourceAction(int, Seq<char>),
}

impl View for Stage {
    type V = StageView;

    open spec fn view(&self) -> StageView {
        match self {
            Stage::Unclaimed => StageView::Unclaimed,
            Stage::ForSource(rest) => StageView::ForSource(rest@),
            Stage::ForSourceAction(player, rest) => StageView::ForSourceAction(*player as int, rest@),
        }
    }
}

/// The first player at or after position `from` whose identity `text` begins
/// with, exactly and with case respected.
pub open spec fn selected_from(players: Seq<Seq<char>>, text: Seq<char>, from: int) -> Option<int>
    decreases players.len() - from,
{
    if from < 0 || from >= players.len() {
        None
    } else if has_prefix(text, players[from]) {
        Some(from)
    } else {
        selected_from(players, text, from + 1)
    }
}

/// The player that `text` selects: the first whose identity it begins with.
pub open spec fn selected(players: Seq<Seq<char>>, text: Seq<char>) -> Option<int> {
    selected_from(players, text, 0)
}

/// How far `query` resolves among `players`.
pub open spec fn stage_of(query: Seq<char>, players: Seq<Seq<char>>) -> StageView {
    if !has_prefix(query, claim()) {
        StageView::Unclaimed
    } else {
        let text = after(query, claim().len());
        match selected(players, text) {
            Some(player) => StageView::ForSourceAction(
                player,
                trimmed_start(after(text, players[player].len())),
            ),
            None => StageView::ForSource(text),
        }
    }
}

/// A selected player is one of the players, `text` begins with its identity, and
/// with that of no player before it; where none is selected, `text` begins with
/// no player's identity.
pub proof fn lemma_selected(players: Seq<Seq<char>>, text: Seq<char>, from: int)
    requires
        0 <= from,
    ensures
        match selected_from(players, text, from) {
            Some(p) => from <= p < players.len() && has_prefix(text, players[p]) && forall|
                j: int,
            |
                from <= j < p ==> !has_prefix(text, #[trigger] players[j]),
            None => forall|j: int| from <= j < players.len() ==> !has_prefix(text, #[trigger] players[j]),
        },
    decreases players.len() - from,
{
    if from < players.len() && !has_prefix(text, players[from]) {
        lemma_selected(players, text, from + 1);
    }
}

/// Resolves `query` among `players`: whether it is meant for this plugin, and
/// if so whether it names a player.
pub fn resolve(query: &str, players: &Vec<String>) -> (stage: Stage)
    ensures
        stage@ == stage_of(query@, texts(players@)),
{
    let claimed = join2(PLUGIN_PREFIX, " ");
    let text = match strip_prefix(query, claimed.as_str()) {
        Some(text) => text,
        None => {
            return Stage::Unclaimed;
        },
    };
    let mut i: usize = 0;
    while i < players.len()
        invariant
            i <= players.len(),
            has_prefix(query@, claim()),
            text@ == after(query@, claim().len()),
            selected(texts(players@), text@) == selected_from(texts(players@), text@, i as int),
        decreases players.len() - i,
    {
        assert(texts(players@)[i as int] == players[i as int]@);
        match strip_prefix(text, players[i].as_str()) {
            Some(rest) => {
                let trimmed = trim_start(rest);
                let stage = Stage::ForSourceAction(i, String::from_str(trimmed));
                assert(selected_from(texts(players@), text@, i as int) == Some(i as int));
                assert(stage@ == StageView::ForSourceAction(i as int, trimmed@));
                return stage;
            },
            None => {},
        }
        i += 1;
    }
    Stage::ForSource(String::from_str(text))
}

/// The name of the icon that stands for the player with the given identity.
pub open spec fn player_icon(identity: Seq<char>) -> Seq<char> {
    if identity == "Spotify"@ {
        "spotify"@
    } else if identity == "Mozilla Firefox"@ {
        "firefox"@
    } else {
        "folder-music"@
    }
}

/// The entry under which a player is shown, at position `id`.
pub open spec fn player_entry(id: u32, identity: Seq<char>) -> SearchResultView {
    plain_result(id, identity, "Description"@, Some(IconView::Name(player_icon(identity))))
}

/// The entry under which an action is shown, at position `id`.
pub open spec fn action_entry(id: u32, control: PlayerControls) -> SearchResultView {
    plain_result(
        id,
        control.spec_name(),
        Seq::<char>::empty(),
        Some(IconView::Name(control.spec_icon())),
    )
}

/// The entry under which `item` is shown, at position `id`.
pub open spec fn entry(id: u32, item: ItemView) -> SearchResultView {
    match item {
        ItemView::Player(identity) => player_entry(id, identity),
        ItemView::Action(_, control) => action_entry(id, control),
    }
}

/// The entries under which `items` are shown: each at its position.
pub open spec fn entries_of(items: Seq<ItemView>) -> Seq<SearchResultView> {
    Seq::new(items.len(), |i: int| entry(i as u32, items[i]))
}

/// What a search for `query` finds among `players`: nothing where the query is
/// not meant for this plugin; the matching actions of the player that the query
/// names, best first; or else the matching players, best first.
pub open spec fn found(query: Seq<char>, players: Seq<Seq<char>>) -> Seq<ItemView> {
    match stage_of(query, players) {
        StageView::Unclaimed => Seq::<ItemView>::empty(),
        StageView::ForSource(text) => ranked(players, text).map_values(
            |k: usize| ItemView::Player(players[k as int]),
        ),
        StageView::ForSourceAction(player, text) => matching_controls(text).map_values(
            |c: PlayerControls| ItemView::Action(players[player], c),
        ),
    }
}

/// The icon of a player.
pub fn get_player_icon(identity: &str) -> (icon: Option<Icon>)
    ensures
        icon matches Some(i) && i@ == IconView::Name(player_icon(identity@)),
{
    if same_text(identity, "Spotify") {
        Some(Icon::Name(String::from_str("spotify")))
    } else if same_text(identity, "Mozilla Firefox") {
        Some(Icon::Name(String::from_str("firefox")))
    } else {
        Some(Icon::Name(String::from_str("folder-music")))
    }
}

/// The icon of an action.
pub fn get_action_icon(action: &PlayerControls) -> (icon: Option<Icon>)
    ensures
        icon matches Some(i) && i@ == IconView::Name(action.spec_icon()),
{
    match action {
        PlayerControls::VolumeUp => Some(Icon::Name(String::from_str("audio-volume-high"))),
        PlayerControls::VolumeDown => Some(Icon::Name(String::from_str("audio-volume-low"))),
        PlayerControls::Play => Some(Icon::Name(String::from_str("player_play"))),
        PlayerControls::Pause => Some(Icon::Name(String::from_str("player_pause"))),
    }
}

/// The state of the media-control plugin: what the current search pass found.
pub struct MprisPlugin {
    items: ResultList<Item>,
}

impl View for MprisPlugin {
    type V = Seq<ItemView>;

    closed spec fn view(&self) -> Seq<ItemView> {
        item_views(self.items@)
    }
}

impl MprisPlugin {
    /// A plugin that has found nothing yet.
    pub fn new() -> (plugin: Self)
        ensures
            plugin@ == Seq::<ItemView>::empty(),
    {
        let plugin = MprisPlugin { items: ResultList::new() };
        assert(plugin@ =~= Seq::<ItemView>::empty());
        plugin
    }

    /// The number of results of the current pass.
    pub fn len(&self) -> (n: usize)
        ensures
            n == self@.len(),
    {
        self.items.len()
    }

    /// The entry for a player that is appended next.
    pub fn format_player(&self, player: &str) -> (result: SearchResult)
        requires
            self@.len() <= u32::MAX,
        ensures
            result@ == player_entry(self@.len() as u32, player@),
    {
        let id: u32 = self.items.len() as u32;
        SearchResult::plain(
            id,
            String::from_str(player),
            String::from_str("Description"),
            get_player_icon(player),
        )
    }

    /// The entry for an action that is appended next.
    pub fn format_action(&self, action: &PlayerControls) -> (result: SearchResult)
        requires
            self@.len() <= u32::MAX,
        ensures
            result@ == action_entry(self@.len() as u32, *action),
    {
        let id: u32 = self.items.len() as u32;
        SearchResult::plain(id, String::from_str(action.name()), String::new(), get_action_icon(action))
    }

    /// Forgets the results of the last pass and begins a new one.
    fn clear(&mut self) -> (responses: Vec<Response>)
        ensures
            final(self)@ == Seq::<ItemView>::empty(),
            views(responses@) == opened(entries_of(final(self)@)),
    {
        self.items.clear();
        assert(self@ =~= Seq::<ItemView>::empty());
        assert(entries_of(self@) =~= Seq::<SearchResultView>::empty());
        open_pass()
    }

    /// Appends a player to the pass.
    fn add_player(&mut self, responses: &mut Vec<Response>, player: String)
        requires
            old(self)@.len() <= u32::MAX,
            views(old(responses)@) == opened(entries_of(old(self)@)),
        ensures
            final(self)@ == old(self)@.push(ItemView::Player(player@)),
            views(final(responses)@) == opened(entries_of(final(self)@)),
    {
        let result = self.format_player(player.as_str());
        append_entry(responses, result, Ghost(entries_of(self@)));
        self.items.push(Item::Player(player));
        assert(self@ =~= old(self)@.push(ItemView::Player(player@)));
        assert(entries_of(self@) =~= entries_of(old(self)@).push(result@));
    }

    /// Appends an action on a player to the pass.
    fn add_action(&mut self, responses: &mut Vec<Response>, player: String, action: PlayerControls)
        requires
            old(self)@.len() <= u32::MAX,
            views(old(responses)@) == opened(entries_of(old(self)@)),
        ensures
            final(self)@ == old(self)@.push(ItemView::Action(player@, action)),
            views(final(responses)@) == opened(entries_of(final(self)@)),
    {
        let result = self.format_action(&action);
        append_entry(responses, result, Ghost(entries_of(self@)));
        self.items.push(Item::Action(player, action));
        assert(self@ =~= old(self)@.push(ItemView::Action(player@, action)));
        assert(entries_of(self@) =~= entries_of(old(self)@).push(result@));
    }

    /// Answers a search: the results of the last pass are forgotten, and the
    /// pass that is returned holds what `query` finds among `players`, each
    /// result at its position.
    pub fn search(&mut self, query: &str, players: &Vec<String>) -> (responses: Vec<Response>)
        requires
            players@.len() <= u32::MAX,
        ensures
            final(self)@ == found(query@, texts(players@)),
            views(responses@) == pass(entries_of(final(self)@)),
    {
        let mut responses = self.clear();
        match resolve(query, players) {
            Stage::Unclaimed => {},
            Stage::ForSource(text) => {
                let order = ranked_matches(players, text.as_str());
                let mut n: usize = 0;
                while n < order.len()
                    invariant
                        n <= order.len(),
                        order@.len() <= players@.len() <= u32::MAX,
                        is_ranking(scores_of(texts(players@), text@), order@),
                        self@.len() == n,
                        forall|k: int|
                            0 <= k < n ==> (#[trigger] self@[k]) == ItemView::Player(
                                players[order[k] as int]@,
                            ),
                        views(responses@) == opened(entries_of(self@)),
                    decreases order.len() - n,
                {
                    assert(order[n as int] < scores_of(texts(players@), text@).len());
                    let player = players[order[n]].clone();
                    self.add_player(&mut responses, player);
                    n += 1;
                }
                assert(self@ =~= found(query@, texts(players@)));
            },
            Stage::ForSourceAction(at, text) => {
                let actions = PlayerControls::get_matches(text.as_str());
                let mut n: usize = 0;
                proof {
                    lemma_selected(texts(players@), after(query@, claim().len()), 0);
                }
                while n < actions.len()
                    invariant
                        n <= actions.len() <= 4,
                        at < players.len(),
                        self@.len() == n,
                        forall|k: int|
                            0 <= k < n ==> (#[trigger] self@[k]) == ItemView::Action(
                                players[at as int]@,
                                actions[k],
                            ),
                        views(responses@) == opened(entries_of(self@)),
                    decreases actions.len() - n,
                {
                    let player = players[at].clone();
                    self.add_action(&mut responses, player, actions[n]);
                    n += 1;
                }
                assert(self@ =~= found(query@, texts(players@)));
            },
        }
        close_pass(&mut responses, Ghost(entries_of(self@)));
        responses
    }
}

/// An action to carry out on a player.
#[derive(Debug, Clone)]
pub struct PlayerCommand {
    /// The identity of the player.
    pub player: String,
    pub action: PlayerControls,
}

/// A `PlayerCommand`, with the identity as a sequence of characters.
pub struct PlayerCommandView {
    pub player: Seq<char>,
    pub action: PlayerControls,
}

impl View for PlayerCommand {
    type V = PlayerCommandView;

    open spec fn view(&self) -> PlayerCommandView {
        PlayerCommandView { player: self.player@, action: self.action }
    }
}

/// What the plugin asks for in answer to a request: responses to send, in their
/// order, and at most one action on a player.
#[derive(Debug, Clone)]
pub struct Outcome {
    pub responses: Vec<Response>,
    pub command: Option<PlayerCommand>,
}

/// An `Outcome`, as plain values.
pub struct OutcomeView {
    pub responses: Seq<ResponseView>,
    pub command: Option<PlayerCommandView>,
}

impl View for Outcome {
    type V = OutcomeView;

    open spec fn view(&self) -> OutcomeView {
        OutcomeView {
            responses: views(self.responses@),
            command: match self.command {
                Some(command) => Some(command@),
                None => None,
            },
        }
    }
}

/// The outcome that asks for nothing.
pub open spec fn nothing() -> OutcomeView {
    OutcomeView { responses: Seq::<ResponseView>::empty(), command: None }
}

impl Outcome {
    /// The outcome that asks for nothing.
    pub fn none() -> (outcome: Outcome)
        ensures
            outcome@ == nothing(),
    {
        let outcome = Outcome { responses: Vec::new(), command: None };
        assert(outcome@.responses =~= Seq::<ResponseView>::empty());
        outcome
    }
}

/// The query that selecting `item` stands for: the claim and the player's
/// identity, followed by a blank for a player, or by a blank and the name of the
/// action.
pub open spec fn completed_query(item: ItemView) -> Seq<char> {
    match item {
        ItemView::Player(identity) => claim() + identity + " "@,
        ItemView::Action(identity, control) => claim() + identity + " "@ + control.spec_name(),
    }
}

/// The state after completing the result `id`, and the responses: where the
/// list holds the result, the query box is filled with the completed query,
/// which is then searched for; else nothing happens.
pub open spec fn completion(items: Seq<ItemView>, id: u32, players: Seq<Seq<char>>) -> (
    Seq<ItemView>,
    OutcomeView,
) {
    if id < items.len() {
        let query = completed_query(items[id as int]);
        let then = found(query, players);
        (
            then,
            OutcomeView {
                responses: seq![ResponseView::Fill(query)] + pass(entries_of(then)),
                command: None,
            },
        )
    } else {
        (items, nothing())
    }
}

/// The state after activating the result `id`, and the outcome: a player is
/// completed; an action is handed out as a command, with `Close` where the
/// action ends the interaction; an identifier that the list does not hold
/// changes nothing and asks for nothing.
pub open spec fn activation(items: Seq<ItemView>, id: u32, players: Seq<Seq<char>>) -> (
    Seq<ItemView>,
    OutcomeView,
) {
    if id < items.len() {
        match items[id as int] {
            ItemView::Player(_) => completion(items, id, players),
            ItemView::Action(identity, control) => (
                items,
                OutcomeView {
                    responses: if control.spec_closes() {
                        seq![ResponseView::Close]
                    } else {
                        Seq::<ResponseView>::empty()
                    },
                    command: Some(PlayerCommandView { player: identity, action: control }),
                },
            ),
        }
    } else {
        (items, nothing())
    }
}

/// The command that starts playback on a player.
pub fn play(player: &str) -> (command: PlayerCommand)
    ensures
        command@ == (PlayerCommandView { player: player@, action: PlayerControls::Play }),
{
    PlayerCommand { player: String::from_str(player), action: PlayerControls::Play }
}

/// The command that pauses a player.
pub fn pause(player: &str) -> (command: PlayerCommand)
    ensures
        command@ == (PlayerCommandView { player: player@, action: PlayerControls::Pause }),
{
    PlayerCommand { player: String::from_str(player), action: PlayerControls::Pause }
}

/// The step by which one activation changes the volume, in hundredths of the
/// full volume.
pub const VOLUME_STEP: u32 = 10;

/// The full volume, in hundredths.
pub const FULL_VOLUME: u32 = 100;

/// A volume changed by `step` hundredths and kept between silence and the full
/// volume.
pub open spec fn stepped_volume(current: int, step: int) -> int {
    let wanted = current + step;
    if wanted < 0 {
        0
    } else if wanted > 100 {
        100
    } else {
        wanted
    }
}

/// The volume, in hundredths, after one step up: never above the full volume.
pub fn increase_volume(current: u32) -> (volume: u32)
    ensures
        volume == stepped_volume(current as int, 10),
{
    if current >= FULL_VOLUME - VOLUME_STEP {
        FULL_VOLUME
    } else {
        current + VOLUME_STEP
    }
}

/// The volume, in hundredths, after one step down: never below silence.
pub fn decrease_volume(current: u32) -> (volume: u32)
    ensures
        volume == stepped_volume(current as int, -10),
{
    if VOLUME_STEP > current {
        0
    } else if current - VOLUME_STEP > FULL_VOLUME {
        FULL_VOLUME
    } else {
        current - VOLUME_STEP
    }
}

impl MprisPlugin {
    /// The result with identifier `id`, where the current pass holds one.
    pub fn get(&self, id: u32) -> (found: Option<&Item>)
        ensures
            found is Some <==> id < self@.len(),
            found matches Some(item) ==> item@ == self@[id as int],
    {
        self.items.get(id)
    }

    /// Completes the query from the result `id`: the query box is filled with
    /// what selecting the result stands for, and that query is searched for.
    /// An identifier that the list does not hold is ignored.
    pub fn complete(&mut self, id: u32, players: &Vec<String>) -> (outcome: Outcome)
        requires
            players@.len() <= u32::MAX,
        ensures
            (final(self)@, outcome@) == completion(old(self)@, id, texts(players@)),
    {
        let query = match self.items.get(id) {
            Some(Item::Player(identity)) => {
                let mut query = join2(PLUGIN_PREFIX, " ");
                query.append(identity.as_str());
                query.append(" ");
                query
            },
            Some(Item::Action(identity, action)) => {
                let mut query = join2(PLUGIN_PREFIX, " ");
                query.append(identity.as_str());
                query.append(" ");
                query.append(action.name());
                query
            },
            None => {
                return Outcome::none();
            },
        };
        assert(query@ == completed_query(old(self)@[id as int]));
        let mut responses: Vec<Response> = Vec::new();
        responses.push(Response::Fill(query.clone()));
        let mut searched = self.search(query.as_str(), players);
        let ghost filled = views(responses@);
        let ghost passed = views(searched@);
        responses.append(&mut searched);
        assert(views(responses@) =~= filled + passed);
        assert(filled =~= seq![ResponseView::Fill(query@)]);
        Outcome { responses, command: None }
    }

    /// Activates the result `id`. A player is completed, which narrows the query
    /// to its actions. An action is handed out as a command for the player;
    /// playing and pausing also close the interaction, a change of volume does
    /// not. An identifier that the list does not hold is ignored.
    pub fn activate(&mut self, id: u32, players: &Vec<String>) -> (outcome: Outcome)
        requires
            players@.len() <= u32::MAX,
        ensures
            (final(self)@, outcome@) == activation(old(self)@, id, texts(players@)),
    {
        let command = match self.items.get(id) {
            None => {
                return Outcome::none();
            },
            Some(Item::Player(_)) => {
                return self.complete(id, players);
            },
            Some(Item::Action(identity, action)) => match action {
                PlayerControls::VolumeUp => PlayerCommand {
                    player: identity.clone(),
                    action: PlayerControls::VolumeUp,
                },
                PlayerControls::VolumeDown => PlayerCommand {
                    player: identity.clone(),
                    action: PlayerControls::VolumeDown,
                },
                PlayerControls::Play => play(identity.as_str()),
                PlayerControls::Pause => pause(identity.as_str()),
            },
        };
        let mut responses: Vec<Response> = Vec::new();
        if command.action.closes() {
            responses.push(Response::Close);
            assert(views(responses@) =~= seq![ResponseView::Close]);
        } else {
            assert(views(responses@) =~= Seq::<ResponseView>::empty());
        }
        Outcome { responses, command: Some(command) }
    }
}

impl PopLauncherPlugin for MprisPlugin {
    /// The identities of the players that run now.
    type World = Vec<String>;

    type Answer = Outcome;

    open spec fn ready(&self, world: &Vec<String>) -> bool {
        world@.len() <= u32::MAX
    }

    open spec fn is_silent(answer: &Outcome) -> bool {
        answer@ == nothing()
    }

    open spec fn searched(
        pre: &Self,
        query: Seq<char>,
        world: &Vec<String>,
        post: &Self,
        answer: &Outcome,
    ) -> bool {
        &&& post@ == found(query, texts(world@))
        &&& answer@ == (OutcomeView { responses: pass(entries_of(post@)), command: None })
    }

    open spec fn activated(
        pre: &Self,
        id: u32,
        world: &Vec<String>,
        post: &Self,
        answer: &Outcome,
    ) -> bool {
        (post@, answer@) == activation(pre@, id, texts(world@))
    }

    open spec fn completed(
        pre: &Self,
        id: u32,
        world: &Vec<String>,
        post: &Self,
        answer: &Outcome,
    ) -> bool {
        (post@, answer@) == completion(pre@, id, texts(world@))
    }

    fn silent() -> (answer: Outcome) {
        Outcome::none()
    }

    fn search(&mut self, query: &str, world: &Vec<String>) -> (answer: Outcome) {
        let responses = MprisPlugin::search(self, query, world);
        Outcome { responses, command: None }
    }

    fn activate(&mut self, id: u32, world: &Vec<String>) -> (answer: Outcome) {
        MprisPlugin::activate(self, id, world)
    }

    fn complete(&mut self, id: u32, world: &Vec<String>) -> (answer: Outcome) {
        MprisPlugin::complete(self, id, world)
    }
}

/// A query that does not begin with the claim finds nothing: its pass is `Clear`
/// followed by `Finished`, with no `Append`.
pub proof fn lemma_unclaimed_finds_nothing(query: Seq<char>, players: Seq<Seq<char>>)
    requires
        !has_prefix(query, claim()),
    ensures
        found(query, players) == Seq::<ItemView>::empty(),
        pass(entries_of(found(query, players))) == seq![ResponseView::Clear, ResponseView::Finished],
{
    lemma_empty_pass();
    assert(entries_of(Seq::<ItemView>::empty()) =~= Seq::<SearchResultView>::empty());
}

/// A pass holds one `Append` for each result of the list, and the n-th of them
/// carries the identifier n - 1.
pub proof fn lemma_pass_numbers_results(items: Seq<ItemView>)
    requires
        items.len() <= u32::MAX,
    ensures
        appended(pass(entries_of(items))) == items.len(),
        forall|n: int|
            1 <= n <= items.len() ==> #[trigger] pass(entries_of(items))[n] == ResponseView::Append(
                entry((n - 1) as u32, items[n - 1]),
            ),
        forall|n: int|
            1 <= n <= items.len() ==> (#[trigger] pass(entries_of(items))[n])->Append_0.id == n - 1,
{
    let entries = entries_of(items);
    assert forall|i: int| 0 <= i < entries.len() implies (#[trigger] entries[i]).id == i by {
        assert(entries[i] == entry(i as u32, items[i]));
    }
    lemma_pass_shape(entries);
}

/// Activating an identifier that the list does not hold changes nothing, sends
/// nothing and commands nothing.
pub proof fn lemma_stale_activation(items: Seq<ItemView>, id: u32, players: Seq<Seq<char>>)
    requires
        id >= items.len(),
    ensures
        activation(items, id, players) == (items, nothing()),
        completion(items, id, players) == (items, nothing()),
{
}

/// Completion fills the query box and then searches for what it filled in, and
/// that query is always claimed by this plugin: searching for it never stops at
/// the claim.
pub proof fn lemma_completion_is_claimed(items: Seq<ItemView>, id: u32, players: Seq<Seq<char>>)
    requires
        id < items.len(),
    ensures
        has_prefix(completed_query(items[id as int]), claim()),
        !(stage_of(completed_query(items[id as int]), players) is Unclaimed),
        completion(items, id, players).1.responses[0] == ResponseView::Fill(
            completed_query(items[id as int]),
        ),
        completion(items, id, players).1.responses.subrange(
            1,
            completion(items, id, players).1.responses.len() as int,
        ) == pass(entries_of(found(completed_query(items[id as int]), players))),
        completion(items, id, players).0 == found(completed_query(items[id as int]), players),
{
    let query = completed_query(items[id as int]);
    assert(query.subrange(0, claim().len() as int) =~= claim());
    let responses = completion(items, id, players).1.responses;
    assert(responses.subrange(1, responses.len() as int) =~= pass(entries_of(found(query, players))));
}

} // verus!
