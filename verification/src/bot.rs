//! The bot's decisions: from its state and an event of the game to its next
//! state and the actions to perform.
use vstd::prelude::*;
use vstd::string::StringExecFns;
use crate::auth::{code_accepted, code_readable, validate};
use crate::chat::{kick_command, kick_text, light_command, light_text, tellraw, tellraw_text};
use crate::cmdcore::{core_box, core_fits, fill_text, BlockPos, Core};
use crate::command::{
    command_of, command_words, command_words_of, needs_auth, parsable, BotCommand, CommandView,
};
use crate::number::{
    decimal, parse_i32_spec, parse_i32_text, parse_u32_spec, parse_u32_text, parse_u64_spec,
    parse_u64_text, push_decimal_i64, push_decimal_u64,
};
use crate::text::{
    chars_of, contains_chars, contains_string, contains_text, copy_string, string_of, text_is,
};

verus! {

broadcast use vstd::string::group_string_axioms;

// ---------------------------------------------------------------------------
// State, events and actions
// ---------------------------------------------------------------------------

/// What the bot remembers between events.
pub struct State {
    /// The command-block core that commands run in.
    pub core_generator: Core,
    /// The login codes that have been used.
    pub used_codes: Vec<u32>,
    /// The players (by UUID text) that have logged in.
    pub auth_users: Vec<String>,
    /// The ids of the running command loops, in the order they started.
    pub loops: Vec<i32>,
    /// The description of each running loop, in the same order.
    pub loops_text: Vec<String>,
}

/// The state as mathematical values.
pub struct StateView {
    pub core: Seq<BlockPos>,
    pub used_codes: Seq<u32>,
    pub auth_users: Seq<Seq<char>>,
    pub loops: Seq<i32>,
    pub loops_text: Seq<Seq<char>>,
}

impl View for State {
    type V = StateView;

    open spec fn view(&self) -> StateView {
        StateView {
            core: self.core_generator.core_coordinates@,
            used_codes: self.used_codes@,
            auth_users: self.auth_users.deep_view(),
            loops: self.loops@,
            loops_text: self.loops_text.deep_view(),
        }
    }
}

/// Every loop has a description and a positive id.
pub open spec fn state_wf(s: StateView) -> bool {
    &&& s.loops.len() == s.loops_text.len()
    &&& forall|i: int| 0 <= i < s.loops.len() ==> #[trigger] s.loops[i] >= 1
}

/// Something that happened in the game.
#[derive(Clone, Debug, PartialEq, Eq)]
pub enum Event {
    /// A chat line: its plain text, its text as shown with the sender, the
    /// sender's UUID when a player sent it, and whether the bot is in
    /// creative mode.
    Chat { content: String, display: String, sender: Option<String>, creative: bool },
    /// The bot joined the world, standing at `bot_pos`.
    Spawn { bot_pos: BlockPos },
    /// A player left.
    RemovePlayer { uuid: String },
    /// The block at `pos` changed; whether it is now a command block, and
    /// where the bot stands.
    BlockUpdate { pos: BlockPos, is_command_block: bool, bot_pos: BlockPos },
    /// An entity event with this id concerning the bot.
    EntityEvent { event_id: u8 },
    /// Anything else.
    Other,
}

/// An event as mathematical values.
pub enum EventView {
    Chat { content: Seq<char>, display: Seq<char>, sender: Option<Seq<char>>, creative: bool },
    Spawn { bot_pos: BlockPos },
    RemovePlayer { uuid: Seq<char> },
    BlockUpdate { pos: BlockPos, is_command_block: bool, bot_pos: BlockPos },
    EntityEvent { event_id: u8 },
    Other,
}

impl View for Event {
    type V = EventView;

    open spec fn view(&self) -> EventView {
        match self {
            Event::Chat { content, display, sender, creative } => EventView::Chat {
                content: content@,
                display: display@,
                sender: sender.deep_view(),
                creative: *creative,
            },
            Event::Spawn { bot_pos } => EventView::Spawn { bot_pos: *bot_pos },
            Event::RemovePlayer { uuid } => EventView::RemovePlayer { uuid: uuid@ },
            Event::BlockUpdate { pos, is_command_block, bot_pos } => EventView::BlockUpdate {
                pos: *pos,
                is_command_block: *is_command_block,
                bot_pos: *bot_pos,
            },
            Event::EntityEvent { event_id } => EventView::EntityEvent { event_id: *event_id },
            Event::Other => EventView::Other,
        }
    }
}

/// Something for the bot to do, in order.
#[derive(Clone, Debug, PartialEq, Eq)]
pub enum Action {
    /// Run this command through a command block of the core.
    Run(String),
    /// Show this markup message with `markup::advanced_tellraw`.
    Markup(String),
    /// Send this chat line.
    Chat(String),
    /// Relay this chat line to the webhook.
    Webhook(String),
    /// Start running `command` every `delay` milliseconds as loop `id`.
    StartLoop { id: i32, command: String, delay: u64 },
    /// Stop the loop at this position in the list of running loops.
    StopLoop { index: usize },
}

/// An action as mathematical values.
pub enum ActionView {
    Run(Seq<char>),
    Markup(Seq<char>),
    Chat(Seq<char>),
    Webhook(Seq<char>),
    StartLoop { id: i32, command: Seq<char>, delay: u64 },
    StopLoop { index: usize },
}

impl View for Action {
    type V = ActionView;

    open spec fn view(&self) -> ActionView {
        match self {
            Action::Run(c) => ActionView::Run(c@),
            Action::Markup(m) => ActionView::Markup(m@),
            Action::Chat(m) => ActionView::Chat(m@),
            Action::Webhook(m) => ActionView::Webhook(m@),
            Action::StartLoop { id, command, delay } => ActionView::StartLoop {
                id: *id,
                command: command@,
                delay: *delay,
            },
            Action::StopLoop { index } => ActionView::StopLoop { index: *index },
        }
    }
}

/// The actions as mathematical values.
pub open spec fn actions_view(v: Seq<Action>) -> Seq<ActionView> {
    v.map_values(|a: Action| a@)
}

// ---------------------------------------------------------------------------
// Specification of the decisions
// ---------------------------------------------------------------------------

/// Show `msg` to everyone with the bot's tag.
pub open spec fn tell(msg: Seq<char>) -> ActionView {
    ActionView::Run(tellraw_text(msg))
}

/// The markup messages of the informational commands.
pub open spec fn help_markup() -> Seq<char> {
    "<gray>Commands <gray>(<aqua>8<gray>) <gray>- <aqua>info, <aqua>help, <aqua>exe, <aqua>tellraw, <aqua>login, <aqua>loops, <yellow>core, <yellow>loop"@
}

pub open spec fn info_markup() -> Seq<char> {
    "<blue>Join <blue>the <blue>discord: [https://discord.gg/9zSgbreY]"@
}

pub open spec fn list_markup() -> Seq<char> {
    "<gray>Players <gray>currently <gray>online:"@
}

/// The description of a loop.
pub open spec fn loop_text(id: int, command: Seq<char>, delay: u64) -> Seq<char> {
    "ID: "@ + decimal(id) + ", Command: "@ + command + ", Delay: "@ + decimal(delay as int)
}

/// The first position of `target` in `ids`.
pub open spec fn first_index_of(ids: Seq<i32>, target: i32) -> Option<int>
    decreases ids.len(),
{
    if ids.len() == 0 {
        None
    } else if ids[0] == target {
        Some(0)
    } else {
        match first_index_of(ids.drop_first(), target) {
            Some(p) => Some(p + 1),
            None => None,
        }
    }
}

/// A loop command names a loop that is already running (its second word
/// read as a loop id) and is not a `stop`.
pub open spec fn loop_taken(s: StateView, action: Seq<char>, delay: Seq<char>) -> bool {
    &&& s.loops.len() > 0
    &&& s.loops.contains(parse_i32_spec(delay)->0)
    &&& action != "stop"@
}

/// A loop command is handled without a panic and within the `i32` ids: its
/// number reads as an `i32` whenever loops run or it stops one, as a `u64`
/// when it starts one.
pub open spec fn loop_ok(s: StateView, action: Seq<char>, delay: Seq<char>) -> bool {
    &&& s.loops.len() > 0 ==> parse_i32_spec(delay) is Some
    &&& !loop_taken(s, action, delay) && action == "start"@ ==> {
        &&& parse_u64_spec(delay) is Some
        &&& s.loops.len() + 1 <= i32::MAX
    }
    &&& action == "stop"@ ==> parse_i32_spec(delay) is Some
}

/// What a loop command does.
pub open spec fn loop_spec(s: StateView, action: Seq<char>, delay: Seq<char>, command: Seq<char>) -> (
    StateView,
    Seq<ActionView>,
) {
    if loop_taken(s, action, delay) {
        (s, seq![tell("A loop with that id already exists!"@)])
    } else if action == "start"@ {
        let d = parse_u64_spec(delay)->0;
        let id: int = s.loops.len() as int + 1;
        (
            StateView {
                loops: s.loops.push(id as i32),
                loops_text: s.loops_text.push(loop_text(id, command, d)),
                ..s
            },
            seq![
                ActionView::StartLoop { id: id as i32, command, delay: d },
                tell("Started loop "@ + decimal(id)),
            ],
        )
    } else if action == "stop"@ {
        let target = parse_i32_spec(delay)->0;
        match first_index_of(s.loops, target) {
            Some(p) => (
                StateView {
                    loops: s.loops.remove(p),
                    loops_text: s.loops_text.remove(p),
                    ..s
                },
                seq![
                    ActionView::StopLoop { index: p as usize },
                    tell("Stopped loop "@ + decimal(target as int)),
                ],
            ),
            None => (s, seq![]),
        }
    } else {
        (s, seq![])
    }
}

/// A command is handled without a panic: loop numbers read, and a login
/// has secrets and a code that reads as a number.
pub open spec fn command_ok(s: StateView, cmd: CommandView, secrets: Option<Seq<char>>) -> bool {
    match cmd {
        CommandView::Loop(a, d, _) => loop_ok(s, a, d),
        CommandView::Login(code) => secrets is Some && code_readable(code),
        _ => true,
    }
}

/// What a command given by `sender` does.
pub open spec fn command_spec(
    s: StateView,
    cmd: CommandView,
    sender: Seq<char>,
    secrets: Option<Seq<char>>,
    now: u64,
) -> (StateView, Seq<ActionView>) {
    match cmd {
        CommandView::Core => (s, seq![]),
        CommandView::List => (s, seq![ActionView::Markup(list_markup()), ActionView::Run("sudo * c:*"@)]),
        CommandView::AdvancedTellraw(m) => (s, seq![ActionView::Markup(m)]),
        CommandView::Info => (s, seq![ActionView::Markup(info_markup())]),
        CommandView::Disable(_) => (s, seq![tell("Coming soon"@)]),
        CommandView::Light(user) => (s, seq![ActionView::Run(light_text(user))]),
        CommandView::Loop(a, d, c) => loop_spec(s, a, d, c),
        CommandView::Execute(c) => (s, seq![tell("running "@ + c), ActionView::Run(c)]),
        CommandView::Loops => (s, Seq::new(s.loops_text.len(), |i: int| tell(s.loops_text[i]))),
        CommandView::Help => (s, seq![ActionView::Markup(help_markup())]),
        CommandView::Kick(user) => (s, seq![ActionView::Run(kick_text(user))]),
        CommandView::Tellraw(m) => (s, seq![tell(m)]),
        CommandView::Login(code) => if code_accepted(code, secrets->0, now) {
            (
                StateView {
                    auth_users: s.auth_users.push(sender),
                    used_codes: s.used_codes.push(parse_u32_spec(code)->0),
                    ..s
                },
                seq![tell("Succesfully authenticated"@)],
            )
        } else {
            (s, seq![tell("Couldn't authenticate"@)])
        },
    }
}

/// `users` without the entries equal to `u`.
pub open spec fn without(users: Seq<Seq<char>>, u: Seq<char>) -> Seq<Seq<char>>
    decreases users.len(),
{
    if users.len() == 0 {
        seq![]
    } else if users.last() == u {
        without(users.drop_last(), u)
    } else {
        without(users.drop_last(), u).push(users.last())
    }
}

/// What follows every chat line that did not stop at the login check:
/// switching back to creative mode, and relaying the line unless it is a
/// command block's `Command set: ` report.
pub open spec fn after_chat(content: Seq<char>, display: Seq<char>, creative: bool) -> Seq<
    ActionView,
> {
    (if !creative { seq![ActionView::Chat("/gmc"@)] } else { seq![] }) + (if !contains_text(
        content,
        "Command set: "@,
    ) {
        seq![ActionView::Webhook(display)]
    } else {
        seq![]
    })
}

/// The event is handled without a panic.
pub open spec fn handle_ok(s: StateView, e: EventView, secrets: Option<Seq<char>>) -> bool {
    match e {
        EventView::Chat { content, sender, .. } => match command_words_of(content) {
            Some(parts) => {
                &&& parsable(parts)
                &&& sender is Some
                &&& !(needs_auth(command_of(parts)) && !s.auth_users.contains(sender->0))
                    ==> command_ok(s, command_of(parts), secrets)
            },
            None => true,
        },
        EventView::Spawn { bot_pos } => core_fits(bot_pos),
        EventView::BlockUpdate { pos, is_command_block, bot_pos } => (s.core.contains(pos)
            && !is_command_block) ==> core_fits(bot_pos),
        _ => true,
    }
}

/// The next state and the actions for event `e`; `secrets` and `now` are
/// the login secrets and the time, used by `login`.
pub open spec fn handle_spec(s: StateView, e: EventView, secrets: Option<Seq<char>>, now: u64) -> (
    StateView,
    Seq<ActionView>,
) {
    match e {
        EventView::Chat { content, display, sender, creative } => match command_words_of(content) {
            Some(parts) => {
                let cmd = command_of(parts);
                let uid = sender->0;
                if needs_auth(cmd) && !s.auth_users.contains(uid) {
                    (s, seq![tell("Woah, login first!"@)])
                } else {
                    let (s1, acts) = command_spec(s, cmd, uid, secrets, now);
                    (s1, acts + after_chat(content, display, creative))
                }
            },
            None => (s, after_chat(content, display, creative)),
        },
        EventView::Spawn { bot_pos } => (
            StateView { core: core_box(bot_pos), ..s },
            seq![ActionView::Chat(fill_text(bot_pos))],
        ),
        EventView::RemovePlayer { uuid } => (
            StateView { auth_users: without(s.auth_users, uuid), ..s },
            seq![],
        ),
        EventView::BlockUpdate { pos, is_command_block, bot_pos } => if s.core.contains(pos)
            && !is_command_block {
            (s, seq![ActionView::Run(fill_text(bot_pos))])
        } else {
            (s, seq![])
        },
        EventView::EntityEvent { event_id } => if event_id == 24 {
            (s, seq![ActionView::Chat("/op @s[type=player]"@)])
        } else {
            (s, seq![])
        },
        EventView::Other => (s, seq![]),
    }
}

// ---------------------------------------------------------------------------
// Implementation
// ---------------------------------------------------------------------------

fn tell_action(msg: &str) -> (r: Action)
    ensures
        r@ == tell(msg@),
{
    Action::Run(tellraw(msg))
}

/// `prefix` followed by the decimal text of `n`.
fn text_with_number(prefix: &str, n: i64) -> (r: String)
    ensures
        r@ == prefix@ + decimal(n as int),
{
    let mut s = String::new();
    s.append(prefix);
    let mut digits: Vec<char> = Vec::new();
    push_decimal_i64(&mut digits, n);
    s.append(string_of(&digits).as_str());
    s
}

/// The description of a loop.
pub fn loop_description(id: i32, command: &String, delay: u64) -> (r: String)
    ensures
        r@ == loop_text(id as int, command@, delay),
{
    let mut s = text_with_number("ID: ", id as i64);
    s.append(", Command: ");
    s.append(command.as_str());
    s.append(", Delay: ");
    let mut digits: Vec<char> = Vec::new();
    push_decimal_u64(&mut digits, delay);
    s.append(string_of(&digits).as_str());
    s
}

proof fn lemma_first_index(ids: Seq<i32>, t: i32, i: int)
    requires
        0 <= i <= ids.len(),
        forall|k: int| 0 <= k < i ==> ids[k] != t,
        i < ids.len() ==> ids[i] == t,
    ensures
        first_index_of(ids, t) == (if i < ids.len() { Some(i) } else { None::<int> }),
    decreases i,
{
    if i > 0 {
        lemma_first_index(ids.drop_first(), t, i - 1);
    }
}

/// The first position of `target` among the loop ids.
pub fn first_index(ids: &Vec<i32>, target: i32) -> (r: Option<usize>)
    ensures
        r matches Some(p) ==> first_index_of(ids@, target) == Some(p as int),
        r is None ==> first_index_of(ids@, target) is None,
{
    for i in 0..ids.len()
        invariant
            forall|k: int| 0 <= k < i ==> ids@[k] != target,
    {
        if ids[i] == target {
            proof {
                lemma_first_index(ids@, target, i as int);
            }
            return Some(i);
        }
    }
    proof {
        lemma_first_index(ids@, target, ids@.len() as int);
    }
    None
}

/// Whether `ids` holds `target`.
fn holds_id(ids: &Vec<i32>, target: i32) -> (r: bool)
    ensures
        r == ids@.contains(target),
{
    match first_index(ids, target) {
        Some(_) => {
            proof {
                lemma_first_index_found(ids@, target);
            }
            true
        },
        None => {
            proof {
                lemma_first_index_found(ids@, target);
            }
            false
        },
    }
}

proof fn lemma_first_index_found(ids: Seq<i32>, t: i32)
    ensures
        first_index_of(ids, t) is Some <==> ids.contains(t),
        first_index_of(ids, t) matches Some(p) ==> 0 <= p < ids.len() && ids[p] == t,
    decreases ids.len(),
{
    if ids.len() > 0 {
        lemma_first_index_found(ids.drop_first(), t);
        if ids[0] != t {
            if ids.contains(t) {
                let k = choose|k: int| 0 <= k < ids.len() && ids[k] == t;
                assert(ids.drop_first()[k - 1] == t);
            }
            if ids.drop_first().contains(t) {
                let k = choose|k: int| 0 <= k < ids.len() - 1 && ids.drop_first()[k] == t;
                assert(ids[k + 1] == t);
            }
        } else {
            assert(ids[0] == t);
        }
    }
}

impl Default for State {
    fn default() -> (r: State)
        ensures
            r@.core == Seq::<BlockPos>::empty(),
            r@.used_codes == Seq::<u32>::empty(),
            r@.auth_users == Seq::<Seq<char>>::empty(),
            r@.loops == Seq::<i32>::empty(),
            r@.loops_text == Seq::<Seq<char>>::empty(),
    {
        State::new()
    }
}

/// Whether a command loop whose shared id now reads `id_value` runs its
/// command again; a stopped loop's id is set negative.
pub fn loop_continues(id_value: i32) -> (r: bool)
    ensures
        r == (id_value >= 0),
{
    id_value >= 0
}

impl State {
    /// The id and description of a loop started now: the id is one more
    /// than the number of running loops.
    pub fn new_loop(&self, command: &String, delay: u64) -> (r: (i32, String))
        requires
            self.loops@.len() + 1 <= i32::MAX,
        ensures
            r.0 == self.loops@.len() + 1,
            r.1@ == loop_text(self.loops@.len() as int + 1, command@, delay),
    {
        let id: i32 = (self.loops.len() + 1) as i32;
        (id, loop_description(id, command, delay))
    }

    /// Records that login code `code` has been used.
    pub fn add_to_used_codes(&mut self, code: u32)
        ensures
            final(self)@ == (StateView { used_codes: old(self)@.used_codes.push(code), ..old(self)@ }),
    {
        self.used_codes.push(code);
    }

    /// A state with no core, no used codes, no logged-in players and no loops.
    pub fn new() -> (r: State)
        ensures
            r@.core == Seq::<BlockPos>::empty(),
            r@.used_codes == Seq::<u32>::empty(),
            r@.auth_users == Seq::<Seq<char>>::empty(),
            r@.loops == Seq::<i32>::empty(),
            r@.loops_text == Seq::<Seq<char>>::empty(),
            state_wf(r@),
    {
        let r = State {
            core_generator: Core { core_coordinates: Vec::new() },
            used_codes: Vec::new(),
            auth_users: Vec::new(),
            loops: Vec::new(),
            loops_text: Vec::new(),
        };
        assert(r@.auth_users =~= Seq::<Seq<char>>::empty());
        assert(r@.loops_text =~= Seq::<Seq<char>>::empty());
        r
    }

    /// Handles a loop command: `action` is `start` or `stop`, `delay` the
    /// delay in milliseconds (`start`) or the loop id (`stop`).
    pub fn run_loop(&mut self, action: &String, delay: &String, command: &String) -> (r: Vec<
        Action,
    >)
        requires
            state_wf(old(self)@),
            loop_ok(old(self)@, action@, delay@),
        ensures
            state_wf(final(self)@),
            (final(self)@, actions_view(r@)) == loop_spec(old(self)@, action@, delay@, command@),
    {
        let ghost s0 = self@;
        let mut actions: Vec<Action> = Vec::new();
        let is_stop = text_is(action, "stop");
        let taken = if self.loops.len() > 0 {
            let id = parse_i32_text(delay.as_str()).unwrap();
            holds_id(&self.loops, id) && !is_stop
        } else {
            false
        };
        if taken {
            actions.push(tell_action("A loop with that id already exists!"));
            assert(actions_view(actions@) =~= seq![tell("A loop with that id already exists!"@)]);
            return actions;
        }
        if text_is(action, "start") {
            let d = parse_u64_text(delay.as_str()).unwrap();
            let (id, text) = self.new_loop(command, d);
            self.loops.push(id);
            let ghost t = text@;
            self.loops_text.push(text);
            actions.push(Action::StartLoop { id, command: copy_string(command), delay: d });
            actions.push(text_with_number_tell("Started loop ", id as i64));
            proof {
                assert(self.loops_text.deep_view() =~= s0.loops_text.push(t));
                assert(actions_view(actions@) =~= seq![
                    ActionView::StartLoop { id, command: command@, delay: d },
                    tell("Started loop "@ + decimal(id as int)),
                ]);
            }
        } else if is_stop {
            let target = parse_i32_text(delay.as_str()).unwrap();
            match first_index(&self.loops, target) {
                Some(pos) => {
                    proof {
                        lemma_first_index_found(s0.loops, target);
                    }
                    self.loops.remove(pos);
                    self.loops_text.remove(pos);
                    actions.push(Action::StopLoop { index: pos });
                    actions.push(text_with_number_tell("Stopped loop ", target as i64));
                    proof {
                        assert(self.loops_text.deep_view() =~= s0.loops_text.remove(pos as int));
                        assert(actions_view(actions@) =~= seq![
                            ActionView::StopLoop { index: pos },
                            tell("Stopped loop "@ + decimal(target as int)),
                        ]);
                        assert forall|i: int| 0 <= i < self.loops@.len() implies #[trigger] self.loops@[i] >= 1 by {
                            if i < pos {
                                assert(self.loops@[i] == s0.loops[i]);
                            } else {
                                assert(self.loops@[i] == s0.loops[i + 1]);
                            }
                        }
                    }
                },
                None => {
                    assert(actions_view(actions@) =~= Seq::<ActionView>::empty());
                },
            }
        } else {
            assert(actions_view(actions@) =~= Seq::<ActionView>::empty());
        }
        actions
    }

    /// Logs `uuid` in when `code` is a valid login code at `now` for one of
    /// `secrets`: the player joins the logged-in players and the code the
    /// used codes. Answers whether the code was valid.
    pub fn login(&mut self, uuid: &String, code: &String, secrets: &str, now: u64) -> (r: bool)
        requires
            code_readable(code@),
        ensures
            r == code_accepted(code@, secrets@, now),
            final(self)@ == (if r {
                StateView {
                    auth_users: old(self)@.auth_users.push(uuid@),
                    used_codes: old(self)@.used_codes.push(parse_u32_spec(code@)->0),
                    ..old(self)@
                }
            } else {
                old(self)@
            }),
    {
        let ghost s0 = self@;
        if validate(code, secrets, now) {
            self.auth_users.push(copy_string(uuid));
            let used = match parse_u32_text(code.as_str()) {
                Some(v) => v,
                None => 0,
            };
            self.add_to_used_codes(used);
            assert(self.auth_users.deep_view() =~= s0.auth_users.push(uuid@));
            true
        } else {
            false
        }
    }

    /// Forgets that the player `uuid` logged in.
    pub fn remove_player(&mut self, uuid: &String)
        ensures
            final(self)@ == (StateView { auth_users: without(old(self)@.auth_users, uuid@), ..old(self)@ }),
    {
        let ghost users = self.auth_users.deep_view();
        let mut kept: Vec<String> = Vec::new();
        for i in 0..self.auth_users.len()
            invariant
                users == self.auth_users.deep_view(),
                kept.deep_view() == without(users.take(i as int), uuid@),
        {
            proof {
                assert(users.take(i + 1).drop_last() == users.take(i as int));
                assert(users.take(i + 1).last() == self.auth_users[i as int]@);
            }
            if !self.auth_users[i].eq(uuid) {
                let ghost before = kept.deep_view();
                let u = copy_string(&self.auth_users[i]);
                kept.push(u);
                assert(kept.deep_view() =~= before.push(self.auth_users[i as int]@));
            }
        }
        assert(users.take(users.len() as int) == users);
        self.auth_users = kept;
    }
}

fn text_with_number_tell(prefix: &str, n: i64) -> (r: Action)
    ensures
        r@ == tell(prefix@ + decimal(n as int)),
{
    let t = text_with_number(prefix, n);
    Action::Run(tellraw(t.as_str()))
}

fn markup_action(msg: &str) -> (r: Action)
    ensures
        r@ == ActionView::Markup(msg@),
{
    let mut s = String::new();
    s.append(msg);
    Action::Markup(s)
}

fn run_action(cmd: &str) -> (r: Action)
    ensures
        r@ == ActionView::Run(cmd@),
{
    let mut s = String::new();
    s.append(cmd);
    Action::Run(s)
}

impl BotCommand {
    /// Carries out the command given by `sender_uid`, updating `state`;
    /// `secrets` and `now` are the login secrets and the time.
    pub fn execute(
        &self,
        state: &mut State,
        sender_uid: &String,
        secrets: &Option<String>,
        now: u64,
    ) -> (r: Vec<Action>)
        requires
            state_wf(old(state)@),
            command_ok(old(state)@, self@, secrets.deep_view()),
        ensures
            state_wf(final(state)@),
            (final(state)@, actions_view(r@)) == command_spec(
                old(state)@,
                self@,
                sender_uid@,
                secrets.deep_view(),
                now,
            ),
    {
        let mut actions: Vec<Action> = Vec::new();
        match self {
            BotCommand::Core => {
                assert(actions_view(actions@) =~= Seq::<ActionView>::empty());
            },
            BotCommand::List => {
                actions.push(markup_action("<gray>Players <gray>currently <gray>online:"));
                actions.push(run_action("sudo * c:*"));
                assert(actions_view(actions@) =~= seq![ActionView::Markup(list_markup()), ActionView::Run("sudo * c:*"@)]);
            },
            BotCommand::AdvancedTellraw(message) => {
                actions.push(Action::Markup(copy_string(message)));
                assert(actions_view(actions@) =~= seq![ActionView::Markup(message@)]);
            },
            BotCommand::Info => {
                actions.push(
                    markup_action("<blue>Join <blue>the <blue>discord: [https://discord.gg/9zSgbreY]"),
                );
                assert(actions_view(actions@) =~= seq![ActionView::Markup(info_markup())]);
            },
            BotCommand::Disable(_user) => {
                actions.push(tell_action("Coming soon"));
                assert(actions_view(actions@) =~= seq![tell("Coming soon"@)]);
            },
            BotCommand::Light(user) => {
                actions.push(Action::Run(light_command(user.as_str())));
                assert(actions_view(actions@) =~= seq![ActionView::Run(light_text(user@))]);
            },
            BotCommand::Loop(action, delay, command) => {
                return state.run_loop(action, delay, command);
            },
            BotCommand::Execute(cmd) => {
                let mut m = String::new();
                m.append("running ");
                m.append(cmd.as_str());
                actions.push(tell_action(m.as_str()));
                actions.push(Action::Run(copy_string(cmd)));
                assert(actions_view(actions@) =~= seq![tell("running "@ + cmd@), ActionView::Run(cmd@)]);
            },
            BotCommand::Loops => {
                let ghost texts = state@.loops_text;
                for i in 0..state.loops_text.len()
                    invariant
                        texts == state@.loops_text,
                        actions@.len() == i,
                        actions_view(actions@) =~= Seq::new(i as nat, |k: int| tell(texts[k])),
                {
                    assert(texts[i as int] == state.loops_text[i as int]@);
                    let ghost before = actions@;
                    let a = tell_action(state.loops_text[i].as_str());
                    actions.push(a);
                    assert forall|k: int| 0 <= k < i implies actions@[k]@ == tell(texts[k]) by {
                        assert(actions@[k] == before[k]);
                        assert(actions_view(before)[k] == before[k]@);
                    }
                    assert(actions@[i as int]@ == tell(texts[i as int]));
                    assert(actions_view(actions@) =~= Seq::new((i + 1) as nat, |k: int| tell(texts[k])));
                }
            },
            BotCommand::Help => {
                actions.push(
                    markup_action(
                        "<gray>Commands <gray>(<aqua>8<gray>) <gray>- <aqua>info, <aqua>help, <aqua>exe, <aqua>tellraw, <aqua>login, <aqua>loops, <yellow>core, <yellow>loop",
                    ),
                );
                assert(actions_view(actions@) =~= seq![ActionView::Markup(help_markup())]);
            },
            BotCommand::Kick(user) => {
                actions.push(Action::Run(kick_command(user.as_str())));
                assert(actions_view(actions@) =~= seq![ActionView::Run(kick_text(user@))]);
            },
            BotCommand::Tellraw(msg) => {
                actions.push(tell_action(msg.as_str()));
                assert(actions_view(actions@) =~= seq![tell(msg@)]);
            },
            BotCommand::Login(code) => {
                let secret_text = match secrets {
                    Some(t) => t,
                    None => {
                        return actions;
                    },
                };
                if state.login(sender_uid, code, secret_text.as_str(), now) {
                    actions.push(tell_action("Succesfully authenticated"));
                    assert(actions_view(actions@) =~= seq![tell("Succesfully authenticated"@)]);
                } else {
                    actions.push(tell_action("Couldn't authenticate"));
                    assert(actions_view(actions@) =~= seq![tell("Couldn't authenticate"@)]);
                }
            },
        }
        actions
    }
}

/// Appends the actions that end the handling of a chat line.
fn push_after_chat(actions: &mut Vec<Action>, content: &String, display: &String, creative: bool)
    ensures
        actions_view(final(actions)@) == actions_view(old(actions)@) + after_chat(
            content@,
            display@,
            creative,
        ),
{
    let ghost start = actions@;
    if !creative {
        actions.push(run_chat("/gmc"));
    }
    let ghost middle = actions@;
    let text = chars_of(content.as_str());
    let marker = chars_of("Command set: ");
    if !contains_chars(&text, &marker) {
        actions.push(Action::Webhook(copy_string(display)));
    }
    assert(actions_view(actions@) =~= actions_view(start) + after_chat(content@, display@, creative));
}

fn run_chat(line: &str) -> (r: Action)
    ensures
        r@ == ActionView::Chat(line@),
{
    let mut s = String::new();
    s.append(line);
    Action::Chat(s)
}

impl State {
    /// Whether a loop command is handled without a panic.
    fn loop_acceptable(&self, action: &String, delay: &String) -> (r: bool)
        ensures
            r == loop_ok(self@, action@, delay@),
    {
        let as_id = parse_i32_text(delay.as_str());
        let stop = text_is(action, "stop");
        let start = text_is(action, "start");
        if self.loops.len() > 0 && as_id.is_none() {
            return false;
        }
        let taken = self.loops.len() > 0 && holds_id(&self.loops, as_id.unwrap()) && !stop;
        if !taken && start {
            if parse_u64_text(delay.as_str()).is_none() {
                return false;
            }
            if self.loops.len() >= 2147483647 {
                return false;
            }
        }
        if stop && as_id.is_none() {
            return false;
        }
        true
    }

    /// Whether a command is handled without a panic.
    fn command_acceptable(&self, command: &BotCommand, secrets: &Option<String>) -> (r: bool)
        ensures
            r == command_ok(self@, command@, secrets.deep_view()),
    {
        match command {
            BotCommand::Loop(action, delay, _) => self.loop_acceptable(action, delay),
            BotCommand::Login(code) => secrets.is_some() && parse_u32_text(code.as_str()).is_some(),
            _ => true,
        }
    }

    /// Whether the bot handles `event` without a panic; `handle` may only be
    /// given such events.
    pub fn accepts(&self, event: &Event, secrets: &Option<String>) -> (r: bool)
        ensures
            r == handle_ok(self@, event@, secrets.deep_view()),
    {
        match event {
            Event::Chat { content, sender, .. } => match command_words(content) {
                Some(parts) => {
                    if parts.len() == 0 {
                        return false;
                    }
                    assert(parts.deep_view()[0] == parts[0]@);
                    if text_is(&parts[0], "loop") && parts.len() < 2 {
                        return false;
                    }
                    let uid = match sender {
                        Some(u) => u,
                        None => {
                            return false;
                        },
                    };
                    let command = BotCommand::parse(&parts);
                    if command.requires_auth() && !contains_string(&self.auth_users, uid) {
                        true
                    } else {
                        self.command_acceptable(&command, secrets)
                    }
                },
                None => true,
            },
            Event::Spawn { bot_pos } => bot_pos.x <= 2147483642 && bot_pos.z <= 2147483645,
            Event::BlockUpdate { pos, is_command_block, bot_pos } => {
                if self.core_generator.holds_position(*pos) && !is_command_block {
                    bot_pos.x <= 2147483642 && bot_pos.z <= 2147483645
                } else {
                    true
                }
            },
            _ => true,
        }
    }

    /// Handles `event`: updates the state and answers the actions to carry
    /// out, in order. `secrets` are the login secrets, when configured, and
    /// `now` the time in seconds since the Unix epoch.
    pub fn handle(&mut self, event: &Event, secrets: &Option<String>, now: u64) -> (r: Vec<Action>)
        requires
            state_wf(old(self)@),
            handle_ok(old(self)@, event@, secrets.deep_view()),
        ensures
            state_wf(final(self)@),
            (final(self)@, actions_view(r@)) == handle_spec(
                old(self)@,
                event@,
                secrets.deep_view(),
                now,
            ),
    {
        let ghost s0 = self@;
        match event {
            Event::Chat { content, display, sender, creative } => {
                let mut actions: Vec<Action> = Vec::new();
                match command_words(content) {
                    Some(parts) => {
                        let command = BotCommand::parse(&parts);
                        let uid = match sender {
                            Some(u) => u,
                            None => {
                                return actions;
                            },
                        };
                        if command.requires_auth() && !contains_string(&self.auth_users, uid) {
                            actions.push(tell_action("Woah, login first!"));
                            assert(actions_view(actions@) =~= seq![tell("Woah, login first!"@)]);
                            return actions;
                        }
                        actions = command.execute(self, uid, secrets, now);
                    },
                    None => {
                        assert(actions_view(actions@) =~= Seq::<ActionView>::empty());
                    },
                }
                push_after_chat(&mut actions, content, display, *creative);
                actions
            },
            Event::Spawn { bot_pos } => {
                let refreshed = self.core_generator.gen_core_sync(*bot_pos);
                let mut actions: Vec<Action> = Vec::new();
                actions.push(Action::Chat(refreshed.command));
                assert(actions_view(actions@) =~= seq![ActionView::Chat(fill_text(*bot_pos))]);
                actions
            },
            Event::RemovePlayer { uuid } => {
                self.remove_player(uuid);
                let actions: Vec<Action> = Vec::new();
                assert(actions_view(actions@) =~= Seq::<ActionView>::empty());
                actions
            },
            Event::BlockUpdate { pos, is_command_block, bot_pos } => {
                let mut actions: Vec<Action> = Vec::new();
                if self.core_generator.holds_position(*pos) && !is_command_block {
                    let mut scratch = Core { core_coordinates: Vec::new() };
                    let refreshed = scratch.gen_core(*bot_pos);
                    actions.push(Action::Run(refreshed.command));
                    assert(actions_view(actions@) =~= seq![ActionView::Run(fill_text(*bot_pos))]);
                } else {
                    assert(actions_view(actions@) =~= Seq::<ActionView>::empty());
                }
                actions
            },
            Event::EntityEvent { event_id } => {
                let mut actions: Vec<Action> = Vec::new();
                if *event_id == 24 {
                    actions.push(run_chat("/op @s[type=player]"));
                    assert(actions_view(actions@) =~= seq![ActionView::Chat("/op @s[type=player]"@)]);
                } else {
                    assert(actions_view(actions@) =~= Seq::<ActionView>::empty());
                }
                actions
            },
            Event::Other => {
                let actions: Vec<Action> = Vec::new();
                assert(actions_view(actions@) =~= Seq::<ActionView>::empty());
                actions
            },
        }
    }
}

} // verus!
