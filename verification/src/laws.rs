//! Properties of the bot that hold across its operations.
use vstd::prelude::*;
use crate::auth::{code_accepted, hotp_matches, prepend_first, secret_list, split_on, lemma_split_nonempty, totp_accepts};
use crate::text::{starts_with, trim};
use crate::markup::{components, group_text, link_component, piece_components, text_component};
use vstd::utf8::encode_utf8;
use crate::bot::{
    command_ok, command_spec, first_index_of, handle_ok, handle_spec, loop_spec, loop_taken, state_wf, tell,
    without, loop_text, ActionView, EventView, StateView,
};
use crate::cmdcore::{core_box, core_max, core_min, execute_steps, fill_text, BlockPos, ExecuteStepView};
use crate::command::{command_of, command_words_of, needs_auth, CommandView};
use crate::number::{decimal, lemma_parse_i32_decimal, parse_i32_spec, parse_u32_spec, parse_u64_spec};
use crate::text::{is_white_space, scan_words, words};

verus! {

/// Handling an event keeps every running loop described and its id positive.
pub proof fn law_handle_keeps_loops_well_formed(
    s: StateView,
    e: EventView,
    secrets: Option<Seq<char>>,
    now: u64,
)
    requires
        state_wf(s),
        handle_ok(s, e, secrets),
    ensures
        state_wf(handle_spec(s, e, secrets, now).0),
{
    if let EventView::Chat { content, display, sender, creative } = e {
        if let Some(parts) = command_words_of(content) {
            let cmd = command_of(parts);
            if !(needs_auth(cmd) && !s.auth_users.contains(sender->0)) {
                if let CommandView::Loop(a, d, c) = cmd {
                    let t = loop_spec(s, a, d, c).0;
                    if !loop_taken(s, a, d) && a != "start"@ && a == "stop"@ {
                        let target = parse_i32_spec(d)->0;
                        if let Some(p) = first_index_of(s.loops, target) {
                            lemma_first_index_in_range(s.loops, target);
                            assert forall|i: int| 0 <= i < t.loops.len() implies #[trigger] t.loops[i] >= 1 by {
                                if i < p {
                                    assert(t.loops[i] == s.loops[i]);
                                } else {
                                    assert(t.loops[i] == s.loops[i + 1]);
                                }
                            }
                        }
                    } else if !loop_taken(s, a, d) && a == "start"@ {
                        assert forall|i: int| 0 <= i < t.loops.len() implies #[trigger] t.loops[i] >= 1 by {
                            if i < s.loops.len() {
                                assert(t.loops[i] == s.loops[i]);
                            }
                        }
                    }
                }
            }
        }
    }
}

proof fn lemma_first_index_in_range(ids: Seq<i32>, t: i32)
    ensures
        first_index_of(ids, t) matches Some(p) ==> 0 <= p < ids.len() && ids[p] == t,
        first_index_of(ids, t) matches Some(p) ==> forall|k: int| 0 <= k < p ==> ids[k] != t,
    decreases ids.len(),
{
    if ids.len() > 0 {
        lemma_first_index_in_range(ids.drop_first(), t);
        if ids[0] != t {
            if let Some(p) = first_index_of(ids.drop_first(), t) {
                assert forall|k: int| 0 <= k < p + 1 implies ids[k] != t by {
                    if k > 0 {
                        assert(ids[k] == ids.drop_first()[k - 1]);
                    }
                }
            }
        }
    }
}

/// A command that needs a login, from a player who has not logged in, is
/// answered with one message asking to log in, and changes nothing.
pub proof fn law_login_required(
    s: StateView,
    content: Seq<char>,
    display: Seq<char>,
    sender: Seq<char>,
    creative: bool,
    secrets: Option<Seq<char>>,
    now: u64,
)
    requires
        command_words_of(content) is Some,
        needs_auth(command_of(command_words_of(content)->0)),
        !s.auth_users.contains(sender),
    ensures
        handle_spec(
            s,
            EventView::Chat { content, display, sender: Some(sender), creative },
            secrets,
            now,
        ) == (s, seq![tell("Woah, login first!"@)]),
{
}

/// A login with a code that some secret accepts adds the player to the
/// logged-in players and the code to the used codes; any other login code
/// changes nothing.
pub proof fn law_login_outcome(
    s: StateView,
    code: Seq<char>,
    sender: Seq<char>,
    secrets: Seq<char>,
    now: u64,
)
    ensures
        ({
            let t = command_spec(s, CommandView::Login(code), sender, Some(secrets), now).0;
            if code_accepted(code, secrets, now) {
                &&& t.auth_users.contains(sender)
                &&& t.used_codes.contains(parse_u32_spec(code)->0)
                &&& t.auth_users.drop_last() == s.auth_users
                &&& t.loops == s.loops
            } else {
                t == s
            }
        }),
{
    let t = command_spec(s, CommandView::Login(code), sender, Some(secrets), now).0;
    if code_accepted(code, secrets, now) {
        assert(t.auth_users[t.auth_users.len() - 1] == sender);
        assert(t.used_codes[t.used_codes.len() - 1] == parse_u32_spec(code)->0);
        assert(t.auth_users.drop_last() == s.auth_users);
    }
}

proof fn lemma_without(users: Seq<Seq<char>>, u: Seq<char>)
    ensures
        !without(users, u).contains(u),
        forall|v: Seq<char>| v != u ==> (#[trigger] without(users, u).contains(v) <==> users.contains(v)),
    decreases users.len(),
{
    if users.len() > 0 {
        let rest = users.drop_last();
        lemma_without(rest, u);
        assert forall|v: Seq<char>| v != u implies (#[trigger] without(users, u).contains(v)
            <==> users.contains(v)) by {
            let w = without(users, u);
            if users.contains(v) {
                let k = choose|k: int| 0 <= k < users.len() && users[k] == v;
                if k < users.len() - 1 {
                    assert(rest[k] == v);
                    assert(rest.contains(v));
                    assert(without(rest, u).contains(v));
                    let j = choose|j: int| 0 <= j < without(rest, u).len() && without(rest, u)[j] == v;
                    assert(w[j] == v);
                } else {
                    assert(users.last() == v);
                    assert(w.last() == v);
                }
            }
            if w.contains(v) {
                let k = choose|k: int| 0 <= k < w.len() && w[k] == v;
                if users.last() != u && k == w.len() - 1 {
                    assert(users[users.len() - 1] == v);
                } else {
                    assert(without(rest, u)[k] == v);
                    assert(without(rest, u).contains(v));
                    assert(rest.contains(v));
                    let j = choose|j: int| 0 <= j < rest.len() && rest[j] == v;
                    assert(users[j] == v);
                }
            }
        }
        if without(users, u).contains(u) {
            let k = choose|k: int| 0 <= k < without(users, u).len() && without(users, u)[k] == u;
            if users.last() != u && k == without(users, u).len() - 1 {
            } else {
                assert(without(rest, u)[k] == u);
            }
        }
    }
}

/// When a player leaves, they are no longer logged in, and every other
/// player keeps their login; nothing else changes.
pub proof fn law_leaving_player_logged_out(s: StateView, uuid: Seq<char>, secrets: Option<Seq<char>>, now: u64)
    ensures
        ({
            let (t, acts) = handle_spec(s, EventView::RemovePlayer { uuid }, secrets, now);
            &&& !t.auth_users.contains(uuid)
            &&& forall|v: Seq<char>| v != uuid ==> (#[trigger] t.auth_users.contains(v) <==> s.auth_users.contains(v))
            &&& t.loops == s.loops
            &&& t.used_codes == s.used_codes
            &&& acts.len() == 0
        }),
{
    lemma_without(s.auth_users, uuid);
}

/// Starting a loop and then stopping it by its id gives back the loops that
/// ran before, when no running loop already had that id.
pub proof fn law_start_then_stop(s: StateView, start_delay: Seq<char>, command: Seq<char>)
    requires
        state_wf(s),
        !loop_taken(s, "start"@, start_delay),
        parse_u64_spec(start_delay) is Some,
        s.loops.len() + 1 <= i32::MAX,
        !s.loops.contains((s.loops.len() + 1) as i32),
    ensures
        ({
            let id = (s.loops.len() + 1) as i32;
            let started = loop_spec(s, "start"@, start_delay, command).0;
            let stopped = loop_spec(started, "stop"@, decimal(id as int), seq![]);
            &&& started.loops.contains(id)
            &&& stopped.0.loops == s.loops
            &&& stopped.0.loops_text == s.loops_text
            &&& stopped.1 == seq![
                ActionView::StopLoop { index: s.loops.len() as usize },
                tell("Stopped loop "@ + decimal(id as int)),
            ]
        }),
{
    reveal_strlit("start");
    reveal_strlit("stop");
    let id = (s.loops.len() + 1) as i32;
    assert("start"@ != "stop"@) by {
        assert("start"@[2] != "stop"@[2]);
    }
    let started = loop_spec(s, "start"@, start_delay, command).0;
    assert(started.loops == s.loops.push(id));
    assert(started.loops[s.loops.len() as int] == id);
    lemma_parse_i32_decimal(id);
    assert(!loop_taken(started, "stop"@, decimal(id as int)));
    lemma_first_index_in_range(started.loops, id);
    lemma_first_index_at_end(s.loops, id);
    assert(started.loops.remove(s.loops.len() as int) =~= s.loops);
    assert(started.loops_text.remove(s.loops.len() as int) =~= s.loops_text);
}

proof fn lemma_first_index_at_end(ids: Seq<i32>, t: i32)
    requires
        !ids.contains(t),
    ensures
        first_index_of(ids.push(t), t) == Some(ids.len() as int),
    decreases ids.len(),
{
    if ids.len() > 0 {
        assert(!ids.drop_first().contains(t)) by {
            if ids.drop_first().contains(t) {
                let k = choose|k: int| 0 <= k < ids.len() - 1 && ids.drop_first()[k] == t;
                assert(ids[k + 1] == t);
            }
        }
        lemma_first_index_at_end(ids.drop_first(), t);
        assert(ids.push(t).drop_first() =~= ids.drop_first().push(t));
        assert(ids[0] != t);
    }
}

/// A block update never changes the state: when it breaks the core, only a
/// `/fill` for a new core is run.
pub proof fn law_block_update_keeps_state(
    s: StateView,
    pos: BlockPos,
    is_command_block: bool,
    bot_pos: BlockPos,
    secrets: Option<Seq<char>>,
    now: u64,
)
    ensures
        handle_spec(s, EventView::BlockUpdate { pos, is_command_block, bot_pos }, secrets, now).0
            == s,
        handle_spec(s, EventView::BlockUpdate { pos, is_command_block, bot_pos }, secrets, now).1
            == (if s.core.contains(pos) && !is_command_block {
            seq![ActionView::Run(fill_text(bot_pos))]
        } else {
            seq![]
        }),
{
}

/// A command run through the core is always written to the chosen block,
/// as the last step, after at most two core rebuilds.
pub proof fn law_execute_targets_chosen_block(
    bot: BlockPos,
    target: BlockPos,
    is_command_block: bool,
    command: Seq<char>,
)
    ensures
        ({
            let steps = execute_steps(bot, target, is_command_block, command);
            &&& 1 <= steps.len() <= 3
            &&& steps.last() == ExecuteStepView::SetCommandBlock(target, command)
            &&& forall|i: int| 0 <= i < steps.len() - 1 ==> steps[i] == ExecuteStepView::Chat(
                fill_text(bot),
            )
        }),
{
}

/// Every word of a text is non-empty and holds no whitespace.
pub proof fn law_words_are_clean(s: Seq<char>)
    ensures
        forall|i: int| 0 <= i < words(s).len() ==> (#[trigger] words(s)[i]).len() > 0,
        forall|i: int, j: int|
            0 <= i < words(s).len() && 0 <= j < words(s)[i].len() ==> !is_white_space(
                #[trigger] words(s)[i][j],
            ),
{
    lemma_scan_clean(s);
}

proof fn lemma_scan_clean(s: Seq<char>)
    ensures
        forall|i: int| 0 <= i < scan_words(s).0.len() ==> (#[trigger] scan_words(s).0[i]).len() > 0,
        forall|i: int, j: int|
            0 <= i < scan_words(s).0.len() && 0 <= j < scan_words(s).0[i].len() ==> !is_white_space(
                #[trigger] scan_words(s).0[i][j],
            ),
        forall|j: int| 0 <= j < scan_words(s).1.len() ==> !is_white_space(#[trigger] scan_words(s).1[j]),
    decreases s.len(),
{
    if s.len() > 0 {
        lemma_scan_clean(s.drop_last());
        let (done, cur) = scan_words(s.drop_last());
        let c = s.last();
        if !is_white_space(c) {
            assert forall|j: int| 0 <= j < cur.push(c).len() implies !is_white_space(#[trigger] cur.push(c)[j]) by {
                if j < cur.len() {
                    assert(cur.push(c)[j] == cur[j]);
                }
            }
        } else if cur.len() > 0 {
            assert forall|i: int| 0 <= i < done.push(cur).len() implies (#[trigger] done.push(cur)[i]).len() > 0 by {
                if i < done.len() {
                    assert(done.push(cur)[i] == done[i]);
                }
            }
            assert forall|i: int, j: int|
                0 <= i < done.push(cur).len() && 0 <= j < done.push(cur)[i].len() implies !is_white_space(
                #[trigger] done.push(cur)[i][j],
            ) by {
                if i < done.len() {
                    assert(done.push(cur)[i] == done[i]);
                }
            }
        }
    }
}

/// A new core has the 54 positions of the box beside the bot, all between
/// heights 0 and 2, within five blocks east and two south of the bot.
pub proof fn law_core_box_shape(bot: BlockPos)
    requires
        bot.x + 5 <= i32::MAX,
        bot.z + 2 <= i32::MAX,
    ensures
        core_box(bot).len() == 54,
        forall|i: int| 0 <= i < 54 ==> {
            let p = #[trigger] core_box(bot)[i];
            &&& bot.x <= p.x <= bot.x + 5
            &&& 0 <= p.y <= 2
            &&& bot.z <= p.z <= bot.z + 2
        },
        core_box(bot)[0] == (BlockPos { x: bot.x, y: 0, z: bot.z }),
{
    let lx = core_max(bot).x - core_min(bot).x + 1;
    let ly = core_max(bot).y - core_min(bot).y + 1;
    let lz = core_max(bot).z - core_min(bot).z + 1;
    assert(lx == 6 && ly == 3 && lz == 3);
    assert(core_box(bot).len() == 54);
    assert forall|i: int| 0 <= i < 54 implies {
        let p = #[trigger] core_box(bot)[i];
        &&& bot.x <= p.x <= bot.x + 5
        &&& 0 <= p.y <= 2
        &&& bot.z <= p.z <= bot.z + 2
    } by {
        assert(0 <= i % 6 < 6);
        assert(0 <= (i / 6) % 3 < 3);
        assert(0 <= (i / 6) / 3 < 3);
    }
}

/// The command that a chat event carries, if any.
pub open spec fn chat_command(e: EventView) -> Option<CommandView> {
    match e {
        EventView::Chat { content, .. } => match command_words_of(content) {
            Some(parts) => Some(command_of(parts)),
            None => None,
        },
        _ => None,
    }
}

/// Each part of the state changes only through its own events: the used
/// codes only by a `login`, the logged-in players only by a `login` or a
/// player leaving, the loops only by a `loop` command, and the core only when
/// the bot spawns.
pub proof fn law_state_changes_by_owner(s: StateView, e: EventView, secrets: Option<Seq<char>>, now: u64)
    ensures
        ({
            let t = handle_spec(s, e, secrets, now).0;
            let cmd = chat_command(e);
            &&& !(cmd matches Some(CommandView::Login(_))) ==> t.used_codes == s.used_codes
            &&& !(cmd matches Some(CommandView::Login(_))) && !(e is RemovePlayer) ==> t.auth_users
                == s.auth_users
            &&& !(cmd matches Some(CommandView::Loop(_, _, _))) ==> t.loops == s.loops
                && t.loops_text == s.loops_text
            &&& !(e is Spawn) ==> t.core == s.core
        }),
{
}

/// Splitting `a`, the two-character separator `sep` and `b` gives the pieces
/// of `a` followed by those of `b`, when the separator's two characters
/// differ (so no occurrence can straddle the joint).
pub proof fn lemma_split_joined(a: Seq<char>, sep: Seq<char>, b: Seq<char>)
    requires
        sep.len() == 2,
        sep[0] != sep[1],
    ensures
        split_on(a + sep + b, sep) == split_on(a, sep) + split_on(b, sep),
    decreases a.len(),
{
    let x = a + sep + b;
    if a.len() == 0 {
        assert(x =~= sep + b);
        assert(starts_with(x, sep)) by {
            assert(x.take(2) =~= sep);
        }
        assert(x.skip(2) =~= b);
    } else if starts_with(a, sep) {
        assert(x.take(2) =~= a.take(2));
        assert(x.skip(2) =~= a.skip(2) + sep + b);
        lemma_split_joined(a.skip(2), sep, b);
        assert(split_on(x, sep) =~= split_on(a, sep) + split_on(b, sep));
    } else {
        assert(!starts_with(x, sep)) by {
            if a.len() >= 2 {
                assert(x.take(2) =~= a.take(2));
            } else {
                assert(x[1] == sep[0]);
                if starts_with(x, sep) {
                    assert(x.take(2)[1] == sep[1]);
                }
            }
        }
        assert(x.drop_first() =~= a.drop_first() + sep + b);
        assert(x[0] == a[0]);
        lemma_split_joined(a.drop_first(), sep, b);
        lemma_split_nonempty(a.drop_first(), sep);
        let pa = split_on(a.drop_first(), sep);
        let pb = split_on(b, sep);
        assert(prepend_first(seq![a[0]], pa + pb) =~= prepend_first(seq![a[0]], pa) + pb);
    }
}

/// Some secret piece of `secrets` accepts `code` at `now`, as a piece.
proof fn lemma_accepted_piece(code: Seq<char>, secrets: Seq<char>, now: u64) -> (i: int)
    requires
        code_accepted(code, secrets, now),
    ensures
        0 <= i < secret_list(secrets).len(),
        totp_accepts(encode_utf8(secret_list(secrets)[i]), now, crate::number::parse_u32_spec(code)->0),
{
    let keys = secret_list(secrets);
    let value = crate::number::parse_u32_spec(code)->0;
    choose|i: int| 0 <= i < keys.len() && totp_accepts(encode_utf8(#[trigger] keys[i]), now, value)
}

/// A code that some secret accepts stays accepted when more secrets are
/// configured, before or after the others.
pub proof fn law_more_secrets_keep_code_accepted(
    code: Seq<char>,
    secrets: Seq<char>,
    more: Seq<char>,
    now: u64,
)
    requires
        code_accepted(code, secrets, now),
    ensures
        code_accepted(code, secrets + ", "@ + more, now),
        code_accepted(code, more + ", "@ + secrets, now),
{
    reveal_strlit(", ");
    let value = crate::number::parse_u32_spec(code)->0;
    let i = lemma_accepted_piece(code, secrets, now);
    let ks = secret_list(secrets);
    lemma_split_joined(secrets, ", "@, more);
    lemma_split_joined(more, ", "@, secrets);
    let k1 = secret_list(secrets + ", "@ + more);
    assert(k1[i] == ks[i]);
    assert(totp_accepts(encode_utf8(k1[i]), now, value));
    let k2 = secret_list(more + ", "@ + secrets);
    let m = secret_list(more).len();
    assert(k2[m + i] == ks[i]);
    assert(totp_accepts(encode_utf8(k2[m + i]), now, value));
}

/// Whether a code is accepted depends only on which secret pieces are
/// configured, not on their order or repetition.
pub proof fn law_secret_order_irrelevant(code: Seq<char>, secrets: Seq<char>, other: Seq<char>, now: u64)
    requires
        secret_list(secrets).to_set() == secret_list(other).to_set(),
    ensures
        code_accepted(code, secrets, now) == code_accepted(code, other, now),
{
    let value = crate::number::parse_u32_spec(code)->0;
    if code_accepted(code, secrets, now) {
        let i = lemma_accepted_piece(code, secrets, now);
        let piece = secret_list(secrets)[i];
        assert(secret_list(secrets).to_set().contains(piece));
        assert(secret_list(other).contains(piece));
        let j = choose|j: int| 0 <= j < secret_list(other).len() && secret_list(other)[j] == piece;
        assert(totp_accepts(encode_utf8(secret_list(other)[j]), now, value));
    }
    if code_accepted(code, other, now) {
        let i = lemma_accepted_piece(code, other, now);
        let piece = secret_list(other)[i];
        assert(secret_list(other).to_set().contains(piece));
        assert(secret_list(secrets).contains(piece));
        let j = choose|j: int| 0 <= j < secret_list(secrets).len() && secret_list(secrets)[j] == piece;
        assert(totp_accepts(encode_utf8(secret_list(secrets)[j]), now, value));
    }
}

/// Swapping two groups of secrets never changes whether a code is accepted.
pub proof fn law_swapped_secrets(code: Seq<char>, a: Seq<char>, b: Seq<char>, now: u64)
    ensures
        code_accepted(code, a + ", "@ + b, now) == code_accepted(code, b + ", "@ + a, now),
{
    reveal_strlit(", ");
    lemma_split_joined(a, ", "@, b);
    lemma_split_joined(b, ", "@, a);
    let x = secret_list(a) + secret_list(b);
    let y = secret_list(b) + secret_list(a);
    assert forall|p: Seq<char>| x.contains(p) <==> y.contains(p) by {
        if x.contains(p) {
            let k = choose|k: int| 0 <= k < x.len() && x[k] == p;
            if k < secret_list(a).len() {
                assert(y[secret_list(b).len() + k] == p);
            } else {
                assert(y[k - secret_list(a).len()] == p);
            }
        }
        if y.contains(p) {
            let k = choose|k: int| 0 <= k < y.len() && y[k] == p;
            if k < secret_list(b).len() {
                assert(x[secret_list(a).len() + k] == p);
            } else {
                assert(x[k - secret_list(b).len()] == p);
            }
        }
    }
    assert(x.to_set() =~= y.to_set());
    law_secret_order_irrelevant(code, a + ", "@ + b, b + ", "@ + a, now);
}

/// Each loop description begins with `ID: <its id>, `, and every loop has one.
pub open spec fn loop_texts_match(s: StateView) -> bool {
    &&& s.loops.len() == s.loops_text.len()
    &&& forall|i: int|
        0 <= i < s.loops.len() ==> starts_with(
            #[trigger] s.loops_text[i],
            "ID: "@ + decimal(s.loops[i] as int) + ", "@,
        )
}

/// A new loop's description begins with `ID: <id>, `.
pub proof fn lemma_loop_text_prefix(id: int, command: Seq<char>, delay: u64)
    ensures
        starts_with(loop_text(id, command, delay), "ID: "@ + decimal(id) + ", "@),
{
    reveal_strlit(", ");
    reveal_strlit(", Command: ");
    let p = "ID: "@ + decimal(id) + ", "@;
    let t = loop_text(id, command, delay);
    let head = "ID: "@ + decimal(id);
    assert(t =~= head + ", Command: "@ + command + ", Delay: "@ + decimal(delay as int));
    assert forall|k: int| 0 <= k < p.len() implies t[k] == p[k] by {
        if k < head.len() {
            assert(t[k] == head[k]);
            assert(p[k] == head[k]);
        } else {
            assert(t[k] == ", Command: "@[k - head.len()]);
            assert(p[k] == ", "@[k - head.len()]);
        }
    }
    assert(t.take(p.len() as int) =~= p);
}

/// Every command keeps each running loop's description beginning with
/// `ID: <its id>, `: a start adds a loop and its description together, a
/// stop removes both at the same position, and nothing else touches them.
pub proof fn law_command_keeps_loop_texts(
    s: StateView,
    cmd: CommandView,
    sender: Seq<char>,
    secrets: Option<Seq<char>>,
    now: u64,
)
    requires
        loop_texts_match(s),
        command_ok(s, cmd, secrets),
    ensures
        loop_texts_match(command_spec(s, cmd, sender, secrets, now).0),
{
    let t = command_spec(s, cmd, sender, secrets, now).0;
    if let CommandView::Loop(a, d, c) = cmd {
        if !loop_taken(s, a, d) && a == "start"@ {
            let dv = parse_u64_spec(d)->0;
            let id: int = s.loops.len() as int + 1;
            lemma_loop_text_prefix(id, c, dv);
            assert forall|i: int| 0 <= i < t.loops.len() implies starts_with(
                #[trigger] t.loops_text[i],
                "ID: "@ + decimal(t.loops[i] as int) + ", "@,
            ) by {
                if i < s.loops.len() {
                    assert(t.loops_text[i] == s.loops_text[i]);
                    assert(t.loops[i] == s.loops[i]);
                } else {
                    assert(t.loops[i] as int == id);
                }
            }
        } else if !loop_taken(s, a, d) && a != "start"@ && a == "stop"@ {
            let target = parse_i32_spec(d)->0;
            if let Some(p) = first_index_of(s.loops, target) {
                lemma_first_index_in_range(s.loops, target);
                assert forall|i: int| 0 <= i < t.loops.len() implies starts_with(
                    #[trigger] t.loops_text[i],
                    "ID: "@ + decimal(t.loops[i] as int) + ", "@,
                ) by {
                    if i < p {
                        assert(t.loops_text[i] == s.loops_text[i]);
                        assert(t.loops[i] == s.loops[i]);
                    } else {
                        assert(t.loops_text[i] == s.loops_text[i + 1]);
                        assert(t.loops[i] == s.loops[i + 1]);
                    }
                }
            }
        }
    }
}

/// Handling any event keeps each running loop's description beginning with
/// `ID: <its id>, `.
pub proof fn law_handle_keeps_loop_texts(s: StateView, e: EventView, secrets: Option<Seq<char>>, now: u64)
    requires
        loop_texts_match(s),
        handle_ok(s, e, secrets),
    ensures
        loop_texts_match(handle_spec(s, e, secrets, now).0),
{
    if let EventView::Chat { content, sender, .. } = e {
        if let Some(parts) = command_words_of(content) {
            if !(needs_auth(command_of(parts)) && !s.auth_users.contains(sender->0)) {
                law_command_keeps_loop_texts(s, command_of(parts), sender->0, secrets, now);
            }
        }
    }
}

/// Login codes follow 30-second TOTP steps: a code is accepted at `now` when,
/// for some configured secret, it is that secret's six-digit HOTP code at
/// counter `now / 30`, or at the counter just before or just after; and only
/// then.
pub proof fn law_codes_follow_thirty_second_steps(code: Seq<char>, secrets: Seq<char>, now: u64)
    ensures
        ({
            let v = parse_u32_spec(code)->0;
            let keys = secret_list(secrets);
            let c = now / 30;
            code_accepted(code, secrets, now) <==> exists|i: int|
                0 <= i < keys.len() && {
                    let key = encode_utf8(#[trigger] keys[i]);
                    ||| (c >= 1 && hotp_matches(key, (c - 1) as u64, v, 6))
                    ||| hotp_matches(key, c as u64, v, 6)
                    ||| hotp_matches(key, (c + 1) as u64, v, 6)
                }
        }),
{
}

/// The code of the current 30-second step stays accepted for the whole
/// step: if it is the HOTP code of a configured secret at counter
/// `now / 30`, it is accepted at every time of that step.
pub proof fn law_current_code_accepted_through_step(
    code: Seq<char>,
    secrets: Seq<char>,
    i: int,
    now: u64,
    later: u64,
)
    requires
        0 <= i < secret_list(secrets).len(),
        hotp_matches(encode_utf8(secret_list(secrets)[i]), now / 30, parse_u32_spec(code)->0, 6),
        now / 30 == later / 30,
    ensures
        code_accepted(code, secrets, now),
        code_accepted(code, secrets, later),
{
    let keys = secret_list(secrets);
    let v = parse_u32_spec(code)->0;
    assert(totp_accepts(encode_utf8(keys[i]), now, v));
    assert(totp_accepts(encode_utf8(keys[i]), later, v));
}

/// A target that is not a command block always makes the core be rebuilt
/// with a `/fill` at the bot just before the command is written; a bot
/// more than 1000 blocks from the target (squared distance above 1 000 000)
/// makes the first step a rebuild; and nothing else happens.
pub proof fn law_execute_rebuilds_when_needed(
    bot: BlockPos,
    target: BlockPos,
    is_command_block: bool,
    command: Seq<char>,
)
    ensures
        ({
            let steps = execute_steps(bot, target, is_command_block, command);
            let dx = bot.x - target.x;
            let dy = bot.y - target.y;
            let dz = bot.z - target.z;
            let far = dx * dx + dy * dy + dz * dz > 1_000_000;
            &&& !is_command_block ==> steps.len() >= 2 && steps[steps.len() - 2]
                == ExecuteStepView::Chat(fill_text(bot))
            &&& far ==> steps[0] == ExecuteStepView::Chat(fill_text(bot))
            &&& steps.len() == 1 + (if far { 1int } else { 0int }) + (if !is_command_block {
                1int
            } else {
                0int
            })
            &&& steps.last() == ExecuteStepView::SetCommandBlock(target, command)
        }),
{
}

/// A markup piece with a link gives the clickable link first, whatever its
/// colour; it always ends with its text, in its colour or white when it has
/// none; and it gives nothing else.
pub proof fn law_markup_piece_components(
    cap: (Option<Seq<char>>, Option<Seq<char>>, Option<Seq<char>>),
)
    ensures
        ({
            let link = match cap.0 { Some(t) => t, None => seq![] };
            let color = match cap.1 { Some(t) => t, None => seq![] };
            let text = match cap.2 { Some(t) => t, None => seq![] };
            let out = piece_components(cap);
            &&& out.len() == (if link.len() > 0 { 2int } else { 1int })
            &&& link.len() > 0 ==> out[0] == "{\"text\":\""@ + link
                + "\",\"color\":\"aqua\",\"click_event\":{\"action\":\"open_url\",\"url\":\""@ + trim(
                link,
            ) + "\"}}"@
            &&& out.last() == "{\"text\":\""@ + text + "\",\"color\":\""@ + (if color.len() == 0 {
                "white"@
            } else {
                color
            }) + "\"}"@
        }),
{
}

/// The components of a markup message are those of its pieces, in order:
/// the components of two runs of pieces are the components of the first
/// followed by those of the second.
pub proof fn law_markup_components_concatenate(
    a: Seq<(Option<Seq<char>>, Option<Seq<char>>, Option<Seq<char>>)>,
    b: Seq<(Option<Seq<char>>, Option<Seq<char>>, Option<Seq<char>>)>,
)
    ensures
        components(a + b) == components(a) + components(b),
    decreases b.len(),
{
    if b.len() == 0 {
        assert(a + b =~= a);
        assert(components(b) =~= Seq::<Seq<char>>::empty());
        assert(components(a) + components(b) =~= components(a));
    } else {
        assert((a + b).drop_last() =~= a + b.drop_last());
        assert((a + b).last() == b.last());
        law_markup_components_concatenate(a, b.drop_last());
        assert(components(a + b) =~= components(a) + components(b));
    }
}

/// Stopping a loop by id stops the running loop with that id that started
/// first: the `StopLoop` position holds the id, no earlier loop has it, and
/// the loop and its description are removed at that very position. A stop
/// for an id that no loop has changes nothing.
pub proof fn law_stop_removes_the_stopped_loop(s: StateView, delay: Seq<char>, command: Seq<char>)
    requires
        state_wf(s),
        s.loops.len() <= usize::MAX,
        parse_i32_spec(delay) is Some,
    ensures
        ({
            let target = parse_i32_spec(delay)->0;
            let (t, acts) = loop_spec(s, "stop"@, delay, command);
            &&& s.loops.contains(target) ==> {
                &&& acts.len() == 2
                &&& acts[0] matches ActionView::StopLoop { index } && {
                    &&& index < s.loops.len()
                    &&& s.loops[index as int] == target
                    &&& forall|k: int| 0 <= k < index ==> s.loops[k] != target
                    &&& t.loops == s.loops.remove(index as int)
                    &&& t.loops_text == s.loops_text.remove(index as int)
                }
                &&& acts[1] == tell("Stopped loop "@ + decimal(target as int))
            }
            &&& !s.loops.contains(target) ==> t == s && acts.len() == 0
        }),
{
    let target = parse_i32_spec(delay)->0;
    reveal_strlit("stop");
    reveal_strlit("start");
    assert("stop"@ != "start"@) by {
        assert("stop"@[2] != "start"@[2]);
    }
    assert(!loop_taken(s, "stop"@, delay));
    lemma_first_index_in_range(s.loops, target);
    lemma_first_index_is_some(s.loops, target);
    if s.loops.contains(target) {
        let p = first_index_of(s.loops, target)->0;
        assert(0 <= p < s.loops.len());
        assert((p as usize) as int == p);
    }
}

proof fn lemma_first_index_is_some(ids: Seq<i32>, t: i32)
    ensures
        first_index_of(ids, t) is Some <==> ids.contains(t),
    decreases ids.len(),
{
    if ids.len() > 0 {
        lemma_first_index_is_some(ids.drop_first(), t);
        if ids[0] != t {
            if ids.contains(t) {
                let k = choose|k: int| 0 <= k < ids.len() && ids[k] == t;
                assert(ids.drop_first()[k - 1] == t);
            }
            if ids.drop_first().contains(t) {
                let k = choose|k: int| 0 <= k < ids.len() - 1 && ids.drop_first()[k] == t;
                assert(ids[k + 1] == t);
            }
        } else {
            assert(ids[0] == t);
        }
    }
}

} // verus!
