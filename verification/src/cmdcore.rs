//! The command-block core: a 6x3x3 box of command blocks beside the bot,
//! and the plan for running a command through it.
use vstd::prelude::*;
use vstd::string::StringExecFns;
use rand::Rng;
use crate::number::{decimal, push_decimal_i64};
use crate::text::{chars_of, copy_string, string_of};

verus! {

broadcast use vstd::string::group_string_axioms;

/// A block position in the world.
#[derive(Clone, Copy, Debug, PartialEq, Eq, Structural)]
pub struct BlockPos {
    pub x: i32,
    pub y: i32,
    pub z: i32,
}

impl BlockPos {
    pub fn new(x: i32, y: i32, z: i32) -> (r: BlockPos)
        ensures
            r == (BlockPos { x, y, z }),
    {
        BlockPos { x, y, z }
    }
}

/// The box from `min` to `max` (both included) has a size that `i32` holds.
pub open spec fn box_fits(min: BlockPos, max: BlockPos) -> bool {
    &&& min.x <= max.x
    &&& min.y <= max.y
    &&& min.z <= max.z
    &&& max.x - min.x + 1 <= i32::MAX
    &&& max.y - min.y + 1 <= i32::MAX
    &&& max.z - min.z + 1 <= i32::MAX
    &&& (max.x - min.x + 1) * (max.y - min.y + 1) * (max.z - min.z + 1) <= i32::MAX
}

/// Every position of the box from `min` to `max`, `x` varying fastest,
/// then `y`, then `z`.
pub open spec fn box_positions(min: BlockPos, max: BlockPos) -> Seq<BlockPos> {
    let lx = max.x - min.x + 1;
    let ly = max.y - min.y + 1;
    let lz = max.z - min.z + 1;
    Seq::new(
        (lx * ly * lz) as nat,
        |i: int|
            BlockPos {
                x: (min.x + i % lx) as i32,
                y: (min.y + (i / lx) % ly) as i32,
                z: (min.z + (i / lx) / ly) as i32,
            },
    )
}

proof fn lemma_box_index(i: int, lx: int, ly: int, lz: int)
    requires
        lx >= 1,
        ly >= 1,
        lz >= 1,
        0 <= i < lx * ly * lz,
    ensures
        0 <= i % lx < lx,
        0 <= (i / lx) % ly < ly,
        0 <= (i / lx) / ly < lz,
{
    assert(0 <= i % lx < lx) by (nonlinear_arith)
        requires
            lx >= 1,
    ;
    assert(0 <= i / lx) by (nonlinear_arith)
        requires
            lx >= 1,
            i >= 0,
    ;
    assert(0 <= (i / lx) % ly < ly) by (nonlinear_arith)
        requires
            ly >= 1,
    ;
    assert(i / lx < ly * lz) by (nonlinear_arith)
        requires
            lx >= 1,
            0 <= i < lx * ly * lz,
    ;
    assert(0 <= (i / lx) / ly < lz) by (nonlinear_arith)
        requires
            ly >= 1,
            0 <= i / lx < ly * lz,
    ;
}

/// All positions of the box from `min` to `max`, in the order of
/// `box_positions`.
pub fn between_closed(min: BlockPos, max: BlockPos) -> (r: Vec<BlockPos>)
    requires
        box_fits(min, max),
    ensures
        r@ == box_positions(min, max),
{
    let length_x: i32 = max.x - min.x + 1;
    let length_y: i32 = max.y - min.y + 1;
    let length_z: i32 = max.z - min.z + 1;
    assert(length_x * length_y <= length_x * length_y * length_z) by (nonlinear_arith)
        requires
            length_x >= 1,
            length_y >= 1,
            length_z >= 1,
    ;
    let volume: i32 = length_x * length_y * length_z;
    let mut result: Vec<BlockPos> = Vec::new();
    for index in 0..volume
        invariant
            length_x == max.x - min.x + 1,
            length_y == max.y - min.y + 1,
            length_z == max.z - min.z + 1,
            length_x >= 1 && length_y >= 1 && length_z >= 1,
            volume == length_x * length_y * length_z,
            result@ == box_positions(min, max).take(index as int),
    {
        proof {
            lemma_box_index(index as int, length_x as int, length_y as int, length_z as int);
        }
        let index_x = index % length_x;
        let remaining_after_x = index / length_x;
        let index_y = remaining_after_x % length_y;
        let index_z = remaining_after_x / length_y;
        result.push(BlockPos::new(min.x + index_x, min.y + index_y, min.z + index_z));
        assert(box_positions(min, max).take(index + 1) == box_positions(min, max).take(
            index as int,
        ).push(box_positions(min, max)[index as int]));
    }
    assert(box_positions(min, max).take(volume as int) == box_positions(min, max));
    result
}

/// The bot's position is far enough from the `i32` limits for its core box.
pub open spec fn core_fits(bot: BlockPos) -> bool {
    bot.x + 5 <= i32::MAX && bot.z + 2 <= i32::MAX
}

/// The lowest corner of the core box for a bot at `bot`.
pub open spec fn core_min(bot: BlockPos) -> BlockPos {
    BlockPos { x: bot.x, y: 0, z: bot.z }
}

/// The highest corner of the core box for a bot at `bot`.
pub open spec fn core_max(bot: BlockPos) -> BlockPos {
    BlockPos { x: (bot.x + 5) as i32, y: 2, z: (bot.z + 2) as i32 }
}

/// The positions of the core box for a bot at `bot`.
pub open spec fn core_box(bot: BlockPos) -> Seq<BlockPos> {
    box_positions(core_min(bot), core_max(bot))
}

/// The `/fill` command that builds the core box for a bot at `bot`.
pub open spec fn fill_text(bot: BlockPos) -> Seq<char> {
    "/fill "@ + decimal(bot.x as int) + " 0 "@ + decimal(bot.z as int) + " "@ + decimal(bot.x + 5)
        + " 2 "@ + decimal(bot.z + 2) + " command_block"@
}

/// Squared distance between two positions.
pub open spec fn distance_squared(a: BlockPos, b: BlockPos) -> int {
    (a.x - b.x) * (a.x - b.x) + (a.y - b.y) * (a.y - b.y) + (a.z - b.z) * (a.z - b.z)
}

/// The distance between `a` and `b` is computed within `i32`: the
/// differences, their squares and the partial sums all fit.
pub open spec fn distance_fits(a: BlockPos, b: BlockPos) -> bool {
    let dx = a.x - b.x;
    let dy = a.y - b.y;
    let dz = a.z - b.z;
    &&& i32::MIN <= dx <= i32::MAX
    &&& i32::MIN <= dy <= i32::MAX
    &&& i32::MIN <= dz <= i32::MAX
    &&& dx * dx <= i32::MAX
    &&& dy * dy <= i32::MAX
    &&& dz * dz <= i32::MAX
    &&& dx * dx + dy * dy <= i32::MAX
    &&& dx * dx + dy * dy + dz * dz <= i32::MAX
}

/// The bot at `bot` is at most 1000 blocks from `target`.
pub open spec fn within_reach(bot: BlockPos, target: BlockPos) -> bool {
    distance_squared(bot, target) <= 1_000_000
}

/// Whether the bot at `bot` is at most 1000 blocks from `target`
/// (the square root of the squared distance is at most 1000 exactly when the
/// squared distance is at most 1 000 000).
pub fn is_near(bot: BlockPos, target: BlockPos) -> (r: bool)
    requires
        distance_fits(bot, target),
    ensures
        r == within_reach(bot, target),
{
    let dx: i32 = bot.x - target.x;
    let dy: i32 = bot.y - target.y;
    let dz: i32 = bot.z - target.z;
    assert(0 <= dx * dx && 0 <= dy * dy && 0 <= dz * dz) by (nonlinear_arith);
    let sum: i32 = dx * dx + dy * dy + dz * dz;
    sum <= 1_000_000
}

/// Whether a command can be planned for a bot at `bot` and a core block at
/// `target` within `i32` arithmetic.
pub fn can_plan_execute(bot: BlockPos, target: BlockPos) -> (r: bool)
    ensures
        r == (distance_fits(bot, target) && core_fits(bot)),
{
    let dx: i64 = bot.x as i64 - target.x as i64;
    let dy: i64 = bot.y as i64 - target.y as i64;
    let dz: i64 = bot.z as i64 - target.z as i64;
    let max: i64 = 2147483647;
    let min: i64 = -2147483648;
    if dx < min || dx > max || dy < min || dy > max || dz < min || dz > max {
        return false;
    }
    assert(0 <= dx * dx <= 0x4000_0000_0000_0000) by (nonlinear_arith)
        requires
            min <= dx <= max,
            min == -2147483648,
            max == 2147483647,
    ;
    assert(0 <= dy * dy <= 0x4000_0000_0000_0000) by (nonlinear_arith)
        requires
            min <= dy <= max,
            min == -2147483648,
            max == 2147483647,
    ;
    assert(0 <= dz * dz <= 0x4000_0000_0000_0000) by (nonlinear_arith)
        requires
            min <= dz <= max,
            min == -2147483648,
            max == 2147483647,
    ;
    let sx = dx * dx;
    let sy = dy * dy;
    let sz = dz * dz;
    if sx > max || sy > max || sz > max || sx + sy > max || sx + sy + sz > max {
        return false;
    }
    bot.x <= 2147483642 && bot.z <= 2147483645
}

/// The `/fill` command that builds the core box for a bot at `bot`.
pub fn fill_command(bot: BlockPos) -> (r: String)
    requires
        core_fits(bot),
    ensures
        r@ == fill_text(bot),
{
    let mut v = chars_of("/fill ");
    push_decimal_i64(&mut v, bot.x as i64);
    let sep0 = chars_of(" 0 ");
    for i in 0..sep0.len()
        invariant
            v@ == "/fill "@ + decimal(bot.x as int) + sep0@.take(i as int),
    {
        v.push(sep0[i]);
        assert(sep0@.take(i + 1) == sep0@.take(i as int).push(sep0@[i as int]));
    }
    assert(sep0@.take(sep0@.len() as int) == sep0@);
    let mut s = string_of(&v);
    let mut w: Vec<char> = Vec::new();
    push_decimal_i64(&mut w, bot.z as i64);
    s.append(string_of(&w).as_str());
    s.append(" ");
    let mut w2: Vec<char> = Vec::new();
    push_decimal_i64(&mut w2, (bot.x + 5) as i64);
    s.append(string_of(&w2).as_str());
    s.append(" 2 ");
    let mut w3: Vec<char> = Vec::new();
    push_decimal_i64(&mut w3, (bot.z + 2) as i64);
    s.append(string_of(&w3).as_str());
    s.append(" command_block");
    s
}

/// The positions of the bot's command-block core.
pub struct Core {
    pub core_coordinates: Vec<BlockPos>,
}

/// What building a new core gives: its positions and the command that
/// places its blocks.
pub struct CoreRefresh {
    pub coordinates: Vec<BlockPos>,
    pub command: String,
}

impl Default for Core {
    fn default() -> (r: Core)
        ensures
            r.core_coordinates@ == Seq::<BlockPos>::empty(),
    {
        Core { core_coordinates: Vec::new() }
    }
}

impl Core {
    fn refresh(&mut self, bot_pos: BlockPos) -> (r: CoreRefresh)
        requires
            core_fits(bot_pos),
        ensures
            final(self).core_coordinates@ == core_box(bot_pos),
            r.coordinates@ == core_box(bot_pos),
            r.command@ == fill_text(bot_pos),
    {
        let min_pos = BlockPos::new(bot_pos.x, 0, bot_pos.z);
        let max_pos = BlockPos::new(bot_pos.x + 5, 2, bot_pos.z + 2);
        assert(max_pos.x - min_pos.x + 1 == 6);
        assert(max_pos.y - min_pos.y + 1 == 3);
        assert(max_pos.z - min_pos.z + 1 == 3);
        self.core_coordinates = between_closed(min_pos, max_pos);
        let coordinates = between_closed(min_pos, max_pos);
        let command = fill_command(bot_pos);
        CoreRefresh { coordinates, command }
    }

    /// Places a new core beside a bot standing at `bot_pos`: the core's
    /// positions become the box from the bot's column at height 0 to five
    /// blocks east, height 2 and two blocks south. The command returned is
    /// the `/fill` that builds it, to run through the current core.
    pub fn gen_core(&mut self, bot_pos: BlockPos) -> (r: CoreRefresh)
        requires
            core_fits(bot_pos),
        ensures
            final(self).core_coordinates@ == core_box(bot_pos),
            r.coordinates@ == core_box(bot_pos),
            r.command@ == fill_text(bot_pos),
    {
        self.refresh(bot_pos)
    }

    /// Places a new core beside a bot standing at `bot_pos`, as `gen_core`
    /// does; the command returned is the `/fill` to send as a chat message.
    pub fn gen_core_sync(&mut self, bot_pos: BlockPos) -> (r: CoreRefresh)
        requires
            core_fits(bot_pos),
        ensures
            final(self).core_coordinates@ == core_box(bot_pos),
            r.coordinates@ == core_box(bot_pos),
            r.command@ == fill_text(bot_pos),
    {
        self.refresh(bot_pos)
    }

    /// Whether `pos` is one of the core's positions.
    pub fn holds_position(&self, pos: BlockPos) -> (r: bool)
        ensures
            r == self.core_coordinates@.contains(pos),
    {
        for i in 0..self.core_coordinates.len()
            invariant
                forall|k: int| 0 <= k < i ==> self.core_coordinates@[k] != pos,
        {
            if self.core_coordinates[i] == pos {
                return true;
            }
        }
        false
    }

    /// The core position at `index`, when there is one.
    pub fn target_at(&self, index: usize) -> (r: Option<BlockPos>)
        ensures
            r == (if index < self.core_coordinates@.len() {
                Some(self.core_coordinates@[index as int])
            } else {
                None::<BlockPos>
            }),
    {
        if index < self.core_coordinates.len() {
            Some(self.core_coordinates[index])
        } else {
            None
        }
    }

    /// A core position chosen at random to run a command in; `None` when
    /// the core has no positions.
    pub fn pick_target(&self) -> (r: Option<BlockPos>)
        ensures
            r is None <==> self.core_coordinates@.len() == 0,
            r matches Some(p) ==> self.core_coordinates@.contains(p),
    {
        if self.core_coordinates.len() == 0 {
            return None;
        }
        let mut rng = thread_rng();
        let index = random_below(&mut rng, self.core_coordinates.len());
        let r = self.target_at(index);
        assert(self.core_coordinates@[index as int] == r->0);
        r
    }
}

#[verifier::external_type_specification]
#[verifier::external_body]
pub struct ExThreadRng(rand::rngs::ThreadRng);

/// The thread-local generator (`rand::rng`).
#[verifier::external_body]
fn thread_rng() -> rand::rngs::ThreadRng {
    rand::rng()
}

/// A number drawn uniformly from `0..n` (`rand::Rng::random_range`, which
/// panics only on an empty range).
#[verifier::external_body]
fn random_below(rng: &mut rand::rngs::ThreadRng, n: usize) -> (r: usize)
    requires
        n > 0,
    ensures
        r < n,
{
    rng.random_range(0..n)
}

/// One step of running a command through the core.
#[derive(Clone, Debug, PartialEq, Eq)]
pub enum ExecuteStep {
    /// Send this chat message (a `/fill` that rebuilds the core).
    Chat(String),
    /// Write `command` into the command block at `pos`, set to run
    /// automatically and track its output.
    SetCommandBlock { pos: BlockPos, command: String },
}

/// An execute step with its text as characters.
pub enum ExecuteStepView {
    Chat(Seq<char>),
    SetCommandBlock(BlockPos, Seq<char>),
}

impl View for ExecuteStep {
    type V = ExecuteStepView;

    open spec fn view(&self) -> ExecuteStepView {
        match self {
            ExecuteStep::Chat(c) => ExecuteStepView::Chat(c@),
            ExecuteStep::SetCommandBlock { pos, command } => ExecuteStepView::SetCommandBlock(
                *pos,
                command@,
            ),
        }
    }
}

/// The steps of running `command` in the core block at `target`: the core is
/// rebuilt once when the bot is more than 1000 blocks away from the target,
/// and once more when the target is not a command block; then the command
/// is written to the target.
pub open spec fn execute_steps(
    bot: BlockPos,
    target: BlockPos,
    target_is_command_block: bool,
    command: Seq<char>,
) -> Seq<ExecuteStepView> {
    (if !within_reach(bot, target) { seq![ExecuteStepView::Chat(fill_text(bot))] } else { seq![] })
        + (if !target_is_command_block {
        seq![ExecuteStepView::Chat(fill_text(bot))]
    } else {
        seq![]
    }) + seq![ExecuteStepView::SetCommandBlock(target, command)]
}

impl Core {
    /// Plans running `command` in the core block at `target` for a bot at
    /// `bot_pos`; `target_is_command_block` tells what block the world shows
    /// at `target`. The core is rebuilt around the bot when a step above
    /// asks for it.
    pub fn plan_execute(
        &mut self,
        command: &String,
        target: BlockPos,
        bot_pos: BlockPos,
        target_is_command_block: bool,
    ) -> (r: Vec<ExecuteStep>)
        requires
            distance_fits(bot_pos, target),
            core_fits(bot_pos),
        ensures
            r@.map_values(|s: ExecuteStep| s@) == execute_steps(
                bot_pos,
                target,
                target_is_command_block,
                command@,
            ),
            final(self).core_coordinates@ == (if !within_reach(bot_pos, target)
                || !target_is_command_block {
                core_box(bot_pos)
            } else {
                old(self).core_coordinates@
            }),
    {
        let mut steps: Vec<ExecuteStep> = Vec::new();
        if !is_near(bot_pos, target) {
            let refreshed = self.gen_core_sync(bot_pos);
            steps.push(ExecuteStep::Chat(refreshed.command));
        }
        if !target_is_command_block {
            let refreshed = self.gen_core_sync(bot_pos);
            steps.push(ExecuteStep::Chat(refreshed.command));
        }
        steps.push(ExecuteStep::SetCommandBlock { pos: target, command: copy_string(command) });
        assert(steps@.map_values(|s: ExecuteStep| s@) == execute_steps(
            bot_pos,
            target,
            target_is_command_block,
            command@,
        ));
        steps
    }
}

} // verus!
