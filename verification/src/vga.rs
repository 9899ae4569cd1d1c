//! The boot screen: a queue of drawing commands and the back buffer they are
//! rendered into before it is copied to video memory.

use vstd::prelude::*;

verus! {

/// A drawing request, queued until the next screen update.
#[derive(Debug, Clone)]
pub enum DrawCommand {
    Text { x: usize, y: usize, color: u32, content: String },
    Rect { x: usize, y: usize, w: usize, h: usize, color: u32 },
    Clear(u32),
}

/// The back buffer of a `width` by `height` screen and whether it must be shown.
pub struct Screen {
    pub width: usize,
    pub height: usize,
    /// One pixel per screen position, row by row.
    pub back_buffer: Vec<u32>,
    /// Set when something was queued that has not reached video memory yet.
    pub needs_frame_update: bool,
}

impl Screen {
    pub open spec fn wf(&self) -> bool {
        self.back_buffer@.len() == self.width * self.height
    }
}

/// The back buffer after `cmds` are rendered in order: a `Clear` paints every
/// pixel; text is drawn by the glyph renderer afterwards (see `texts_to_draw`);
/// rectangles draw nothing.
pub open spec fn after_commands(buf: Seq<u32>, cmds: Seq<DrawCommand>) -> Seq<u32>
    decreases cmds.len(),
{
    if cmds.len() == 0 {
        buf
    } else {
        let b = after_commands(buf, cmds.drop_last());
        match cmds.last() {
            DrawCommand::Clear(c) => Seq::new(b.len(), |i: int| c),
            _ => b,
        }
    }
}

/// The text commands of `cmds` that still show once all of `cmds` ran: those
/// after the last `Clear`, in order.
pub open spec fn texts_to_draw(cmds: Seq<DrawCommand>) -> Seq<DrawCommand>
    decreases cmds.len(),
{
    if cmds.len() == 0 {
        Seq::empty()
    } else {
        let t = texts_to_draw(cmds.drop_last());
        match cmds.last() {
            DrawCommand::Clear(_) => Seq::empty(),
            DrawCommand::Text { .. } => t.push(cmds.last()),
            DrawCommand::Rect { .. } => t,
        }
    }
}

/// A black `width` by `height` back buffer, nothing pending.
pub fn init_vga(width: usize, height: usize) -> (s: Screen)
    requires
        width * height <= usize::MAX,
    ensures
        s.wf(),
        s.width == width,
        s.height == height,
        !s.needs_frame_update,
        forall|i: int| 0 <= i < s.back_buffer@.len() ==> s.back_buffer@[i] == 0,
{
    let back_buffer = vec![0u32; width * height];
    Screen { width, height, back_buffer, needs_frame_update: false }
}

/// Queues `cmd` behind the commands already waiting.
pub fn push_command(queue: &mut Vec<DrawCommand>, cmd: DrawCommand)
    ensures
        final(queue)@ == old(queue)@.push(cmd),
{
    queue.push(cmd);
}

/// Takes every waiting command, oldest first, and leaves the queue empty.
pub fn fetch_commands(queue: &mut Vec<DrawCommand>) -> (cmds: Vec<DrawCommand>)
    ensures
        cmds@ == old(queue)@,
        final(queue)@.len() == 0,
{
    let mut fresh: Vec<DrawCommand> = Vec::with_capacity(128);
    core::mem::swap(queue, &mut fresh);
    fresh
}

/// Whether no command is waiting.
pub fn is_empty(queue: &Vec<DrawCommand>) -> (b: bool)
    ensures
        b == (queue@.len() == 0),
{
    queue.is_empty()
}

/// Marks the screen as needing to be shown.
pub fn request_update(screen: &mut Screen)
    ensures
        final(screen).needs_frame_update,
        final(screen).width == old(screen).width,
        final(screen).height == old(screen).height,
        final(screen).back_buffer@ == old(screen).back_buffer@,
{
    screen.needs_frame_update = true;
}

/// Queues a fill of the whole screen with `color` and asks for an update.
pub fn clear_back_buffer(queue: &mut Vec<DrawCommand>, screen: &mut Screen, color: u32)
    ensures
        final(queue)@ == old(queue)@.push(DrawCommand::Clear(color)),
        final(screen).needs_frame_update,
        final(screen).width == old(screen).width,
        final(screen).height == old(screen).height,
        final(screen).back_buffer@ == old(screen).back_buffer@,
{
    push_command(queue, DrawCommand::Clear(color));
    request_update(screen);
}

/// Renders every waiting command into the back buffer and empties the queue.
/// Returns `None` when nothing was waiting (the screen need not be shown again);
/// otherwise the text commands that the glyph renderer still has to draw, in
/// order, before the back buffer is copied to video memory.
pub fn update_screen(queue: &mut Vec<DrawCommand>, screen: &mut Screen) -> (texts: Option<Vec<DrawCommand>>)
    ensures
        final(queue)@.len() == 0,
        final(screen).width == old(screen).width,
        final(screen).height == old(screen).height,
        final(screen).needs_frame_update == old(screen).needs_frame_update,
        final(screen).back_buffer@ == after_commands(old(screen).back_buffer@, old(queue)@),
        match texts {
            None => old(queue)@.len() == 0,
            Some(t) => old(queue)@.len() > 0 && t@ == texts_to_draw(old(queue)@),
        },
{
    let commands = fetch_commands(queue);
    if commands.is_empty() {
        return None;
    }
    let ghost cmds = commands@;
    let n = screen.back_buffer.len();
    // Reverse the commands so that popping yields them oldest first.
    let mut done: Vec<DrawCommand> = commands;
    let mut rest: Vec<DrawCommand> = Vec::new();
    while done.len() > 0
        invariant
            done@.len() <= cmds.len(),
            done@ == cmds.take(done@.len() as int),
            rest@ == cmds.skip(done@.len() as int).reverse(),
        decreases done@.len(),
    {
        let ghost m = done@.len() as int;
        let c = done.pop().unwrap();
        rest.push(c);
        proof {
            assert(done@ =~= cmds.take(m - 1));
            assert(rest@ =~= cmds.skip(m - 1).reverse());
        }
    }
    let mut pending: Vec<DrawCommand> = Vec::new();
    proof {
        assert(cmds.take(0) =~= Seq::<DrawCommand>::empty());
        assert(cmds.skip(0) =~= cmds);
    }
    while rest.len() > 0
        invariant
            screen.width == old(screen).width,
            screen.height == old(screen).height,
            screen.needs_frame_update == old(screen).needs_frame_update,
            n == screen.back_buffer@.len(),
            rest@.len() <= cmds.len(),
            rest@ == cmds.skip(cmds.len() - rest@.len()).reverse(),
            screen.back_buffer@ == after_commands(old(screen).back_buffer@, cmds.take(cmds.len() - rest@.len())),
            pending@ == texts_to_draw(cmds.take(cmds.len() - rest@.len())),
        decreases rest@.len(),
    {
        let ghost idx = cmds.len() - rest@.len();
        let ghost prefix = cmds.take(idx);
        let cmd = rest.pop().unwrap();
        proof {
            assert(cmd == cmds[idx]);
            assert(cmds.take(idx + 1).drop_last() =~= prefix);
            assert(cmds.take(idx + 1).last() == cmds[idx]);
            assert(rest@ =~= cmds.skip(idx + 1).reverse());
        }
        match cmd {
            DrawCommand::Clear(c) => {
                let mut i: usize = 0;
                while i < n
                    invariant
                                    screen.width == old(screen).width,
                        screen.height == old(screen).height,
                        screen.needs_frame_update == old(screen).needs_frame_update,
                        n == screen.back_buffer@.len(),
                        i <= n,
                        forall|j: int| 0 <= j < i ==> screen.back_buffer@[j] == c,
                    decreases n - i,
                {
                    screen.back_buffer.set(i, c);
                    i = i + 1;
                }
                proof {
                    assert(screen.back_buffer@ =~= after_commands(
                        old(screen).back_buffer@,
                        cmds.take(idx + 1),
                    ));
                }
                pending = Vec::new();
                proof {
                    assert(pending@ =~= texts_to_draw(cmds.take(idx + 1)));
                }
            },
            DrawCommand::Text { x, y, color, content } => {
                pending.push(DrawCommand::Text { x, y, color, content });
            },
            DrawCommand::Rect { .. } => {},
        }
    }
    proof {
        assert(cmds.take(cmds.len() as int) == cmds);
    }
    Some(pending)
}

/// The text commands of `cmds`, in order.
pub open spec fn text_commands(cmds: Seq<DrawCommand>) -> Seq<DrawCommand> {
    cmds.filter(|c: DrawCommand| c is Text)
}

/// With no `Clear` queued, the back buffer is left as it was and every queued
/// text is still to be drawn, in queue order.
pub proof fn lemma_update_without_clear(buf: Seq<u32>, cmds: Seq<DrawCommand>)
    requires
        forall|j: int| 0 <= j < cmds.len() ==> !(#[trigger] cmds[j] is Clear),
    ensures
        after_commands(buf, cmds) == buf,
        texts_to_draw(cmds) == text_commands(cmds),
    decreases cmds.len(),
{
    reveal(Seq::filter);
    if cmds.len() > 0 {
        let rest = cmds.drop_last();
        assert forall|j: int| 0 <= j < rest.len() implies !(#[trigger] rest[j] is Clear) by {
            assert(rest[j] == cmds[j]);
        }
        assert(!(cmds[cmds.len() - 1] is Clear));
        lemma_update_without_clear(buf, rest);
    }
}

/// Rendering draws exactly what follows the last `Clear`: the back buffer is
/// filled with that clear's colour, and the texts still to draw are exactly the
/// text commands after it, in queue order.
pub proof fn lemma_update_after_last_clear(buf: Seq<u32>, before: Seq<DrawCommand>, color: u32, after: Seq<DrawCommand>)
    requires
        forall|j: int| 0 <= j < after.len() ==> !(#[trigger] after[j] is Clear),
    ensures
        after_commands(buf, before.push(DrawCommand::Clear(color)) + after) == Seq::new(
            buf.len(),
            |i: int| color,
        ),
        texts_to_draw(before.push(DrawCommand::Clear(color)) + after) == text_commands(after),
{
    lemma_clear_resets(buf, before, color, after);
    lemma_update_without_clear(Seq::new(buf.len(), |i: int| color), after);
}

/// Commands come out of the queue in the order they went in: after `a` and
/// then `b` are pushed onto `queue`, taking everything yields what was waiting
/// followed by `a` and `b`.
pub proof fn lemma_queue_keeps_order(queue: Seq<DrawCommand>, a: DrawCommand, b: DrawCommand)
    ensures
        queue.push(a).push(b) == queue + seq![a, b],
{
    assert(queue.push(a).push(b) =~= queue + seq![a, b]);
}

/// A `Clear` wipes out everything queued before it: what the screen shows after
/// `before`, the clear and `after` depends only on the clear and `after`.
pub proof fn lemma_clear_resets(buf: Seq<u32>, before: Seq<DrawCommand>, color: u32, after: Seq<DrawCommand>)
    ensures
        after_commands(buf, before.push(DrawCommand::Clear(color)) + after) == after_commands(
            Seq::new(buf.len(), |i: int| color),
            after,
        ),
        texts_to_draw(before.push(DrawCommand::Clear(color)) + after) == texts_to_draw(after),
    decreases after.len(),
{
    lemma_after_commands_len(buf, before);
    let cleared = before.push(DrawCommand::Clear(color));
    if after.len() == 0 {
        assert(cleared + after == cleared);
        assert(cleared.drop_last() == before);
        assert(after_commands(buf, cleared) =~= Seq::new(buf.len(), |i: int| color));
    } else {
        lemma_clear_resets(buf, before, color, after.drop_last());
        assert((cleared + after).drop_last() == cleared + after.drop_last());
        assert((cleared + after).last() == after.last());
    }
}

/// Rendering keeps the size of the back buffer.
pub proof fn lemma_after_commands_len(buf: Seq<u32>, cmds: Seq<DrawCommand>)
    ensures
        after_commands(buf, cmds).len() == buf.len(),
    decreases cmds.len(),
{
    if cmds.len() > 0 {
        lemma_after_commands_len(buf, cmds.drop_last());
    }
}

} // verus!
