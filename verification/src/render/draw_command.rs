//! What is decided by the things to draw on a page: where content ends, and in
//! which order it is painted. All lengths are in EMU.
use vstd::prelude::*;

verus! {

/// A thing on a page, by what decisions read of it.
#[derive(Clone, Copy, Debug, PartialEq, Eq, Structural)]
pub enum DrawCommand {
    Text { baseline: i64, font_size: i64 },
    Underline { start_y: i64, end_y: i64 },
    Line { start_y: i64, end_y: i64 },
    Image { top: i64, height: i64 },
    EmojiCluster { top: i64, height: i64 },
    Rect { top: i64, height: i64 },
    /// A shape, by its box before any rotation.
    Path { top: i64, height: i64 },
    /// An entry of the outline of the document.
    Outline,
    /// The beginning or the end of a placement.
    Transform,
    /// The beginning or the end of floating content.
    Float,
    LinkAnnotation,
    InternalLink,
    NamedDestination,
}

/// Where a thing ends on its page. Text ends a font size below its baseline, a
/// line at its lower end. What is not drawn takes no room.
pub open spec fn bottom_of(c: DrawCommand) -> Option<int> {
    match c {
        DrawCommand::Text { baseline, font_size } => Some(baseline + font_size),
        DrawCommand::Underline { start_y, end_y } => Some(
            if start_y >= end_y {
                start_y as int
            } else {
                end_y as int
            },
        ),
        DrawCommand::Line { start_y, end_y } => Some(
            if start_y >= end_y {
                start_y as int
            } else {
                end_y as int
            },
        ),
        DrawCommand::Image { top, height } => Some(top + height),
        DrawCommand::EmojiCluster { top, height } => Some(top + height),
        DrawCommand::Rect { top, height } => Some(top + height),
        DrawCommand::Path { top, height } => Some(top + height),
        _ => None,
    }
}

/// Where a thing ends on its page.
fn command_bottom(c: &DrawCommand) -> (r: Option<i128>)
    ensures
        match r {
            Some(b) => bottom_of(*c) == Some(b as int),
            None => bottom_of(*c) is None,
        },
{
    match *c {
        DrawCommand::Text { baseline, font_size } => Some(baseline as i128 + font_size as i128),
        DrawCommand::Underline { start_y, end_y } => Some(
            if start_y >= end_y {
                start_y as i128
            } else {
                end_y as i128
            },
        ),
        DrawCommand::Line { start_y, end_y } => Some(
            if start_y >= end_y {
                start_y as i128
            } else {
                end_y as i128
            },
        ),
        DrawCommand::Image { top, height } => Some(top as i128 + height as i128),
        DrawCommand::EmojiCluster { top, height } => Some(top as i128 + height as i128),
        DrawCommand::Rect { top, height } => Some(top as i128 + height as i128),
        DrawCommand::Path { top, height } => Some(top as i128 + height as i128),
        _ => None,
    }
}

/// Where the content of a page ends that begins below a margin.
pub open spec fn content_end(commands: Seq<DrawCommand>, margin: int) -> int
    decreases commands.len(),
{
    if commands.len() == 0 {
        margin
    } else {
        let before = content_end(commands.drop_last(), margin);
        match bottom_of(commands.last()) {
            Some(b) => if b > before {
                b
            } else {
                before
            },
            None => before,
        }
    }
}

/// Where the content of a page ends, so that a section can go on below it.
pub fn estimate_cursor_y(commands: &Vec<DrawCommand>, top_margin: i64) -> (r: i128)
    ensures
        r == content_end(commands@, top_margin as int),
{
    let mut end: i128 = top_margin as i128;
    let mut i: usize = 0;
    while i < commands.len()
        invariant
            i <= commands@.len(),
            end == content_end(commands@.take(i as int), top_margin as int),
        decreases commands@.len() - i,
    {
        assert(commands@.take(i + 1).drop_last() =~= commands@.take(i as int));
        assert(commands@.take(i + 1).last() == commands@[i as int]);
        match command_bottom(&commands[i]) {
            Some(b) => {
                if b > end {
                    end = b;
                }
            },
            None => {},
        }
        i = i + 1;
    }
    assert(commands@.take(i as int) =~= commands@);
    end
}

/// What goes on below the content of a page does not cover any of it.
pub proof fn nothing_ends_below_the_content(commands: Seq<DrawCommand>, margin: int, k: int)
    requires
        0 <= k < commands.len(),
    ensures
        content_end(commands, margin) >= margin,
        bottom_of(commands[k]) matches Some(b) ==> b <= content_end(commands, margin),
    decreases commands.len(),
{
    if k < commands.len() - 1 {
        nothing_ends_below_the_content(commands.drop_last(), margin, k);
    } else {
        content_is_below_the_margin(commands.drop_last(), margin);
    }
}

/// Content ends below the margin, or at it.
proof fn content_is_below_the_margin(commands: Seq<DrawCommand>, margin: int)
    ensures
        content_end(commands, margin) >= margin,
    decreases commands.len(),
{
    if commands.len() > 0 {
        content_is_below_the_margin(commands.drop_last(), margin);
    }
}

/// The layers of a page, the lowest first.
#[derive(Clone, Copy, Debug, PartialEq, Eq, Structural)]
pub enum RasterPass {
    /// Shapes: banners and watermarks, most of them behind the text.
    Shape,
    /// What shades text and cells.
    Shading,
    /// Pictures.
    Media,
    /// Letters, rules and borders.
    Ink,
}

/// The layer of a thing, where it is painted at all.
pub open spec fn pass_of(c: DrawCommand) -> Option<RasterPass> {
    match c {
        DrawCommand::Path { .. } => Some(RasterPass::Shape),
        DrawCommand::Rect { .. } => Some(RasterPass::Shading),
        DrawCommand::Image { .. } => Some(RasterPass::Media),
        DrawCommand::Text { .. } => Some(RasterPass::Ink),
        DrawCommand::Underline { .. } => Some(RasterPass::Ink),
        DrawCommand::Line { .. } => Some(RasterPass::Ink),
        DrawCommand::EmojiCluster { .. } => Some(RasterPass::Ink),
        _ => None,
    }
}

/// The layer of a thing, where it is painted at all.
pub fn raster_pass(c: &DrawCommand) -> (r: Option<RasterPass>)
    ensures
        r == pass_of(*c),
{
    match *c {
        DrawCommand::Path { .. } => Some(RasterPass::Shape),
        DrawCommand::Rect { .. } => Some(RasterPass::Shading),
        DrawCommand::Image { .. } => Some(RasterPass::Media),
        DrawCommand::Text { .. } => Some(RasterPass::Ink),
        DrawCommand::Underline { .. } => Some(RasterPass::Ink),
        DrawCommand::Line { .. } => Some(RasterPass::Ink),
        DrawCommand::EmojiCluster { .. } => Some(RasterPass::Ink),
        _ => None,
    }
}

/// The numbers of the first things of a layer, in order.
pub open spec fn in_pass(commands: Seq<DrawCommand>, pass: RasterPass) -> Seq<int>
    decreases commands.len(),
{
    if commands.len() == 0 {
        Seq::empty()
    } else {
        let before = in_pass(commands.drop_last(), pass);
        if pass_of(commands.last()) == Some(pass) {
            before.push(commands.len() - 1)
        } else {
            before
        }
    }
}

/// The numbers of the things on a page in the order in which they are painted:
/// layer by layer, and within a layer as they come.
pub open spec fn painted(commands: Seq<DrawCommand>) -> Seq<int> {
    in_pass(commands, RasterPass::Shape) + in_pass(commands, RasterPass::Shading) + in_pass(
        commands,
        RasterPass::Media,
    ) + in_pass(commands, RasterPass::Ink)
}

/// Numbers as integers.
pub open spec fn as_ints(v: Seq<usize>) -> Seq<int> {
    v.map_values(|n: usize| n as int)
}

/// Adds the numbers of the things of a layer.
fn add_pass(commands: &Vec<DrawCommand>, pass: RasterPass, out: &mut Vec<usize>)
    ensures
        as_ints(final(out)@) == as_ints(old(out)@) + in_pass(commands@, pass),
{
    let ghost before = as_ints(out@);
    let mut i: usize = 0;
    assert(before + in_pass(commands@.take(0), pass) =~= before);
    while i < commands.len()
        invariant
            i <= commands@.len(),
            as_ints(out@) == before + in_pass(commands@.take(i as int), pass),
        decreases commands@.len() - i,
    {
        let ghost part = commands@.take(i + 1);
        assert(part.drop_last() =~= commands@.take(i as int));
        assert(part.last() == commands@[i as int]);
        if raster_pass(&commands[i]) == Some(pass) {
            let ghost so_far = as_ints(out@);
            out.push(i);
            assert(as_ints(out@) =~= so_far.push(i as int));
            assert(so_far.push(i as int) =~= before + in_pass(part, pass));
        }
        i = i + 1;
    }
    assert(commands@.take(i as int) =~= commands@);
}

/// The numbers of the things on a page in the order in which they are painted.
pub fn paint_order(commands: &Vec<DrawCommand>) -> (r: Vec<usize>)
    ensures
        as_ints(r@) == painted(commands@),
{
    let mut out: Vec<usize> = Vec::new();
    assert(as_ints(out@) =~= Seq::empty());
    add_pass(commands, RasterPass::Shape, &mut out);
    add_pass(commands, RasterPass::Shading, &mut out);
    add_pass(commands, RasterPass::Media, &mut out);
    add_pass(commands, RasterPass::Ink, &mut out);
    assert(as_ints(out@) =~= painted(commands@));
    out
}

/// The numbers of a layer are those of its things, in rising order.
proof fn a_pass_holds_its_things(commands: Seq<DrawCommand>, pass: RasterPass)
    ensures
        forall|k: int|
            0 <= k < in_pass(commands, pass).len() ==> {
                let n = #[trigger] in_pass(commands, pass)[k];
                0 <= n < commands.len() && pass_of(commands[n]) == Some(pass)
            },
        forall|i: int, j: int|
            0 <= i < j < in_pass(commands, pass).len() ==> #[trigger] in_pass(commands, pass)[i]
                < #[trigger] in_pass(commands, pass)[j],
        forall|n: int|
            0 <= n < commands.len() && pass_of(#[trigger] commands[n]) == Some(pass) ==> in_pass(
                commands,
                pass,
            ).contains(n),
    decreases commands.len(),
{
    if commands.len() > 0 {
        let shorter = commands.drop_last();
        a_pass_holds_its_things(shorter, pass);
        let before = in_pass(shorter, pass);
        let all = in_pass(commands, pass);
        assert forall|k: int| 0 <= k < all.len() implies {
            let n = #[trigger] all[k];
            0 <= n < commands.len() && pass_of(commands[n]) == Some(pass)
        } by {
            if k < before.len() {
                assert(all[k] == before[k]);
                assert(shorter[before[k]] == commands[before[k]]);
            }
        }
        assert forall|i: int, j: int| 0 <= i < j < all.len() implies #[trigger] all[i]
            < #[trigger] all[j] by {
            assert(all[i] == before[i]);
            if j < before.len() {
                assert(all[j] == before[j]);
            }
        }
        assert forall|n: int|
            0 <= n < commands.len() && pass_of(#[trigger] commands[n]) == Some(
                pass,
            ) implies all.contains(n) by {
            if n < shorter.len() {
                assert(shorter[n] == commands[n]);
                let k = choose|k: int| 0 <= k < before.len() && before[k] == n;
                assert(all[k] == n);
            } else {
                assert(all[all.len() - 1] == n);
            }
        }
    }
}

/// Each thing that is painted at all is painted, and nothing else is. No thing
/// is painted over one of a higher layer, nor over one of its own layer that
/// comes later.
pub proof fn layers_keep_their_order(commands: Seq<DrawCommand>)
    ensures
        forall|n: int|
            0 <= n < commands.len() && pass_of(#[trigger] commands[n]) is Some ==> painted(
                commands,
            ).contains(n),
        forall|k: int|
            0 <= k < painted(commands).len() ==> {
                let n = #[trigger] painted(commands)[k];
                0 <= n < commands.len() && pass_of(commands[n]) is Some
            },
        forall|i: int, j: int|
            0 <= i < j < painted(commands).len() ==> {
                let a = #[trigger] painted(commands)[i];
                let b = #[trigger] painted(commands)[j];
                level(commands[a]) < level(commands[b]) || (level(commands[a]) == level(
                    commands[b],
                ) && a < b)
            },
{
    a_pass_holds_its_things(commands, RasterPass::Shape);
    a_pass_holds_its_things(commands, RasterPass::Shading);
    a_pass_holds_its_things(commands, RasterPass::Media);
    a_pass_holds_its_things(commands, RasterPass::Ink);
    let a = in_pass(commands, RasterPass::Shape);
    let b = in_pass(commands, RasterPass::Shading);
    let c = in_pass(commands, RasterPass::Media);
    let d = in_pass(commands, RasterPass::Ink);
    let all = painted(commands);
    assert forall|n: int|
        0 <= n < commands.len() && pass_of(#[trigger] commands[n]) is Some implies all.contains(
        n,
    ) by {
        match pass_of(commands[n])->0 {
            RasterPass::Shape => {
                let k = choose|k: int| 0 <= k < a.len() && a[k] == n;
                assert(all[k] == n);
            },
            RasterPass::Shading => {
                let k = choose|k: int| 0 <= k < b.len() && b[k] == n;
                assert(all[a.len() + k] == n);
            },
            RasterPass::Media => {
                let k = choose|k: int| 0 <= k < c.len() && c[k] == n;
                assert(all[a.len() + b.len() + k] == n);
            },
            RasterPass::Ink => {
                let k = choose|k: int| 0 <= k < d.len() && d[k] == n;
                assert(all[a.len() + b.len() + c.len() + k] == n);
            },
        }
    }
}

/// How high the layer of a thing is.
pub open spec fn level(c: DrawCommand) -> int {
    match pass_of(c) {
        Some(RasterPass::Shape) => 0,
        Some(RasterPass::Shading) => 1,
        Some(RasterPass::Media) => 2,
        Some(RasterPass::Ink) => 3,
        None => -1,
    }
}

} // verus!
