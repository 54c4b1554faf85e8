//! Where text stands inside the box that a shape gives it.
//!
//! All lengths are in EMU. Text is stacked into lines elsewhere, in the width
//! that is left for it; here the stack is placed in the box, and what does not
//! fit is kept or left out as the body asks. Places are told from the upper left
//! corner of the shape.
use vstd::prelude::*;

use crate::dimension::{Dimension, Emu};
use crate::model::drawing::{BodyProperties, TextAnchoringType, TextVertOverflow};
use crate::model::geometry::Size;

verus! {

/// The space at either side of text where the file says nothing.
pub const DEFAULT_INSET_LR: i64 = 91_440;

/// The space above and below text where the file says nothing.
pub const DEFAULT_INSET_TB: i64 = 45_720;

/// The space around text. A negative one lets the text reach beyond its box.
#[derive(Clone, Copy, Debug, PartialEq, Eq, Structural)]
pub struct BodyInsets {
    pub left: i64,
    pub top: i64,
    pub right: i64,
    pub bottom: i64,
}

/// A length, or what stands for it where there is none.
pub open spec fn stated_or(d: Option<Dimension<Emu>>, otherwise: i64) -> i64 {
    match d {
        Some(x) => x.value,
        None => otherwise,
    }
}

/// The space around text that a body states, with the defaults for what it
/// leaves unsaid.
pub open spec fn insets_of(body: Option<BodyProperties>) -> BodyInsets {
    match body {
        Some(b) => BodyInsets {
            left: stated_or(b.left_inset, DEFAULT_INSET_LR),
            top: stated_or(b.top_inset, DEFAULT_INSET_TB),
            right: stated_or(b.right_inset, DEFAULT_INSET_LR),
            bottom: stated_or(b.bottom_inset, DEFAULT_INSET_TB),
        },
        None => BodyInsets {
            left: DEFAULT_INSET_LR,
            top: DEFAULT_INSET_TB,
            right: DEFAULT_INSET_LR,
            bottom: DEFAULT_INSET_TB,
        },
    }
}

/// What a reference refers to.
pub open spec fn body_of(body: Option<&BodyProperties>) -> Option<BodyProperties> {
    match body {
        Some(b) => Some(*b),
        None => None,
    }
}

/// A length, or what stands for it where there is none.
fn read_inset(d: &Option<Dimension<Emu>>, otherwise: i64) -> (r: i64)
    ensures
        r == stated_or(*d, otherwise),
{
    match d {
        Some(x) => x.raw(),
        None => otherwise,
    }
}

/// What is left of a length between two spaces, and at least nothing.
pub open spec fn room(length: int, before: int, after: int) -> nat {
    if length - before - after > 0 {
        (length - before - after) as nat
    } else {
        0
    }
}

/// What is left of a length between two spaces, and at least nothing.
fn room_left(length: i64, before: i64, after: i64) -> (r: u128)
    ensures
        r == room(length as int, before as int, after as int),
{
    let left: i128 = length as i128 - before as i128 - after as i128;
    if left > 0 {
        left as u128
    } else {
        0
    }
}

impl BodyInsets {
    /// The space around text that a body states, with the defaults for what it
    /// leaves unsaid.
    pub fn resolve(body_pr: Option<&BodyProperties>) -> (r: Self)
        ensures
            r == insets_of(body_of(body_pr)),
    {
        match body_pr {
            Some(b) => BodyInsets {
                left: read_inset(&b.left_inset, DEFAULT_INSET_LR),
                top: read_inset(&b.top_inset, DEFAULT_INSET_TB),
                right: read_inset(&b.right_inset, DEFAULT_INSET_LR),
                bottom: read_inset(&b.bottom_inset, DEFAULT_INSET_TB),
            },
            None => BodyInsets {
                left: DEFAULT_INSET_LR,
                top: DEFAULT_INSET_TB,
                right: DEFAULT_INSET_LR,
                bottom: DEFAULT_INSET_TB,
            },
        }
    }

    /// The width that is left for text.
    pub fn content_width(&self, extent: Size<Emu>) -> (r: u128)
        ensures
            r == room(extent.width.value as int, self.left as int, self.right as int),
    {
        room_left(extent.width.raw(), self.left, self.right)
    }

    /// The height that is left for text.
    pub fn content_height(&self, extent: Size<Emu>) -> (r: u128)
        ensures
            r == room(extent.height.value as int, self.top as int, self.bottom as int),
    {
        room_left(extent.height.raw(), self.top, self.bottom)
    }
}

/// Where text stands in the height that is left for it.
#[derive(Clone, Copy, Debug, PartialEq, Eq, Structural)]
pub enum BodyAnchor {
    Top,
    Center,
    Bottom,
}

/// Where text stands that asks for an anchor. Text that asks to be spread over
/// the height begins at the top.
pub open spec fn anchor_of(anchor: Option<TextAnchoringType>) -> BodyAnchor {
    match anchor {
        Some(TextAnchoringType::Center) => BodyAnchor::Center,
        Some(TextAnchoringType::Bottom) => BodyAnchor::Bottom,
        _ => BodyAnchor::Top,
    }
}

/// How far down text stands in a height. What is to spare is split in two whole
/// numbers of EMU. Text that is too high begins at the top.
pub open spec fn drop_of(anchor: BodyAnchor, height: nat, text: nat) -> nat {
    let slack = if height > text {
        (height - text) as nat
    } else {
        0nat
    };
    match anchor {
        BodyAnchor::Top => 0,
        BodyAnchor::Center => slack / 2,
        BodyAnchor::Bottom => slack,
    }
}

impl BodyAnchor {
    /// Where text stands that asks for an anchor.
    pub fn resolve(anchor: Option<TextAnchoringType>) -> (r: Self)
        ensures
            r == anchor_of(anchor),
    {
        match anchor {
            Some(TextAnchoringType::Center) => BodyAnchor::Center,
            Some(TextAnchoringType::Bottom) => BodyAnchor::Bottom,
            _ => BodyAnchor::Top,
        }
    }

    /// How far down text stands in a height.
    pub fn offset(self, box_height: u128, text_height: u128) -> (r: u128)
        ensures
            r == drop_of(self, box_height as nat, text_height as nat),
    {
        let slack: u128 = if box_height > text_height {
            box_height - text_height
        } else {
            0
        };
        match self {
            BodyAnchor::Top => 0,
            BodyAnchor::Center => slack / 2,
            BodyAnchor::Bottom => slack,
        }
    }
}

/// Text that has been stacked: its height, and for each thing to draw the top
/// and the bottom of what it covers, where it covers anything.
#[derive(Debug)]
pub struct StackedBody {
    pub height: u64,
    pub spans: Vec<Option<(i64, i64)>>,
}

/// Where stacked text is to be drawn, and which of it: the numbers of the things
/// to draw, in order.
#[derive(Debug)]
pub struct PlacedBody {
    pub left: i64,
    pub top: i128,
    pub kept: Vec<usize>,
}

/// The height that a body needs, with the space above and below it, once it has
/// been stacked in the width that is left. Where none is left, no text is
/// stacked.
pub open spec fn needed_height(
    stacked: nat,
    width: int,
    insets: BodyInsets,
) -> int {
    if room(width, insets.left as int, insets.right as int) == 0 {
        insets.top + insets.bottom
    } else {
        insets.top + stacked + insets.bottom
    }
}

/// The height that a body needs in a shape of a width, with the space above and
/// below it.
pub fn measure_shape_body(
    stacked_height: u64,
    extent_width: i64,
    body_pr: Option<&BodyProperties>,
) -> (r: i128)
    ensures
        r == needed_height(
            stacked_height as nat,
            extent_width as int,
            insets_of(body_of(body_pr)),
        ),
{
    let insets: BodyInsets = BodyInsets::resolve(body_pr);
    let around: i128 = insets.top as i128 + insets.bottom as i128;
    if room_left(extent_width, insets.left, insets.right) == 0 {
        around
    } else {
        around + stacked_height as i128
    }
}

/// The way of a body with text that does not fit.
pub open spec fn overflow_of(body: Option<BodyProperties>) -> TextVertOverflow {
    match body {
        Some(b) => match b.vert_overflow {
            Some(o) => o,
            None => TextVertOverflow::Overflow,
        },
        None => TextVertOverflow::Overflow,
    }
}

/// The anchor that a body states.
pub open spec fn stated_anchor(body: Option<BodyProperties>) -> Option<TextAnchoringType> {
    match body {
        Some(b) => b.anchor,
        None => None,
    }
}

/// How far down the text of a body begins.
pub open spec fn body_top(height: nat, extent: Size<Emu>, body: Option<BodyProperties>) -> int {
    let insets = insets_of(body);
    insets.top + drop_of(
        anchor_of(stated_anchor(body)),
        room(extent.height.value as int, insets.top as int, insets.bottom as int),
        height,
    )
}

/// Where the box for the text of a body ends.
pub open spec fn box_bottom(extent: Size<Emu>, body: Option<BodyProperties>) -> int {
    let insets = insets_of(body);
    insets.top + room(extent.height.value as int, insets.top as int, insets.bottom as int)
}

/// Whether a thing is drawn that is moved down: in a body that clips, only where
/// nothing of it reaches below the box.
pub open spec fn is_kept(
    overflow: TextVertOverflow,
    span: Option<(i64, i64)>,
    top: int,
    bottom: int,
) -> bool {
    match overflow {
        TextVertOverflow::Overflow => true,
        _ => match span {
            Some(s) => s.1 + top <= bottom,
            None => true,
        },
    }
}

/// The numbers of the first things that are drawn.
pub open spec fn kept_of(
    spans: Seq<Option<(i64, i64)>>,
    overflow: TextVertOverflow,
    top: int,
    bottom: int,
) -> Seq<int>
    decreases spans.len(),
{
    if spans.len() == 0 {
        Seq::empty()
    } else {
        let before = kept_of(spans.drop_last(), overflow, top, bottom);
        if is_kept(overflow, spans.last(), top, bottom) {
            before.push(spans.len() - 1)
        } else {
            before
        }
    }
}

/// Numbers as integers.
pub open spec fn ints(v: Seq<usize>) -> Seq<int> {
    v.map_values(|n: usize| n as int)
}

/// Whether a thing is drawn that is moved down.
fn overflow_keeps(
    overflow: TextVertOverflow,
    span: Option<(i64, i64)>,
    top: i128,
    bottom: i128,
) -> (r: bool)
    requires
        -0x1_0000_0000_0000_0000_0000 < top < 0x1_0000_0000_0000_0000_0000,
    ensures
        r == is_kept(overflow, span, top as int, bottom as int),
{
    match overflow {
        TextVertOverflow::Overflow => true,
        _ => match span {
            Some(s) => s.1 as i128 + top <= bottom,
            None => true,
        },
    }
}

/// Places stacked text in a shape. Where no width is left for it, nothing is
/// drawn.
pub fn layout_shape_body(
    stacked: &StackedBody,
    extent: Size<Emu>,
    body_pr: Option<&BodyProperties>,
) -> (r: PlacedBody)
    ensures
        ({
            let body = body_of(body_pr);
            let insets = insets_of(body);
            let top = body_top(stacked.height as nat, extent, body);
            &&& r.left == insets.left
            &&& r.top == top
            &&& ints(r.kept@) == (if room(
                extent.width.value as int,
                insets.left as int,
                insets.right as int,
            ) == 0 {
                Seq::empty()
            } else {
                kept_of(stacked.spans@, overflow_of(body), top, box_bottom(extent, body))
            })
        }),
{
    let insets: BodyInsets = BodyInsets::resolve(body_pr);
    let height: u128 = insets.content_height(extent);
    let anchor: BodyAnchor = BodyAnchor::resolve(
        match body_pr {
            Some(b) => b.anchor,
            None => None,
        },
    );
    let drop: u128 = anchor.offset(height, stacked.height as u128);
    let top: i128 = insets.top as i128 + drop as i128;
    let bottom: i128 = insets.top as i128 + height as i128;
    let overflow: TextVertOverflow = match body_pr {
        Some(b) => match b.vert_overflow {
            Some(o) => o,
            None => TextVertOverflow::Overflow,
        },
        None => TextVertOverflow::Overflow,
    };
    let mut kept: Vec<usize> = Vec::new();
    if insets.content_width(extent) == 0 {
        assert(ints(kept@) =~= Seq::empty());
        return PlacedBody { left: insets.left, top, kept };
    }
    let mut i: usize = 0;
    assert(ints(kept@) =~= kept_of(
        stacked.spans@.take(0),
        overflow,
        top as int,
        bottom as int,
    ));
    while i < stacked.spans.len()
        invariant
            i <= stacked.spans@.len(),
            -0x1_0000_0000_0000_0000_0000 < top < 0x1_0000_0000_0000_0000_0000,
            ints(kept@) == kept_of(
                stacked.spans@.take(i as int),
                overflow,
                top as int,
                bottom as int,
            ),
        decreases stacked.spans@.len() - i,
    {
        let ghost part = stacked.spans@.take(i + 1);
        assert(part.drop_last() =~= stacked.spans@.take(i as int));
        assert(part.last() == stacked.spans@[i as int]);
        if overflow_keeps(overflow, stacked.spans[i], top, bottom) {
            let ghost before = ints(kept@);
            kept.push(i);
            assert(ints(kept@) =~= before.push(i as int));
        }
        i = i + 1;
    }
    assert(stacked.spans@.take(i as int) =~= stacked.spans@);
    PlacedBody { left: insets.left, top, kept }
}

/// In a body that clips, nothing that is drawn reaches below its box.
pub proof fn clipped_text_stays_in_its_box(
    spans: Seq<Option<(i64, i64)>>,
    overflow: TextVertOverflow,
    top: int,
    bottom: int,
    k: int,
)
    requires
        overflow != TextVertOverflow::Overflow,
        0 <= k < kept_of(spans, overflow, top, bottom).len(),
    ensures
        ({
            let n = kept_of(spans, overflow, top, bottom)[k];
            0 <= n < spans.len() && (spans[n] matches Some(s) ==> s.1 + top <= bottom)
        }),
    decreases spans.len(),
{
    if spans.len() > 0 {
        let before = kept_of(spans.drop_last(), overflow, top, bottom);
        if k < before.len() {
            clipped_text_stays_in_its_box(spans.drop_last(), overflow, top, bottom, k);
        }
    }
}

/// A body that lets text overflow draws all of it.
pub proof fn overflowing_text_is_all_drawn(
    spans: Seq<Option<(i64, i64)>>,
    top: int,
    bottom: int,
)
    ensures
        kept_of(spans, TextVertOverflow::Overflow, top, bottom).len() == spans.len(),
        forall|k: int|
            0 <= k < spans.len() ==> #[trigger] kept_of(
                spans,
                TextVertOverflow::Overflow,
                top,
                bottom,
            )[k] == k,
    decreases spans.len(),
{
    if spans.len() > 0 {
        overflowing_text_is_all_drawn(spans.drop_last(), top, bottom);
    }
}

/// Text that is too high for its box begins at the top, whatever its anchor, and
/// text that fits stays in its box.
pub proof fn text_never_starts_above_its_box(anchor: BodyAnchor, height: nat, text: nat)
    ensures
        text >= height ==> drop_of(anchor, height, text) == 0,
        text <= height ==> drop_of(anchor, height, text) + text <= height,
{
}

} // verus!
