//! The layout and scroll engine: per-message render heights and the
//! resolution of a distance-from-bottom scroll offset into a concrete
//! visible slice of the timeline.

use vstd::prelude::*;

use crate::images::{spec_image_height, ImageCache, ImageState};
use crate::model::{AttachmentInfo, AttachmentModel, ContentModel, Message, MessageModel};
use crate::view::{is_image_ct, loaded_msgs, ConversationView};

verus! {

/// Lines moved per scroll step.
pub const SCROLL_LINES: usize = 3;

/// Image height assumed when no image cache exists at all.
pub const DEFAULT_IMAGE_HEIGHT: u16 = 8;

/// Clamps an unbounded line count to what a u64 carries.
pub open spec fn sat64(x: int) -> int {
    if x > u64::MAX {
        u64::MAX as int
    } else {
        x
    }
}

/// Clamps a length to what a usize carries.
pub open spec fn sat_usize(x: int) -> int {
    if x > usize::MAX {
        usize::MAX as int
    } else {
        x
    }
}

/// Saturating addition on u64 line counts.
pub fn sat_add64(a: u64, b: u64) -> (r: u64)
    ensures
        r as int == sat64(a + b),
{
    if a <= u64::MAX - b {
        a + b
    } else {
        u64::MAX
    }
}

/// The entries of an optional image cache.
pub open spec fn cache_entries(cache: Option<&ImageCache>) -> Option<Seq<(String, ImageState)>> {
    match cache {
        Some(c) => Some(c.entries@),
        None => None,
    }
}

/// The label length drawn before a message: an 8-cell timestamp, the sender
/// name, and 4 cells of brackets and separators (capped at the address
/// space).
pub open spec fn spec_prefix_len(m: MessageModel) -> int {
    sat_usize(
        12 + if m.is_outgoing {
            "You"@.len() as int
        } else {
            match m.sender_name {
                Some(n) => n.len() as int,
                None => "Unknown"@.len() as int,
            }
        },
    )
}

/// The text a non-attachment message wraps: its body or a placeholder.
pub open spec fn spec_body_len(c: ContentModel) -> int {
    match c {
        ContentModel::Text { body } => body.len() as int,
        ContentModel::Sticker { pack_id, sticker_id } => "[Sticker]"@.len() as int,
        ContentModel::RemoteDeleted => "[Message deleted]"@.len() as int,
        ContentModel::Attachment { attachments } => 0,
    }
}

/// One attachment's lines: a header line plus, for a locally stored image,
/// its current display height (a fixed placeholder without a cache).
pub open spec fn spec_att_height(
    a: AttachmentModel,
    cache: Option<Seq<(String, ImageState)>>,
) -> int {
    1 + if is_image_ct(a.content_type) && a.local_path is Some {
        match cache {
            Some(entries) => spec_image_height(entries, a.local_path->0) as int,
            None => DEFAULT_IMAGE_HEIGHT as int,
        }
    } else {
        0
    }
}

/// The lines of a list of attachments.
pub open spec fn spec_atts_height(
    atts: Seq<AttachmentModel>,
    cache: Option<Seq<(String, ImageState)>>,
) -> int
    decreases atts.len(),
{
    if atts.len() == 0 {
        0
    } else {
        spec_atts_height(atts.drop_last(), cache) + spec_att_height(atts.last(), cache)
    }
}

/// The rendered height of one message at the given content width:
/// attachments contribute header and image lines; anything else wraps its
/// label and text; never less than one line.
pub open spec fn spec_msg_height(
    m: MessageModel,
    cache: Option<Seq<(String, ImageState)>>,
    width: int,
) -> int {
    match m.content {
        ContentModel::Attachment { attachments } => {
            let h = spec_atts_height(attachments, cache);
            if h >= 1 {
                h
            } else {
                1
            }
        },
        _ => {
            let w = if width >= 1 {
                width
            } else {
                1
            };
            let lines = (spec_prefix_len(m) + spec_body_len(m.content) + w - 1) / w;
            if lines >= 1 {
                lines
            } else {
                1
            }
        },
    }
}

/// The label length drawn before a message, in cells.
pub fn get_sender_prefix_len(msg: &Message) -> (r: usize)
    ensures
        r as int == spec_prefix_len(msg@),
{
    let name_len: usize = if msg.is_outgoing {
        "You".unicode_len()
    } else {
        match &msg.sender_name {
            Some(n) => n.as_str().unicode_len(),
            None => "Unknown".unicode_len(),
        }
    };
    if name_len <= usize::MAX - 12 {
        12 + name_len
    } else {
        usize::MAX
    }
}

/// The rendered height of one message.
#[verifier::loop_isolation(false)]
pub fn calculate_message_height(msg: &Message, image_cache: Option<&ImageCache>, width: u16) -> (r:
    u64)
    ensures
        r as int == sat64(spec_msg_height(msg@, cache_entries(image_cache), width as int)),
{
    let ghost cm = cache_entries(image_cache);
    match &msg.content {
        crate::model::MessageContent::Attachment { attachments } => {
            let ghost av = attachments@.map_values(|a: AttachmentInfo| a@);
            let mut h: u64 = 0;
            let mut j: usize = 0;
            while j < attachments.len()
                invariant
                    j <= attachments@.len(),
                    h as int == sat64(spec_atts_height(av.take(j as int), cm)),
                decreases attachments@.len() - j,
            {
                proof {
                    assert(av.take(j as int + 1).drop_last() =~= av.take(j as int));
                    assert(av[j as int] == attachments@[j as int]@);
                }
                let img_h: u64 = if ImageCache::is_image(attachments[j].content_type.as_ref()) {
                    match (&attachments[j].local_path, image_cache) {
                        (Some(p), Some(c)) => c.get_image_height(p.as_str()) as u64,
                        (Some(_), None) => DEFAULT_IMAGE_HEIGHT as u64,
                        (None, _) => 0,
                    }
                } else {
                    0
                };
                proof {
                    assert(1 + img_h as int == spec_att_height(av[j as int], cm));
                }
                h = sat_add64(h, 1 + img_h);
                j = j + 1;
            }
            proof {
                assert(av.take(av.len() as int) =~= av);
            }
            if h >= 1 {
                h
            } else {
                1
            }
        },
        _ => {
            let prefix = get_sender_prefix_len(msg);
            let body_len: usize = match &msg.content {
                crate::model::MessageContent::Text { body } => body.as_str().unicode_len(),
                crate::model::MessageContent::Sticker { pack_id, sticker_id } => {
                    "[Sticker]".unicode_len()
                },
                crate::model::MessageContent::RemoteDeleted => "[Message deleted]".unicode_len(),
                crate::model::MessageContent::Attachment { .. } => 0,
            };
            let w: u128 = if width >= 1 {
                width as u128
            } else {
                1
            };
            let total: u128 = prefix as u128 + body_len as u128 + (w - 1);
            let lines: u128 = total / w;
            if lines < 1 {
                1
            } else if lines > u64::MAX as u128 {
                u64::MAX
            } else {
                lines as u64
            }
        },
    }
}

/// The rendered heights of a message list.
#[verifier::loop_isolation(false)]
pub fn message_heights(msgs: &Vec<Message>, image_cache: Option<&ImageCache>, width: u16) -> (r:
    Vec<u64>)
    ensures
        r@.len() == msgs@.len(),
        forall|i: int|
            0 <= i < msgs@.len() ==> #[trigger] r@[i] as int == sat64(
                spec_msg_height(msgs@[i]@, cache_entries(image_cache), width as int),
            ),
{
    let mut out: Vec<u64> = Vec::new();
    let mut i: usize = 0;
    while i < msgs.len()
        invariant
            i <= msgs@.len(),
            out@.len() == i,
            forall|k: int|
                0 <= k < i ==> #[trigger] out@[k] as int == sat64(
                    spec_msg_height(msgs@[k]@, cache_entries(image_cache), width as int),
                ),
        decreases msgs@.len() - i,
    {
        let h = calculate_message_height(&msgs[i], image_cache, width);
        out.push(h);
        i = i + 1;
    }
    out
}

/// The sum of a list of heights, as unbounded lines.
pub open spec fn sum64(s: Seq<u64>) -> int
    decreases s.len(),
{
    if s.len() == 0 {
        0
    } else {
        sum64(s.drop_last()) + s.last()
    }
}

/// The height of everything loaded, saturated to a u64.
pub open spec fn total_sat(s: Seq<u64>) -> int {
    sat64(sum64(s))
}

/// The sum of the first `i` heights.
pub open spec fn prefix_sum(s: Seq<u64>, i: int) -> int {
    sum64(s.take(i))
}

/// The largest scroll offset the content supports: everything above one
/// viewport of the bottom.
pub open spec fn spec_max_scroll(s: Seq<u64>, viewport: int) -> int {
    if total_sat(s) >= viewport {
        total_sat(s) - viewport
    } else {
        0
    }
}

/// The total rendered height of the timeline.
#[verifier::loop_isolation(false)]
pub fn total_height(heights: &Vec<u64>) -> (r: u64)
    ensures
        r as int == total_sat(heights@),
{
    let mut t: u64 = 0;
    let mut i: usize = 0;
    while i < heights.len()
        invariant
            i <= heights@.len(),
            t as int == sat64(sum64(heights@.take(i as int))),
        decreases heights@.len() - i,
    {
        proof {
            assert(heights@.take(i as int + 1).drop_last() =~= heights@.take(i as int));
            assert(heights@.take(i as int + 1).last() == heights@[i as int]);
        }
        t = sat_add64(t, heights[i]);
        i = i + 1;
    }
    proof {
        assert(heights@.take(heights@.len() as int) =~= heights@);
    }
    t
}

/// The scroll offset after the selection cursor pulled the viewport to keep
/// its lines visible: unchanged when the cursor block already lies within
/// the viewport, else moved just far enough.
pub open spec fn spec_override_offset(
    heights: Seq<u64>,
    offset: int,
    viewport: int,
    cursor: Option<usize>,
) -> int {
    match cursor {
        None => offset,
        Some(c) => {
            let t = total_sat(heights);
            let ctop = sat64(prefix_sum(heights, c as int));
            let cbot = sat64(prefix_sum(heights, c as int) + heights[c as int]);
            let vbot = if t >= offset {
                t - offset
            } else {
                0
            };
            let vtop = if vbot >= viewport {
                vbot - viewport
            } else {
                0
            };
            if ctop < vtop {
                let reach = sat64(ctop + viewport);
                if t >= reach {
                    t - reach
                } else {
                    0
                }
            } else if cbot > vbot {
                if t >= cbot {
                    t - cbot
                } else {
                    0
                }
            } else {
                offset
            }
        },
    }
}

/// The first visible message and how many of its top lines are scrolled off:
/// the walk from the oldest message that first exceeds `target_top`.
pub open spec fn spec_find_start(heights: Seq<u64>, target_top: int, i: int, cum: int) -> (
    int,
    int,
)
    decreases heights.len() - i,
{
    if i < 0 || i >= heights.len() {
        (0, 0)
    } else if cum + heights[i] > target_top {
        (i, target_top - cum)
    } else {
        spec_find_start(heights, target_top, i + 1, cum + heights[i])
    }
}

/// The last message that still renders lines before the viewport fills,
/// continuing the walk from the start index with `y` lines already emitted
/// (negative while the first message is partially scrolled off).
pub open spec fn spec_find_end(heights: Seq<u64>, viewport: int, i: int, y: int, end: int) -> int
    decreases heights.len() - i,
{
    if i < 0 || i >= heights.len() {
        end
    } else if y >= viewport {
        end
    } else {
        spec_find_end(heights, viewport, i + 1, y + heights[i], i)
    }
}

/// The resolved slice: which messages are visible and how many lines of the
/// first one are skipped.
#[derive(Debug, Clone, Copy, PartialEq, Eq, Structural)]
pub struct VisibleSlice {
    pub start_idx: usize,
    pub skip_lines: u64,
    pub end_idx: usize,
}

/// Resolves a scroll offset against the current heights: clamps the offset
/// (after the cursor override) to the content and walks out the visible
/// slice exactly as the timeline draws it.
#[verifier::loop_isolation(false)]
pub fn resolve_viewport(
    heights: &Vec<u64>,
    scroll_offset: u64,
    viewport_height: u16,
    cursor: Option<usize>,
) -> (r: (VisibleSlice, u64))
    requires
        heights@.len() > 0,
        match cursor {
            Some(c) => c < heights@.len(),
            None => true,
        },
    ensures
        ({
            let over = spec_override_offset(
                heights@,
                scroll_offset as int,
                viewport_height as int,
                cursor,
            );
            let max_scroll = spec_max_scroll(heights@, viewport_height as int);
            let off = if over <= max_scroll {
                over
            } else {
                max_scroll
            };
            let tb = total_sat(heights@) - off;
            let tt = if tb >= viewport_height as int {
                tb - viewport_height as int
            } else {
                0
            };
            let se = spec_find_start(heights@, tt, 0, 0);
            let end = spec_find_end(
                heights@,
                viewport_height as int,
                se.0,
                0 - se.1,
                se.0,
            );
            &&& r.1 as int == off
            &&& 0 <= r.1 <= max_scroll
            &&& r.0.start_idx as int == se.0
            &&& r.0.skip_lines as int == se.1
            &&& r.0.end_idx as int == end
            &&& r.0.start_idx < heights@.len()
            &&& r.0.start_idx <= r.0.end_idx < heights@.len()
        }),
{
    let total = total_height(heights);
    // Keyboard selection is scroll-authoritative: pull the viewport to the
    // cursor's lines first.
    let offset1: u64 = match cursor {
        None => scroll_offset,
        Some(c) => {
            let mut ctop: u64 = 0;
            let mut k: usize = 0;
            while k < c
                invariant
                    k <= c,
                    c < heights@.len(),
                    ctop as int == sat64(prefix_sum(heights@, k as int)),
                decreases c - k,
            {
                proof {
                    assert(heights@.take(k as int + 1).drop_last() =~= heights@.take(k as int));
                    assert(heights@.take(k as int + 1).last() == heights@[k as int]);
                }
                ctop = sat_add64(ctop, heights[k]);
                k = k + 1;
            }
            let cbot = sat_add64(ctop, heights[c]);
            proof {
                lemma_sum64_nonneg(heights@.take(c as int));
            }
            let vbot = if total >= scroll_offset {
                total - scroll_offset
            } else {
                0
            };
            let vtop = if vbot >= viewport_height as u64 {
                vbot - viewport_height as u64
            } else {
                0
            };
            if ctop < vtop {
                let reach = sat_add64(ctop, viewport_height as u64);
                if total >= reach {
                    total - reach
                } else {
                    0
                }
            } else if cbot > vbot {
                if total >= cbot {
                    total - cbot
                } else {
                    0
                }
            } else {
                scroll_offset
            }
        },
    };
    let max_scroll = if total >= viewport_height as u64 {
        total - viewport_height as u64
    } else {
        0
    };
    let off = if offset1 <= max_scroll {
        offset1
    } else {
        max_scroll
    };
    let target_bottom = total - off;
    let target_top = if target_bottom >= viewport_height as u64 {
        target_bottom - viewport_height as u64
    } else {
        0
    };
    // Walk from the oldest message to the first visible one.
    let ghost answer = spec_find_start(heights@, target_top as int, 0, 0);
    let mut i: usize = 0;
    let mut cum: u64 = 0;
    let mut start: usize = 0;
    let mut skip: u64 = 0;
    let mut found = false;
    while i < heights.len() && !found
        invariant
            i <= heights@.len(),
            !found ==> cum <= target_top && spec_find_start(
                heights@,
                target_top as int,
                i as int,
                cum as int,
            ) == answer,
            found ==> (start as int, skip as int) == answer && start < heights@.len(),
        decreases heights@.len() - i + (if found { 0int } else { 1int }),
    {
        if cum as u128 + heights[i] as u128 > target_top as u128 {
            start = i;
            skip = target_top - cum;
            found = true;
        } else {
            cum = cum + heights[i];
            i = i + 1;
        }
    }
    if !found {
        start = 0;
        skip = 0;
        proof {
            assert(answer == (0int, 0int));
        }
    }
    // Walk forward until the viewport is filled.
    let ghost end_answer = spec_find_end(
        heights@,
        viewport_height as int,
        start as int,
        0 - skip as int,
        start as int,
    );
    let mut end: usize = start;
    let mut j: usize = start;
    let mut rendered: u128 = 0;
    let vs: u128 = viewport_height as u128;
    let skip_wide: u128 = skip as u128;
    while j < heights.len()
        invariant
            start <= j <= heights@.len(),
            start <= end < heights@.len(),
            start < heights@.len(),
            vs == viewport_height as int,
            skip_wide == skip as int,
            rendered <= vs + skip_wide + u64::MAX,
            spec_find_end(
                heights@,
                vs as int,
                j as int,
                rendered as int - skip_wide as int,
                end as int,
            ) == end_answer,
        decreases heights@.len() - j,
    {
        if rendered >= vs + skip_wide {
            break ;
        }
        end = j;
        rendered = rendered + heights[j] as u128;
        j = j + 1;
    }
    (VisibleSlice { start_idx: start, skip_lines: skip, end_idx: end }, off)
}

/// Height sums are never negative.
pub proof fn lemma_sum64_nonneg(s: Seq<u64>)
    ensures
        sum64(s) >= 0,
    decreases s.len(),
{
    if s.len() > 0 {
        lemma_sum64_nonneg(s.drop_last());
    }
}

impl ConversationView {
    /// Resolves this view's scroll offset against the given heights (one per
    /// loaded message): clamps the offset, publishes the visible range, and
    /// returns the slice to draw. The clamped offset always lies within
    /// `[0, max(0, total height - viewport height)]`.
    pub fn resolve_scroll(&mut self, heights: &Vec<u64>, viewport_height: u16) -> (r: VisibleSlice)
        requires
            old(self).wf(),
            old(self).messages is Some,
            heights@.len() == loaded_msgs(*old(self)).len(),
            heights@.len() > 0,
        ensures
            final(self).wf(),
            final(self).conversation == old(self).conversation,
            final(self).messages == old(self).messages,
            final(self).has_more_messages == old(self).has_more_messages,
            final(self).selection == old(self).selection,
            final(self).last_message_preview == old(self).last_message_preview,
            final(self).scroll_offset <= spec_max_scroll(heights@, viewport_height as int),
            final(self).scroll_offset as int == sat_usize(
                {
                    let over = spec_override_offset(
                        heights@,
                        old(self).scroll_offset as int,
                        viewport_height as int,
                        match old(self).selection {
                            Some(sel) => Some(sel.cursor),
                            None => None,
                        },
                    );
                    let max_scroll = spec_max_scroll(heights@, viewport_height as int);
                    if over <= max_scroll {
                        over
                    } else {
                        max_scroll
                    }
                },
            ),
            final(self).visible_range == Some((r.start_idx, r.end_idx)),
            r.start_idx <= r.end_idx < heights@.len(),
    {
        let cursor: Option<usize> = match &self.selection {
            Some(sel) => Some(sel.cursor),
            None => None,
        };
        let (slice, off) = resolve_viewport(
            heights,
            self.scroll_offset as u64,
            viewport_height,
            cursor,
        );
        self.scroll_offset = if off <= usize::MAX as u64 {
            off as usize
        } else {
            usize::MAX
        };
        self.visible_range = Some((slice.start_idx, slice.end_idx));
        slice
    }
}

/// The scroll position indicator: 100 at the bottom, 0 at the top.
pub fn scroll_percent(scroll_offset: u64, max_scroll: u64) -> (r: u16)
    requires
        scroll_offset <= max_scroll,
    ensures
        max_scroll > 0 ==> r as int == 100 - (scroll_offset as int * 100) / (max_scroll as int),
        max_scroll == 0 ==> r == 100,
{
    if max_scroll > 0 {
        let pct = (scroll_offset as u128 * 100) / (max_scroll as u128);
        proof {
            assert((scroll_offset as int * 100) / (max_scroll as int) <= 100) by (nonlinear_arith)
                requires
                    scroll_offset <= max_scroll,
                    max_scroll > 0,
            ;
            assert((scroll_offset as int * 100) / (max_scroll as int) >= 0) by (nonlinear_arith)
                requires
                    max_scroll > 0,
                    scroll_offset >= 0,
            ;
        }
        100 - pct as u16
    } else {
        100
    }
}

} // verus!
