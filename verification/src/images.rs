//! The image pipeline's cache: a path-keyed state machine fed by a decode
//! worker. Entries move `Loading -> Loaded | Failed` and never revert.
//! Decoding bytes into pixel dimensions is the one outside call; turning
//! pixel dimensions into display cells is verified arithmetic.

use vstd::prelude::*;

use crate::text::{str_eq, str_starts_with};
use crate::view::is_image_ct;

verus! {

/// Widest image in cells.
pub const MAX_IMAGE_WIDTH: u16 = 60;

/// Tallest image in cells.
pub const MAX_IMAGE_HEIGHT: u16 = 20;

/// Shortest image in cells; also the placeholder height while loading.
pub const MIN_IMAGE_HEIGHT: u16 = 4;

/// One cache entry: being decoded, decoded to a display size in cells, or
/// failed to read or decode.
#[derive(Debug, Clone, Copy, PartialEq, Eq, Structural)]
pub enum ImageState {
    Loading,
    Loaded { width: u16, height: u16 },
    Failed,
}

/// The pixel dimensions that image::load_from_memory reads from encoded
/// bytes: a function of the bytes alone.
pub uninterp spec fn decoded_dims(data: Seq<u8>) -> Option<(u32, u32)>;

/// Relies on image::load_from_memory and DynamicImage::width/height: decodes
/// the bytes and reports the pixel dimensions, `None` when the bytes are not
/// a decodable image.
#[verifier::external_body]
pub fn decode_image_size(data: &Vec<u8>) -> (r: Option<(u32, u32)>)
    ensures
        r == decoded_dims(data@),
{
    match image::load_from_memory(data.as_slice()) {
        Ok(img) => Some((img.width(), img.height())),
        Err(_) => None,
    }
}

/// The display size in terminal cells for an image of `iw x ih` pixels shown
/// at most `maxw` cells wide: width capped at 60, height from the aspect
/// ratio corrected by the 2:1 cell shape (rounded to the nearest line) and
/// clamped to `[4, 20]`; when the height clamp bites, the width is recomputed
/// from the clamped height to keep the aspect ratio.
pub open spec fn spec_display_size(iw: int, ih: int, maxw: int) -> (int, int) {
    if iw == 0 || ih == 0 {
        (maxw, MIN_IMAGE_HEIGHT as int)
    } else {
        let dw = if maxw <= MAX_IMAGE_WIDTH as int {
            maxw
        } else {
            MAX_IMAGE_WIDTH as int
        };
        let h_raw = (dw * ih + iw) / (2 * iw);
        let h = if h_raw < MIN_IMAGE_HEIGHT as int {
            MIN_IMAGE_HEIGHT as int
        } else if h_raw > MAX_IMAGE_HEIGHT as int {
            MAX_IMAGE_HEIGHT as int
        } else {
            h_raw
        };
        let w = if h == MIN_IMAGE_HEIGHT as int || h == MAX_IMAGE_HEIGHT as int {
            let w_raw = (4 * h * iw + ih) / (2 * ih);
            if w_raw <= dw {
                w_raw
            } else {
                dw
            }
        } else {
            dw
        };
        (w, h)
    }
}

/// Computes the display size in cells for a decoded image.
pub fn calculate_display_size(img_width: u32, img_height: u32, max_width: u16) -> (r: (u16, u16))
    ensures
        (r.0 as int, r.1 as int) == spec_display_size(
            img_width as int,
            img_height as int,
            max_width as int,
        ),
{
    if img_width == 0 || img_height == 0 {
        return (max_width, MIN_IMAGE_HEIGHT);
    }
    let iw = img_width as u64;
    let ih = img_height as u64;
    let dw: u64 = if max_width <= MAX_IMAGE_WIDTH {
        max_width as u64
    } else {
        MAX_IMAGE_WIDTH as u64
    };
    proof {
        assert(dw * ih + iw < 0x8000_0000_0000_0000) by (nonlinear_arith)
            requires
                dw <= 0x1_0000,
                ih < 0x1_0000_0000,
                iw < 0x1_0000_0000,
        ;
    }
    let h_raw = (dw * ih + iw) / (2 * iw);
    let h: u64 = if h_raw < MIN_IMAGE_HEIGHT as u64 {
        MIN_IMAGE_HEIGHT as u64
    } else if h_raw > MAX_IMAGE_HEIGHT as u64 {
        MAX_IMAGE_HEIGHT as u64
    } else {
        h_raw
    };
    let w: u64 = if h == MIN_IMAGE_HEIGHT as u64 || h == MAX_IMAGE_HEIGHT as u64 {
        proof {
            assert(4 * h * iw + ih < 0x8000_0000_0000_0000) by (nonlinear_arith)
                requires
                    h <= 20,
                    iw < 0x1_0000_0000,
                    ih < 0x1_0000_0000,
            ;
        }
        let w_raw = (4 * h * iw + ih) / (2 * ih);
        if w_raw <= dw {
            w_raw
        } else {
            dw
        }
    } else {
        dw
    };
    (w as u16, h as u16)
}

/// The state recorded for `path`, newest entry authoritative (keys are kept
/// unique, so at most one entry matches).
pub open spec fn cache_lookup(s: Seq<(String, ImageState)>, path: Seq<char>) -> Option<ImageState>
    decreases s.len(),
{
    if s.len() == 0 {
        None
    } else if s.last().0@ == path {
        Some(s.last().1)
    } else {
        cache_lookup(s.drop_last(), path)
    }
}

/// The non-blocking, path-keyed image cache. The decode worker lives outside
/// the library; it is fed exactly when `begin_loading` says so and its
/// results are applied through `install_result`.
pub struct ImageCache {
    pub entries: Vec<(String, ImageState)>,
    pub attachments_dir: String,
}

/// Every state a lookup reads is recorded in some entry.
proof fn lemma_lookup_in_entries(s: Seq<(String, ImageState)>, path: Seq<char>)
    ensures
        match cache_lookup(s, path) {
            Some(st) => exists|i: int| 0 <= i < s.len() && (#[trigger] s[i]).1 == st,
            None => true,
        },
    decreases s.len(),
{
    if s.len() > 0 && s.last().0@ != path {
        lemma_lookup_in_entries(s.drop_last(), path);
        if cache_lookup(s.drop_last(), path) is Some {
            let i = choose|i: int|
                0 <= i < s.drop_last().len() && (#[trigger] s.drop_last()[i]).1 == cache_lookup(
                    s.drop_last(),
                    path,
                )->0;
            assert(s[i].1 == cache_lookup(s, path)->0);
        }
    }
}

impl ImageCache {
    /// Every loaded entry's display height lies within the clamp bounds.
    pub open spec fn wf(&self) -> bool {
        forall|i: int|
            0 <= i < self.entries@.len() ==> (match (#[trigger] self.entries@[i]).1 {
                ImageState::Loaded { width, height } => MIN_IMAGE_HEIGHT <= height
                    <= MAX_IMAGE_HEIGHT,
                _ => true,
            })
    }

    /// An empty cache resolving relative paths under `attachments_dir`.
    pub fn new(attachments_dir: String) -> (r: ImageCache)
        ensures
            r.wf(),
            r.entries@.len() == 0,
            r.attachments_dir == attachments_dir,
    {
        ImageCache { entries: Vec::new(), attachments_dir }
    }

    /// Whether a declared content type names an image.
    pub fn is_image(content_type: Option<&String>) -> (r: bool)
        ensures
            r == is_image_ct(
                match content_type {
                    Some(s) => Some(s@),
                    None => None,
                },
            ),
    {
        match content_type {
            Some(ct) => str_starts_with(ct.as_str(), "image/"),
            None => false,
        }
    }

    /// Marks `path` as loading if it is unknown; returns whether the caller
    /// should hand the path to the decode worker. A request for a path that
    /// is already loading (or resolved) is dropped, so enqueueing is
    /// idempotent.
    #[verifier::loop_isolation(false)]
    pub fn begin_loading(&mut self, path: &str) -> (r: bool)
        requires
            old(self).wf(),
        ensures
            final(self).wf(),
            final(self).attachments_dir == old(self).attachments_dir,
            cache_lookup(old(self).entries@, path@) is Some ==> *final(self) == *old(self) && !r,
            cache_lookup(old(self).entries@, path@) is None ==> r && final(self).entries@.len()
                == old(self).entries@.len() + 1 && final(self).entries@.drop_last() == old(
                self,
            ).entries@ && final(self).entries@.last().1 == ImageState::Loading && cache_lookup(
                final(self).entries@,
                path@,
            ) == Some(ImageState::Loading) && preserves_other_paths(
                old(self).entries@,
                final(self).entries@,
                path@,
            ),
    {
        if self.state_of(path).is_some() {
            return false;
        }
        let owned: String = path.to_owned();
        let ghost before = self.entries@;
        self.entries.push((owned, ImageState::Loading));
        proof {
            assert(self.entries@.drop_last() =~= before);
            assert(cache_lookup(self.entries@, path@) == Some(ImageState::Loading));
            assert forall|q: Seq<char>| q != path@ implies #[trigger] cache_lookup(
                self.entries@,
                q,
            ) == cache_lookup(before, q) by {
                assert(self.entries@.last().0@ != q);
            }
        }
        true
    }

    /// Marks `path` failed unless it already resolved to a loaded image
    /// (states only ever advance).
    #[verifier::loop_isolation(false)]
    pub fn mark_failed(&mut self, path: &str)
        requires
            old(self).wf(),
        ensures
            final(self).wf(),
            final(self).attachments_dir == old(self).attachments_dir,
            (match cache_lookup(old(self).entries@, path@) {
                Some(ImageState::Loaded { .. }) => true,
                _ => false,
            }) ==> *final(self) == *old(self),
            (match cache_lookup(old(self).entries@, path@) {
                Some(ImageState::Loaded { .. }) => false,
                _ => true,
            }) ==> cache_lookup(final(self).entries@, path@) == Some(ImageState::Failed)
                && preserves_other_paths(old(self).entries@, final(self).entries@, path@),
    {
        self.set_state(path, ImageState::Failed, false);
    }

    /// Applies one decode result: pixel dimensions become a display size
    /// sized for `max_width`, a failed decode records the failure. Results
    /// for a path that already resolved are ignored (states only advance).
    #[verifier::loop_isolation(false)]
    pub fn install_result(&mut self, path: &str, dims: Option<(u32, u32)>, max_width: u16)
        requires
            old(self).wf(),
        ensures
            final(self).wf(),
            final(self).attachments_dir == old(self).attachments_dir,
            (match cache_lookup(old(self).entries@, path@) {
                Some(ImageState::Loaded { .. }) | Some(ImageState::Failed) => true,
                _ => false,
            }) ==> *final(self) == *old(self),
            (match cache_lookup(old(self).entries@, path@) {
                Some(ImageState::Loaded { .. }) | Some(ImageState::Failed) => false,
                _ => true,
            }) ==> cache_lookup(final(self).entries@, path@) == Some(
                match dims {
                    Some((w, h)) => loaded_state(w as int, h as int, max_width as int),
                    None => ImageState::Failed,
                },
            ) && preserves_other_paths(old(self).entries@, final(self).entries@, path@),
    {
        let state = match dims {
            Some((w, h)) => {
                let (dw, dh) = calculate_display_size(w, h, max_width);
                proof {
                    assert(MIN_IMAGE_HEIGHT <= dh <= MAX_IMAGE_HEIGHT);
                }
                ImageState::Loaded { width: dw, height: dh }
            },
            None => ImageState::Failed,
        };
        self.set_state(path, state, true);
    }

    /// The recorded state of `path`, if any.
    #[verifier::loop_isolation(false)]
    pub fn state_of(&self, path: &str) -> (r: Option<ImageState>)
        ensures
            r == cache_lookup(self.entries@, path@),
    {
        let mut i: usize = self.entries.len();
        proof {
            assert(self.entries@.take(self.entries@.len() as int) =~= self.entries@);
        }
        while i > 0
            invariant
                i <= self.entries@.len(),
                cache_lookup(self.entries@, path@) == cache_lookup(
                    self.entries@.take(i as int),
                    path@,
                ),
            decreases i,
        {
            i = i - 1;
            proof {
                assert(self.entries@.take(i as int + 1).drop_last() =~= self.entries@.take(
                    i as int,
                ));
                assert(self.entries@.take(i as int + 1).last() == self.entries@[i as int]);
            }
            if str_eq(self.entries[i].0.as_str(), path) {
                return Some(self.entries[i].1);
            }
        }
        proof {
            assert(self.entries@.take(0) =~= Seq::<(String, ImageState)>::empty());
        }
        None
    }

    /// The display height used for `path` in layout: the decoded height once
    /// it is loaded, the placeholder height while loading or after a
    /// failure.
    pub fn get_image_height(&self, path: &str) -> (r: u16)
        ensures
            r == spec_image_height(self.entries@, path@),
            self.wf() ==> MIN_IMAGE_HEIGHT <= r <= MAX_IMAGE_HEIGHT,
    {
        proof {
            lemma_lookup_in_entries(self.entries@, path@);
        }
        match self.state_of(path) {
            Some(ImageState::Loaded { width, height }) => height,
            _ => MIN_IMAGE_HEIGHT,
        }
    }

    /// The display size of a loaded image, `None` while loading or failed.
    pub fn get_image_size(&self, path: &str) -> (r: Option<(u16, u16)>)
        ensures
            match cache_lookup(self.entries@, path@) {
                Some(ImageState::Loaded { width, height }) => r == Some((width, height)),
                _ => r is None,
            },
    {
        match self.state_of(path) {
            Some(ImageState::Loaded { width, height }) => Some((width, height)),
            _ => None,
        }
    }

    /// Whether a placeholder should be drawn: the path is still being
    /// decoded, or was never requested.
    pub fn is_loading(&self, path: &str) -> (r: bool)
        ensures
            r == match cache_lookup(self.entries@, path@) {
                Some(ImageState::Loading) | None => true,
                _ => false,
            },
    {
        match self.state_of(path) {
            Some(ImageState::Loading) => true,
            None => true,
            _ => false,
        }
    }

    /// Where an attachment id is stored on disk: under the attachments
    /// directory.
    pub fn resolve_attachment_path(&self, attachment_id: &str) -> (r: String)
        ensures
            r@ == self.attachments_dir@ + "/"@ + attachment_id@,
    {
        let mut out = self.attachments_dir.clone();
        out.append("/");
        out.append(attachment_id);
        out
    }

    /// The full path a load request reads: absolute paths as given, others
    /// under the attachments directory.
    pub fn resolve_request_path(&self, path: &str) -> (r: String)
        ensures
            (path@.len() > 0 && path@[0] == '/') ==> r@ == path@,
            !(path@.len() > 0 && path@[0] == '/') ==> r@ == self.attachments_dir@ + "/"@ + path@,
    {
        let absolute = str_starts_with(path, "/");
        proof {
            reveal_strlit("/");
            if path@.len() > 0 && path@[0] == '/' {
                assert(path@.subrange(0, 1) =~= "/"@);
            }
            if 1 <= path@.len() && path@.subrange(0, 1) == "/"@ {
                assert(path@[0] == path@.subrange(0, 1)[0]);
            }
            assert(absolute == (path@.len() > 0 && path@[0] == '/'));
        }
        if absolute {
            path.to_owned()
        } else {
            self.resolve_attachment_path(path)
        }
    }

    /// Replaces or appends the entry for `path`. With `skip_failed` the
    /// write is dropped when the entry already failed (decode results may
    /// not overwrite a recorded failure); a loaded entry is never replaced.
    #[verifier::loop_isolation(false)]
    fn set_state(&mut self, path: &str, state: ImageState, skip_failed: bool)
        requires
            old(self).wf(),
            state matches ImageState::Loaded { width, height } ==> MIN_IMAGE_HEIGHT <= height
                <= MAX_IMAGE_HEIGHT,
        ensures
            final(self).wf(),
            final(self).attachments_dir == old(self).attachments_dir,
            (match cache_lookup(old(self).entries@, path@) {
                Some(ImageState::Loaded { .. }) => true,
                Some(ImageState::Failed) => skip_failed,
                _ => false,
            }) ==> *final(self) == *old(self),
            (match cache_lookup(old(self).entries@, path@) {
                Some(ImageState::Loaded { .. }) => false,
                Some(ImageState::Failed) => !skip_failed,
                _ => true,
            }) ==> cache_lookup(final(self).entries@, path@) == Some(state)
                && preserves_other_paths(old(self).entries@, final(self).entries@, path@),
    {
        let mut i: usize = self.entries.len();
        proof {
            assert(self.entries@.take(self.entries@.len() as int) =~= self.entries@);
        }
        while i > 0
            invariant
                i <= self.entries@.len(),
                self == old(self),
                cache_lookup(self.entries@, path@) == cache_lookup(
                    self.entries@.take(i as int),
                    path@,
                ),
                forall|k: int|
                    i <= k < self.entries@.len() ==> (#[trigger] self.entries@[k]).0@ != path@,
            decreases i,
        {
            i = i - 1;
            proof {
                assert(self.entries@.take(i as int + 1).drop_last() =~= self.entries@.take(
                    i as int,
                ));
                assert(self.entries@.take(i as int + 1).last() == self.entries@[i as int]);
            }
            if str_eq(self.entries[i].0.as_str(), path) {
                proof {
                    assert(cache_lookup(self.entries@, path@) == Some(self.entries@[i as int].1));
                }
                let keep = match &self.entries[i].1 {
                    ImageState::Loaded { .. } => true,
                    ImageState::Failed => skip_failed,
                    ImageState::Loading => false,
                };
                if keep {
                    return ;
                }
                let owned: String = path.to_owned();
                let ghost before = self.entries@;
                self.entries.set(i, (owned, state));
                proof {
                    lemma_cache_lookup_update(before, i as int, self.entries@[i as int], path@);
                    assert(self.entries@[i as int].1 == state);
                }
                return ;
            }
        }
        proof {
            assert(self.entries@.take(0) =~= Seq::<(String, ImageState)>::empty());
        }
        let owned: String = path.to_owned();
        let ghost before = self.entries@;
        self.entries.push((owned, state));
        proof {
            assert(self.entries@.drop_last() =~= before);
            assert(cache_lookup(self.entries@, path@) == Some(state));
            assert forall|q: Seq<char>| q != path@ implies #[trigger] cache_lookup(
                self.entries@,
                q,
            ) == cache_lookup(before, q) by {
                assert(self.entries@.last().0@ != q);
            }
        }
    }
}

/// The display height used in layout for `path`.
pub open spec fn spec_image_height(entries: Seq<(String, ImageState)>, path: Seq<char>) -> u16 {
    match cache_lookup(entries, path) {
        Some(ImageState::Loaded { width, height }) => height,
        _ => MIN_IMAGE_HEIGHT,
    }
}

/// The state a successful decode of `w x h` pixels installs.
pub open spec fn loaded_state(w: int, h: int, maxw: int) -> ImageState {
    ImageState::Loaded {
        width: spec_display_size(w, h, maxw).0 as u16,
        height: spec_display_size(w, h, maxw).1 as u16,
    }
}

/// Every path other than `path` reads the same in `post` as in `pre`.
pub open spec fn preserves_other_paths(
    pre: Seq<(String, ImageState)>,
    post: Seq<(String, ImageState)>,
    path: Seq<char>,
) -> bool {
    forall|q: Seq<char>| q != path ==> #[trigger] cache_lookup(post, q) == cache_lookup(pre, q)
}

/// Replacing the entry at `i` only changes what its key reads as.
proof fn lemma_cache_lookup_update(
    s: Seq<(String, ImageState)>,
    i: int,
    e: (String, ImageState),
    path: Seq<char>,
)
    requires
        0 <= i < s.len(),
        s[i].0@ == path,
        e.0@ == path,
        forall|k: int| i < k < s.len() ==> (#[trigger] s[k]).0@ != path,
    ensures
        cache_lookup(s.update(i, e), path) == Some(e.1),
        preserves_other_paths(s, s.update(i, e), path),
    decreases s.len(),
{
    let t = s.update(i, e);
    if i == s.len() - 1 {
        assert(t.last() == e);
        assert(t.drop_last() =~= s.drop_last());
        assert forall|q: Seq<char>| q != path implies #[trigger] cache_lookup(t, q)
            == cache_lookup(s, q) by {
            assert(cache_lookup(t.drop_last(), q) == cache_lookup(s.drop_last(), q));
        }
    } else {
        assert(t.last() == s.last());
        assert(t.drop_last() =~= s.drop_last().update(i, e));
        lemma_cache_lookup_update(s.drop_last(), i, e, path);
        assert(s.last().0@ != path);
        assert(cache_lookup(t, path) == cache_lookup(t.drop_last(), path));
        assert forall|q: Seq<char>| q != path implies #[trigger] cache_lookup(t, q)
            == cache_lookup(s, q) by {
            if s.last().0@ != q {
                assert(cache_lookup(t.drop_last(), q) == cache_lookup(s.drop_last(), q));
            }
        }
    }
}

} // verus!
