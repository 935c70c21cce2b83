//! Screen sharing: what can be captured, how it is labelled, which windows
//! are offered, how captured frames are encoded and paced.

use vstd::prelude::*;
use vstd::utf8::{decode_utf8, encode_utf8, encode_utf8_decode_utf8};
use crate::protocol::{JPEG_QUALITY, TARGET_FPS};
use crate::codec::{jpeg_encoding, encode_jpeg};
use crate::text::text_eq;

verus! {

/// A window that can be shared.
#[derive(Debug, Clone)]
pub struct WindowInfo {
    pub id: u32,
    pub app_name: String,
    pub title: String,
}

/// What a window is, as text.
pub struct WindowView {
    pub id: u32,
    pub app_name: Seq<char>,
    pub title: Seq<char>,
}

impl View for WindowInfo {
    type V = WindowView;

    open spec fn view(&self) -> WindowView {
        WindowView { id: self.id, app_name: self.app_name@, title: self.title@ }
    }
}

/// What a sharer captures.
#[derive(Debug, Clone)]
pub enum CaptureSource {
    FullScreen,
    Window(WindowInfo),
}

/// What the window system reports of one window; `None` where it could not
/// say.
pub struct RawWindow {
    pub is_minimized: Option<bool>,
    pub width: Option<u32>,
    pub height: Option<u32>,
    pub id: Option<u32>,
    pub app_name: Option<String>,
    pub title: Option<String>,
}

/// The text of an optional string, empty where there is none.
pub open spec fn text_or_empty(s: Option<String>) -> Seq<char> {
    match s {
        Some(t) => t@,
        None => Seq::empty(),
    }
}

/// The window offered for `r`, if any: it is not minimized (nor of unknown
/// state), has a known non-zero size and a known id, and has an application
/// name or a title.
pub open spec fn window_entry(r: RawWindow) -> Option<WindowView> {
    let minimized = match r.is_minimized { Some(m) => m, None => true };
    let width = match r.width { Some(w) => w, None => 0 };
    let height = match r.height { Some(h) => h, None => 0 };
    if minimized || width == 0 || height == 0 || r.id is None {
        None
    } else if text_or_empty(r.app_name).len() == 0 && text_or_empty(r.title).len() == 0 {
        None
    } else {
        Some(WindowView { id: r.id->0, app_name: text_or_empty(r.app_name), title: text_or_empty(r.title) })
    }
}

/// The window system says of `r` that it is not minimized, has a non-zero
/// width and height and an id, and it has an application name or a title.
pub open spec fn shareable(r: RawWindow) -> bool {
    &&& r.is_minimized == Some(false)
    &&& r.width is Some && r.width->0 > 0
    &&& r.height is Some && r.height->0 > 0
    &&& r.id is Some
    &&& (text_or_empty(r.app_name).len() > 0 || text_or_empty(r.title).len() > 0)
}

/// A window is offered exactly when it is shareable, and then with its id,
/// application name and title as reported (empty where not reported); in
/// particular a window with an application name but no title is offered.
pub proof fn law_window_offered_iff_shareable(r: RawWindow)
    ensures
        window_entry(r) is Some <==> shareable(r),
        shareable(r) ==> window_entry(r) == Some(
            WindowView {
                id: r.id->0,
                app_name: text_or_empty(r.app_name),
                title: text_or_empty(r.title),
            },
        ),
{
}

pub(crate) proof fn lemma_filter_map_has<A, B>(s: Seq<A>, f: spec_fn(A) -> Option<B>, i: int)
    requires
        0 <= i < s.len(),
        f(s[i]) is Some,
    ensures
        s.filter_map(f).contains(f(s[i])->0),
    decreases s.len(),
{
    let rest = s.drop_last();
    if i == s.len() - 1 {
        let out = s.filter_map(f);
        assert(out == rest.filter_map(f) + seq![f(s[i])->0]);
        assert(out[out.len() - 1] == f(s[i])->0);
    } else {
        assert(rest[i] == s[i]);
        lemma_filter_map_has(rest, f, i);
        let out = rest.filter_map(f);
        let k = choose|k: int| 0 <= k < out.len() && out[k] == f(s[i])->0;
        let all = s.filter_map(f);
        match f(s.last()) {
            Some(x) => {
                assert(all == out + seq![x]);
                assert(all[k] == out[k]);
            },
            None => {},
        }
    }
}

/// The windows listed are exactly those of the shareable windows reported:
/// each listed window is a shareable reported window, and each shareable
/// reported window is listed.
pub proof fn law_listed_windows_are_the_shareable_ones(raw: Seq<RawWindow>, w: WindowView)
    ensures
        raw.filter_map(|r: RawWindow| window_entry(r)).contains(w) <==> exists|i: int|
            0 <= i < raw.len() && shareable(#[trigger] raw[i]) && w == (WindowView {
                id: raw[i].id->0,
                app_name: text_or_empty(raw[i].app_name),
                title: text_or_empty(raw[i].title),
            }),
{
    let f = |r: RawWindow| window_entry(r);
    if raw.filter_map(f).contains(w) {
        raw.lemma_filter_map_contains(f, w);
        let t = choose|t: RawWindow| raw.contains(t) && f(t) == Some(w);
        let i = choose|i: int| 0 <= i < raw.len() && raw[i] == t;
        law_window_offered_iff_shareable(t);
    }
    if exists|i: int|
        0 <= i < raw.len() && shareable(#[trigger] raw[i]) && w == (WindowView {
            id: raw[i].id->0,
            app_name: text_or_empty(raw[i].app_name),
            title: text_or_empty(raw[i].title),
        }) {
        let i = choose|i: int|
            0 <= i < raw.len() && shareable(#[trigger] raw[i]) && w == (WindowView {
                id: raw[i].id->0,
                app_name: text_or_empty(raw[i].app_name),
                title: text_or_empty(raw[i].title),
            });
        law_window_offered_iff_shareable(raw[i]);
        lemma_filter_map_has(raw, f, i);
    }
}

/// The first `n` bytes of the UTF-8 encoding of `s`, as characters.
pub open spec fn byte_prefix(s: Seq<char>, n: int) -> Seq<char> {
    decode_utf8(encode_utf8(s).subrange(0, n))
}

/// The label of a window: its application name, followed by its title where
/// there is one; a title longer than `max` bytes is cut after `cut` bytes
/// and ends with an ellipsis.
pub open spec fn title_label(app: Seq<char>, title: Seq<char>, max: int, cut: int) -> Seq<char> {
    if title.len() == 0 {
        app
    } else if encode_utf8(title).len() > max {
        app + " - "@ + byte_prefix(title, cut) + "…"@
    } else {
        app + " - "@ + title
    }
}

/// The label cut may be made: the title is short enough not to be cut, or
/// the cut falls on a character boundary.
pub open spec fn can_cut(title: Seq<char>, max: int, cut: int) -> bool {
    encode_utf8(title).len() > max ==> vstd::utf8::is_char_boundary(encode_utf8(title), cut)
}

/// How a capture source is shown.
pub open spec fn source_label(s: CaptureSource) -> Seq<char> {
    match s {
        CaptureSource::FullScreen => "Full Screen"@,
        CaptureSource::Window(w) => title_label(w.app_name@, w.title@, 50, 47),
    }
}

/// The label may be computed: a window's title, if cut, is cut on a
/// character boundary.
pub open spec fn source_label_defined(s: CaptureSource) -> bool {
    match s {
        CaptureSource::FullScreen => true,
        CaptureSource::Window(w) => can_cut(w.title@, 50, 47),
    }
}

fn label_with_title(app: &str, title: &str, max: usize, cut: usize) -> (res: String)
    requires
        cut <= max,
        can_cut(title@, max as int, cut as int),
    ensures
        res@ == title_label(app@, title@, max as int, cut as int),
{
    let mut res = String::from_str(app);
    if title.is_empty() {
        return res;
    }
    res.append(" - ");
    if title.as_bytes().len() > max {
        proof {
            vstd::utf8::encode_utf8_valid_utf8(title@);
        }
        let (head, _) = title.split_at(cut);
        proof {
            encode_utf8_decode_utf8(head@);
            assert(encode_utf8(head@) == encode_utf8(title@).subrange(0, cut as int));
            assert(head@ == byte_prefix(title@, cut as int));
        }
        res.append(head);
        res.append("…");
    } else {
        res.append(title);
    }
    res
}

impl CaptureSource {
    /// How this source is shown to users ("Full Screen", or the window's
    /// application and title, cut after 47 bytes when over 50).
    pub fn to_string(&self) -> (res: String)
        requires
            source_label_defined(*self),
        ensures
            res@ == source_label(*self),
    {
        match self {
            CaptureSource::FullScreen => String::from_str("Full Screen"),
            CaptureSource::Window(w) => label_with_title(w.app_name.as_str(), w.title.as_str(), 50, 47),
        }
    }

    /// The id of the window to capture; `None` for the full screen.
    pub fn window_id(&self) -> (res: Option<u32>)
        ensures
            res == match *self {
                CaptureSource::FullScreen => None,
                CaptureSource::Window(w) => Some(w.id),
            },
    {
        match self {
            CaptureSource::FullScreen => None,
            CaptureSource::Window(w) => Some(w.id),
        }
    }
}

/// The label of a window in the window picker (titles over 60 bytes are cut
/// after 57).
pub fn window_choice_label(win: &WindowInfo) -> (res: String)
    requires
        can_cut(win.title@, 60, 57),
    ensures
        res@ == title_label(win.app_name@, win.title@, 60, 57),
{
    label_with_title(win.app_name.as_str(), win.title.as_str(), 60, 57)
}

fn string_or_empty(s: &Option<String>) -> (res: String)
    ensures
        res@ == text_or_empty(*s),
{
    match s {
        Some(t) => t.clone(),
        None => String::new(),
    }
}

/// The windows offered for sharing, in the order the window system listed
/// them (see [`window_entry`]).
pub fn list_windows(raw: &Vec<RawWindow>) -> (res: Vec<WindowInfo>)
    ensures
        res@.map_values(|w: WindowInfo| w@) == raw@.filter_map(|r: RawWindow| window_entry(r)),
{
    let ghost f = |r: RawWindow| window_entry(r);
    let mut res: Vec<WindowInfo> = Vec::new();
    let mut i: usize = 0;
    while i < raw.len()
        invariant
            i <= raw@.len(),
            f == (|r: RawWindow| window_entry(r)),
            res@.map_values(|w: WindowInfo| w@) == raw@.take(i as int).filter_map(f),
        decreases raw@.len() - i,
    {
        let r = &raw[i];
        proof {
            raw@.lemma_filter_map_take_succ(f, i as int);
        }
        let minimized = match r.is_minimized {
            Some(m) => m,
            None => true,
        };
        let width = match r.width {
            Some(w) => w,
            None => 0,
        };
        let height = match r.height {
            Some(h) => h,
            None => 0,
        };
        if !minimized && width != 0 && height != 0 {
            if let Some(id) = r.id {
                let app_name = string_or_empty(&r.app_name);
                let title = string_or_empty(&r.title);
                if !(app_name.as_str().is_empty() && title.as_str().is_empty()) {
                    let ghost before = res@;
                    res.push(WindowInfo { id, app_name, title });
                    assert(res@.map_values(|w: WindowInfo| w@) =~= before.map_values(
                        |w: WindowInfo| w@,
                    ).push(res@[res@.len() - 1]@));
                }
            }
        }
        i = i + 1;
    }
    assert(raw@.take(i as int) =~= raw@);
    res
}

/// The source that a request to share names: the described window when the
/// request is for a "window" (missing parts read as id 0 and empty text),
/// the full screen otherwise.
pub fn capture_source_from_request(
    source_type: &str,
    window_id: Option<u32>,
    window_app: Option<String>,
    window_title: Option<String>,
) -> (res: CaptureSource)
    ensures
        source_type@ == "window"@ ==> (res matches CaptureSource::Window(w) && w@ == (WindowView {
            id: match window_id { Some(id) => id, None => 0 },
            app_name: text_or_empty(window_app),
            title: text_or_empty(window_title),
        })),
        source_type@ != "window"@ ==> res is FullScreen,
{
    if text_eq(source_type, "window") {
        let id = match window_id {
            Some(id) => id,
            None => 0,
        };
        CaptureSource::Window(WindowInfo {
            id,
            app_name: string_or_empty(&window_app),
            title: string_or_empty(&window_title),
        })
    } else {
        CaptureSource::FullScreen
    }
}

/// Milliseconds between two captured frames: a second divided by the
/// target frame rate, rounded down.
pub open spec fn frame_interval() -> int {
    1000int / (TARGET_FPS as int)
}

/// Milliseconds between two captured frames.
pub fn frame_interval_ms() -> (res: u64)
    ensures
        res == frame_interval(),
{
    1000 / (TARGET_FPS as u64)
}

/// How long a capture or serving loop sleeps after a round that took
/// `elapsed_ms`: what is left of the frame interval, or nothing.
pub fn pacing_sleep_ms(elapsed_ms: u64) -> (res: u64)
    ensures
        elapsed_ms < frame_interval() ==> res == frame_interval() - elapsed_ms,
        elapsed_ms >= frame_interval() ==> res == 0,
{
    let interval = frame_interval_ms();
    if elapsed_ms < interval {
        interval - elapsed_ms
    } else {
        0
    }
}

/// The RGB bytes of the whole RGBA pixels of `rgba`: each pixel's alpha
/// byte is dropped.
pub open spec fn rgb_of(rgba: Seq<u8>) -> Seq<u8> {
    Seq::new(((rgba.len() / 4) * 3) as nat, |i: int| rgba[(i / 3) * 4 + i % 3])
}

/// Dropping the alpha channel keeps, for every whole pixel, its red, green
/// and blue bytes in place: pixel `p`'s bytes `4p`, `4p + 1`, `4p + 2`
/// become bytes `3p`, `3p + 1`, `3p + 2`; a trailing partial pixel is
/// dropped.
pub proof fn law_rgb_keeps_color_bytes(rgba: Seq<u8>, p: int, k: int)
    requires
        0 <= p < rgba.len() / 4,
        0 <= k < 3,
    ensures
        rgb_of(rgba).len() == (rgba.len() / 4) * 3,
        rgb_of(rgba)[3 * p + k] == rgba[4 * p + k],
{
    assert((3 * p + k) / 3 == p && (3 * p + k) % 3 == k) by (nonlinear_arith)
        requires
            0 <= k < 3,
            0 <= p,
    ;
    assert(3 * p + k < (rgba.len() / 4) * 3) by (nonlinear_arith)
        requires
            0 <= k < 3,
            0 <= p < rgba.len() / 4,
    ;
}

/// Drops the alpha channel of RGBA pixels, which JPEG cannot carry.
pub fn rgba_to_rgb(rgba: &[u8]) -> (res: Vec<u8>)
    ensures
        res@ == rgb_of(rgba@),
{
    let pixels = rgba.len() / 4;
    let mut res: Vec<u8> = Vec::new();
    let mut p: usize = 0;
    while p < pixels
        invariant
            pixels == rgba@.len() / 4,
            p <= pixels,
            res@.len() == p * 3,
            forall|i: int| 0 <= i < p * 3 ==> #[trigger] res@[i] == rgba@[(i / 3) * 4 + i % 3],
        decreases pixels - p,
    {
        let len = rgba.len();
        assert(p * 4 + 3 < len) by (nonlinear_arith)
            requires
                p < pixels,
                pixels == len / 4,
        ;
        let base = p * 4;
        res.push(rgba[base]);
        res.push(rgba[base + 1]);
        res.push(rgba[base + 2]);
        proof {
            assert forall|i: int| 0 <= i < (p + 1) * 3 implies #[trigger] res@[i] == rgba@[(i / 3) * 4
                + i % 3] by {
                if i >= p * 3 {
                    let k = i - p * 3;
                    assert(0 <= k < 3);
                    assert(i / 3 == p && i % 3 == k) by (nonlinear_arith)
                        requires
                            i == p * 3 + k,
                            0 <= k < 3,
                    ;
                }
            }
        }
        p = p + 1;
    }
    assert(res@ =~= rgb_of(rgba@));
    res
}

/// The JPEG, at [`JPEG_QUALITY`], of a captured RGBA image (its alpha
/// dropped), or `None` where the encoder refuses it.
pub fn encode_frame(width: u32, height: u32, rgba: &[u8]) -> (res: Option<Vec<u8>>)
    ensures
        jpeg_encoding(width, height, rgb_of(rgba@), JPEG_QUALITY) == match res {
            Some(b) => Some(b@),
            None => None::<Seq<u8>>,
        },
        (width == 0 || height == 0 || width > 65535 || height > 65535 || rgba@.len() < (width as int)
            * (height as int) * 4) ==> res is None,
{
    let rgb = rgba_to_rgb(rgba);
    proof {
        let n = rgba@.len() as int;
        let px = (width as int) * (height as int);
        if n < px * 4 {
            assert((n / 4) * 3 < px * 3) by (nonlinear_arith)
                requires
                    0 <= n < px * 4,
            ;
        }
    }
    encode_jpeg(width, height, rgb.as_slice(), JPEG_QUALITY)
}

/// The most recently encoded frame of a sharer, which every viewer is sent.
pub struct LatestFrame {
    frame: Option<Vec<u8>>,
}

impl View for LatestFrame {
    type V = Option<Seq<u8>>;

    closed spec fn view(&self) -> Option<Seq<u8>> {
        match self.frame {
            Some(f) => Some(f@),
            None => None,
        }
    }
}

impl LatestFrame {
    /// No frame yet.
    pub fn new() -> (res: LatestFrame)
        ensures
            res@ is None,
    {
        LatestFrame { frame: None }
    }

    /// Keeps the result of an encoding: a frame replaces the previous one, a
    /// failed encoding leaves it.
    pub fn store(&mut self, encoded: Option<Vec<u8>>)
        ensures
            final(self)@ == match encoded {
                Some(b) => Some(b@),
                None => old(self)@,
            },
    {
        if let Some(b) = encoded {
            self.frame = Some(b);
        }
    }

    /// Encodes a captured image and keeps it if the encoder accepts it.
    pub fn capture(&mut self, width: u32, height: u32, rgba: &[u8])
        ensures
            final(self)@ == match jpeg_encoding(width, height, rgb_of(rgba@), JPEG_QUALITY) {
                Some(b) => Some(b),
                None => old(self)@,
            },
    {
        let encoded = encode_frame(width, height, rgba);
        self.store(encoded);
    }

    /// The frame to send to a viewer now, if any.
    pub fn current(&self) -> (res: Option<Vec<u8>>)
        ensures
            match res {
                Some(b) => self@ == Some(b@),
                None => self@ is None,
            },
    {
        match &self.frame {
            Some(f) => Some(f.clone()),
            None => None,
        }
    }
}

} // verus!
