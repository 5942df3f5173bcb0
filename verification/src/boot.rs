//! The boot screen's timeline: which scene shows at a given tick, where the
//! scattered and scrolling texts go, and the closing sequence. Colours and
//! fades are left to the drawing code.
use vstd::prelude::*;
use vstd::string::*;

use crate::text::{owned, substring};

verus! {

/// Ticks in one cycle of the boot screen.
pub const CYCLE_LEN: u64 = 700;

/// What shows in the middle of an intermission.
#[derive(Clone, Copy, Debug, PartialEq, Eq, Structural)]
pub enum Caption {
    Nothing,
    PresentDay,
    PresentTime,
    Laughter,
}

/// The scene of the boot screen at a tick.
#[derive(Clone, Copy, Debug, PartialEq, Eq, Structural)]
pub enum Scene {
    /// A pause between cycles, on a red screen from the fourth on.
    Intermission { red: bool, caption: Caption },
    /// The game of life behind the logo.
    Life,
    /// Laughter scattered over the screen.
    Scatter,
    /// A text scrolling diagonally.
    Scroll,
    /// A blank screen.
    Blank,
}

/// The scene at tick `tick`: the last 200 ticks of each of the first four
/// cycles are an intermission; otherwise the cycle decides the background.
pub open spec fn scene_at(tick: nat) -> Scene {
    let idx = tick / 700;
    let pos = tick % 700;
    if pos >= 500 && idx < 4 {
        Scene::Intermission {
            red: idx >= 3,
            caption: if 520 <= pos < 560 {
                Caption::PresentDay
            } else if 580 <= pos < 620 {
                Caption::PresentTime
            } else if 640 <= pos < 690 {
                Caption::Laughter
            } else {
                Caption::Nothing
            },
        }
    } else if idx < 3 {
        Scene::Life
    } else if idx == 3 {
        Scene::Scatter
    } else if idx == 4 {
        Scene::Scroll
    } else {
        Scene::Blank
    }
}

/// The scene at tick `tick` (see [`scene_at`]).
pub fn scene(tick: u64) -> (r: Scene)
    ensures
        r == scene_at(tick as nat),
{
    let idx = tick / CYCLE_LEN;
    let pos = tick % CYCLE_LEN;
    if pos >= 500 && idx < 4 {
        let caption = if 520 <= pos && pos < 560 {
            Caption::PresentDay
        } else if 580 <= pos && pos < 620 {
            Caption::PresentTime
        } else if 640 <= pos && pos < 690 {
            Caption::Laughter
        } else {
            Caption::Nothing
        };
        Scene::Intermission { red: idx >= 3, caption }
    } else if idx < 3 {
        Scene::Life
    } else if idx == 3 {
        Scene::Scatter
    } else if idx == 4 {
        Scene::Scroll
    } else {
        Scene::Blank
    }
}

/// The text of a caption.
pub fn caption_text(c: Caption) -> (r: &'static str)
    ensures
        r@ == match c {
            Caption::Nothing => ""@,
            Caption::PresentDay => "PRESENT DAY"@,
            Caption::PresentTime => "PRESENT TIME"@,
            Caption::Laughter => "HAHAHAHAHA"@,
        },
{
    match c {
        Caption::Nothing => "",
        Caption::PresentDay => "PRESENT DAY",
        Caption::PresentTime => "PRESENT TIME",
        Caption::Laughter => "HAHAHAHAHA",
    }
}

/// Where a caption of `len` characters goes on a screen of `width` by
/// `height`: centred, the laughter shaken by one cell with the tick. `None`
/// where it would start off the screen.
pub open spec fn caption_spot(width: int, height: int, len: int, laughter: bool, tick: nat) -> Option<(int, int)> {
    let x = (if width >= len { width - len } else { 0 }) / 2;
    let y = height / 2;
    if laughter {
        let shake = (tick % 3) as int - 1;
        if x + shake >= 0 && y + shake >= 0 {
            Some((x + shake, y + shake))
        } else {
            None
        }
    } else if x < width && y < height {
        Some((x, y))
    } else {
        None
    }
}

/// Where a caption goes (see [`caption_spot`]).
pub fn caption_position(width: u16, height: u16, len: u16, laughter: bool, tick: u64) -> (r: Option<(u16, u16)>)
    ensures
        match r {
            Some((x, y)) => caption_spot(width as int, height as int, len as int, laughter, tick as nat) == Some((x as int, y as int)),
            None => caption_spot(width as int, height as int, len as int, laughter, tick as nat) is None,
        },
{
    let x = width.saturating_sub(len) / 2;
    let y = height / 2;
    if laughter {
        let k = tick % 3;
        if k == 0 {
            if x >= 1 && y >= 1 {
                Some((x - 1, y - 1))
            } else {
                None
            }
        } else if k == 1 {
            Some((x, y))
        } else {
            Some((x + 1, y + 1))
        }
    } else if x < width && y < height {
        Some((x, y))
    } else {
        None
    }
}

/// The seed of the `i`-th scattered copy at tick `tick`: their sum in
/// unsigned 64-bit arithmetic, wrapping around.
pub open spec fn scatter_seed(tick: u64, i: u64) -> int {
    if tick + i * 99991 > u64::MAX {
        tick + i * 99991 - 0x1_0000_0000_0000_0000
    } else {
        tick + i * 99991
    }
}

/// The `i`-th scattered copy of the laughter (`HAHAHAHAHA`, 10 characters) on
/// a screen of `width` by `height` at tick `tick`: its position, and whether
/// it is bold and red. The seed wraps around like an unsigned 64-bit number.
pub fn scatter_spot(tick: u64, i: u64, width: u16, height: u16) -> (r: (u16, u16, bool, bool))
    requires
        i < 60,
        height > 0,
    ensures
        ({
            let seed = scatter_seed(tick, i);
            let span = if width >= 10 && width - 10 >= 1 { width - 10 } else { 1 };
            &&& r.0 as int == seed % span
            &&& r.1 as int == (seed / 100) % (height as int)
            &&& r.2 == (seed % 2 == 0)
            &&& r.3 == (seed % 3 == 0)
        }),
{
    let seed = tick.wrapping_add(i * 99991);
    let w = width as u64;
    let span = if w >= 10 && w - 10 >= 1 { w - 10 } else { 1 };
    let rx = seed % span;
    let ry = (seed / 100) % (height as u64);
    assert(rx < span && span <= 65535);
    assert(ry < height);
    (rx as u16, ry as u16, seed % 2 == 0, seed % 3 == 0)
}

/// The text that scrolls over the screen in the fifth cycle, with its gap.
pub open spec fn scroll_pattern() -> Seq<char> {
    "LETS ALL LOVE LAIN   "@
}

/// The character of the scrolling text at cell (`x`, `y`) at tick `tick`.
pub fn scroll_glyph(x: u16, y: u16, tick: u64) -> (r: char)
    ensures
        r == scroll_pattern()[((x as int + y as int + (tick / 2) as int) % 21)],
{
    proof {
        reveal_strlit("LETS ALL LOVE LAIN   ");
    }
    let pattern = "LETS ALL LOVE LAIN   ";
    let k = (x as u64 + y as u64 + tick / 2) % 21;
    pattern.get_char(k as usize)
}

/// The credits, misspelt for a moment every two hundred ticks.
pub fn credits(tick: u64) -> (r: &'static str)
    ensures
        r@ == if (tick / 20) % 10 == 0 { "prodact by @cafkafk"@ } else { "product by @cafkafk"@ },
{
    if (tick / 20) % 10 == 0 {
        "prodact by @cafkafk"
    } else {
        "product by @cafkafk"
    }
}

/// The prompt blinks: shown for the first half of every sixty ticks.
pub fn prompt_shown(tick: u64) -> (r: bool)
    ensures
        r == (tick % 60 < 30),
{
    tick % 60 < 30
}

/// The tick of the closing sequence at tick `tick`: it starts 1800 ticks into
/// the sixth cycle.
pub fn closing_tick(tick: u64) -> (r: Option<u64>)
    ensures
        r == (if tick >= 5 * 700 + 1800 { Some((tick - (5 * 700 + 1800)) as u64) } else { None::<u64> }),
{
    if tick >= 5 * CYCLE_LEN + 1800 {
        Some(tick - (5 * CYCLE_LEN + 1800))
    } else {
        None
    }
}

/// Whether a floating text spawned at `spawn_tick` for `lifetime` ticks is
/// still alive at tick `tick`.
pub fn phantom_alive(tick: u64, spawn_tick: u64, lifetime: u64) -> (r: bool)
    ensures
        r == ((if tick >= spawn_tick { tick - spawn_tick } else { 0 }) < lifetime),
{
    tick.saturating_sub(spawn_tick) < lifetime
}

/// How many characters of `target` have been typed at tick `t` when the
/// next one appears at `at`: a character takes one tick, a space nine.
pub open spec fn typed_count(target: Seq<char>, t: int, at: int) -> nat
    decreases target.len(),
{
    if target.len() == 0 {
        0
    } else {
        (if t >= at { 1nat } else { 0nat }) + typed_count(
            target.drop_first(),
            t,
            at + if target[0] == ' ' { 9int } else { 1int },
        )
    }
}

/// A piece of the closing sequence: where it is written, the text, and
/// whether it is white (else in the plain style).
pub type Stroke = (u16, u16, String, bool);

/// The view of a stroke.
pub open spec fn stroke_view(s: Stroke) -> (int, int, Seq<char>, bool) {
    (s.0 as int, s.1 as int, s.2@, s.3)
}

/// The text of the second line after the reversed words have been typed.
pub open spec fn reversed_line(t: int) -> Seq<char> {
    "          ..."@ + "txEn eht nepO"@.subrange(0, typed_count("txEn eht nepO"@, t, 110) as int)
}

/// The closing sequence at its tick `t` on a screen of `width` by `height`:
/// `Close the world...` typed on one line, then `...Open the Next` typed
/// below, erased, and typed back reversed with a blinking cursor; nothing
/// from tick 454 on.
pub open spec fn closing_strokes(width: int, height: int, t: int) -> Seq<(int, int, Seq<char>, bool)> {
    let x = (if width >= 30 { width - 30 } else { 0 }) / 2;
    let y1 = if height / 2 >= 1 { height / 2 - 1 } else { 0 };
    let y2 = height / 2;
    if t < 454 && y1 < height && y2 < height {
        let first = if t > 0 {
            seq![(x, y1, "Close"@, true)] + (if t >= 9 { seq![(x + 5, y1, " the"@, true)] } else { Seq::empty() }) + (if t
                >= 18 {
                seq![(x + 9, y1, " world..."@, true)]
            } else {
                Seq::empty()
            })
        } else {
            Seq::empty()
        };
        let second = if t >= 110 {
            let full = reversed_line(t);
            seq![(x, y2, full, true)] + if t >= 154 && (t / 30) % 2 == 0 {
                seq![(x + full.len(), y2, "█"@, true)]
            } else {
                Seq::empty()
            }
        } else if t >= 84 {
            let d = if (t - 84) / 2 < 13 { (t - 84) / 2 } else { 13 };
            seq![(x, y2, "          ...Open the Next"@.subrange(0, 26 - d), true)]
        } else if t >= 36 {
            seq![(x, y2, "          "@, false), (x + 10, y2, "...Open"@, true)] + (if t >= 45 {
                seq![(x + 17, y2, " the"@, true)]
            } else {
                Seq::empty()
            }) + (if t >= 54 {
                seq![(x + 21, y2, " Next"@, true)]
            } else {
                Seq::empty()
            })
        } else {
            Seq::empty()
        };
        first + second
    } else {
        Seq::empty()
    }
}

/// Appends a stroke.
fn push_stroke(v: &mut Vec<Stroke>, x: u16, y: u16, text: String, white: bool)
    ensures
        final(v)@.map_values(|s: Stroke| stroke_view(s)) == old(v)@.map_values(|s: Stroke| stroke_view(s)).push(
            (x as int, y as int, text@, white),
        ),
{
    let ghost before = v@.map_values(|s: Stroke| stroke_view(s));
    let ghost tv = text@;
    v.push((x, y, text, white));
    assert(v@.map_values(|s: Stroke| stroke_view(s)) =~= before.push((x as int, y as int, tv, white)));
}

/// The number of characters of the reversed words typed at tick `t`.
fn typed_reversed(t: u64) -> (r: usize)
    ensures
        r == typed_count("txEn eht nepO"@, t as int, 110),
        r <= 13,
{
    proof {
        reveal_strlit("txEn eht nepO");
    }
    let target = "txEn eht nepO";
    let n = target.unicode_len();
    let mut at: u64 = 110;
    let mut count: usize = 0;
    let mut i: usize = 0;
    assert(target@.subrange(0, n as int) =~= target@);
    while i < n
        invariant
            n == target@.len(),
            n == 13,
            i <= n,
            target@ == "txEn eht nepO"@,
            count <= i,
            at <= 110 + 9 * i,
            typed_count("txEn eht nepO"@, t as int, 110) == count + typed_count(target@.subrange(i as int, n as int), t as int, at as int),
        decreases n - i,
    {
        let ghost rest = target@.subrange(i as int, n as int);
        assert(rest.drop_first() =~= target@.subrange(i + 1, n as int));
        let c = target.get_char(i);
        if t >= at {
            count = count + 1;
        }
        at = if c == ' ' { at + 9 } else { at + 1 };
        i = i + 1;
    }
    assert(target@.subrange(n as int, n as int) =~= Seq::<char>::empty());
    count
}

/// The strokes of the closing sequence (see [`closing_strokes`]).
pub fn closing_sequence(width: u16, height: u16, t: u64) -> (r: Vec<Stroke>)
    ensures
        r@.map_values(|s: Stroke| stroke_view(s)) == closing_strokes(width as int, height as int, t as int),
{
    proof {
        reveal_strlit("          ...Open the Next");
        reveal_strlit("          ...");
        reveal_strlit("txEn eht nepO");
    }
    let mut out: Vec<Stroke> = Vec::new();
    let x = width.saturating_sub(30) / 2;
    let y1 = (height / 2).saturating_sub(1);
    let y2 = height / 2;
    if !(t < 454 && y1 < height && y2 < height) {
        assert(out@.map_values(|s: Stroke| stroke_view(s)) =~= closing_strokes(width as int, height as int, t as int));
        return out;
    }
    if t > 0 {
        push_stroke(&mut out, x, y1, owned("Close"), true);
        if t >= 9 {
            push_stroke(&mut out, x + 5, y1, owned(" the"), true);
        }
        if t >= 18 {
            push_stroke(&mut out, x + 9, y1, owned(" world..."), true);
        }
    }
    let ghost first = out@.map_values(|s: Stroke| stroke_view(s));
    if t >= 110 {
        let k = typed_reversed(t);
        let shown = substring("txEn eht nepO", 0, k);
        let mut full = owned("          ...");
        full.append(shown.as_str());
        let len = full.unicode_len();
        assert(full@ == reversed_line(t as int));
        assert(len == 13 + k);
        push_stroke(&mut out, x, y2, full, true);
        if t >= 154 && (t / 30) % 2 == 0 {
            push_stroke(&mut out, x + len as u16, y2, owned("█"), true);
        }
    } else if t >= 84 {
        let d = if (t - 84) / 2 < 13 { (t - 84) / 2 } else { 13 };
        push_stroke(&mut out, x, y2, substring("          ...Open the Next", 0, 26 - d as usize), true);
    } else if t >= 36 {
        push_stroke(&mut out, x, y2, owned("          "), false);
        push_stroke(&mut out, x + 10, y2, owned("...Open"), true);
        if t >= 45 {
            push_stroke(&mut out, x + 17, y2, owned(" the"), true);
        }
        if t >= 54 {
            push_stroke(&mut out, x + 21, y2, owned(" Next"), true);
        }
    }
    assert(out@.map_values(|s: Stroke| stroke_view(s)) =~= closing_strokes(width as int, height as int, t as int));
    out
}

} // verus!
