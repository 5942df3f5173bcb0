//! How keys change the dashboard: the exit prompt, the log popups and their
//! input line, the yank chord, the menu, scrolling and the cursor.
use vstd::prelude::*;
use vstd::string::*;

use crate::model::{AppMode, DeploySettings, LocalAction, LocalActionView, MenuAction, MenuActionView, MenuId, MenuItem, MenuState, SettingId, item_views};
use crate::nix::{views, NodeName, NodeState};
use crate::tree::names;
use crate::text::{owned, str_eq, substring};

verus! {

/// A key as the dashboard reads it.
#[derive(Clone, Copy, Debug, PartialEq, Eq, Structural)]
pub enum Key {
    Char(char),
    Enter,
    Esc,
    Tab,
    Backspace,
    Left,
    Right,
    Up,
    Down,
    PageUp,
    PageDown,
    Home,
    End,
    Other,
}

/// The prompt that confirms leaving the dashboard.
#[derive(Clone, Copy, Debug, PartialEq, Eq, Structural)]
pub struct ExitPrompt {
    pub show: bool,
    /// `true` when "Yes" is highlighted.
    pub selection: bool,
    pub should_quit: bool,
}

/// A key pressed while the exit prompt is shown: Esc, `q` or `n` dismiss it,
/// the arrows, `h`, `l` and Tab move the highlight, Enter takes the highlighted
/// answer and `y` quits.
pub fn exit_prompt_key(p: ExitPrompt, key: Key) -> (r: ExitPrompt)
    ensures
        r == (match key {
            Key::Esc | Key::Char('q') | Key::Char('n') => ExitPrompt { show: false, ..p },
            Key::Left | Key::Char('h') | Key::Right | Key::Char('l') | Key::Tab => ExitPrompt { selection: !p.selection, ..p },
            Key::Enter => if p.selection {
                ExitPrompt { should_quit: true, ..p }
            } else {
                ExitPrompt { show: false, ..p }
            },
            Key::Char('y') => ExitPrompt { should_quit: true, ..p },
            _ => p,
        }),
{
    match key {
        Key::Esc | Key::Char('q') | Key::Char('n') => ExitPrompt { show: false, ..p },
        Key::Left | Key::Char('h') | Key::Right | Key::Char('l') | Key::Tab => ExitPrompt { selection: !p.selection, ..p },
        Key::Enter => if p.selection {
            ExitPrompt { should_quit: true, ..p }
        } else {
            ExitPrompt { show: false, ..p }
        },
        Key::Char('y') => ExitPrompt { should_quit: true, ..p },
        _ => p,
    }
}

/// The log levels in the order the level popup lists them.
pub open spec fn level_name(i: int) -> Seq<char> {
    if i == 0 {
        "ERROR"@
    } else if i == 1 {
        "WARN"@
    } else if i == 2 {
        "INFO"@
    } else {
        "DEBUG"@
    }
}

/// The name of level `i` of the popup.
pub fn level_str(i: usize) -> (r: &'static str)
    requires
        i < 4,
    ensures
        r@ == level_name(i as int),
{
    if i == 0 {
        "ERROR"
    } else if i == 1 {
        "WARN"
    } else if i == 2 {
        "INFO"
    } else {
        "DEBUG"
    }
}

/// No string occurs twice in `s`.
pub open spec fn no_repeats(s: Seq<Seq<char>>) -> bool {
    forall|i: int, j: int| 0 <= i < j < s.len() ==> s[i] != s[j]
}

/// The state of the log level popup.
#[derive(Debug)]
pub struct LevelPopup {
    pub open: bool,
    /// The highlighted level, below 4.
    pub idx: usize,
    /// The levels shown, each once.
    pub levels: Vec<String>,
}

/// `x` is among the first `n` strings of `s`.
pub open spec fn among(s: Seq<Seq<char>>, n: int, x: Seq<char>) -> bool {
    exists|k: int| 0 <= k < n && #[trigger] s[k] == x
}

/// Removes every copy of `v` from `levels`.
fn remove_level(levels: &mut Vec<String>, v: &str)
    requires
        no_repeats(views(old(levels)@)),
    ensures
        no_repeats(views(final(levels)@)),
        views(final(levels)@).to_set() == views(old(levels)@).to_set().remove(v@),
{
    let ghost start = views(levels@);
    let mut kept: Vec<String> = Vec::new();
    let mut i: usize = 0;
    while i < levels.len()
        invariant
            i <= levels@.len(),
            start == views(levels@),
            no_repeats(start),
            no_repeats(views(kept@)),
            forall|x: Seq<char>| #[trigger] views(kept@).contains(x) <==> (x != v@ && among(start, i as int, x)),
        decreases levels@.len() - i,
    {
        let ghost before = views(kept@);
        assert(start[i as int] == levels@[i as int]@);
        if !str_eq(levels[i].as_str(), v) {
            kept.push(owned(levels[i].as_str()));
            assert(views(kept@) =~= before.push(start[i as int]));
            assert forall|a: int, b: int| 0 <= a < b < views(kept@).len() implies views(kept@)[a] != views(kept@)[b] by {
                if b == before.len() {
                    assert(before[a] == views(kept@)[a]);
                    assert(before.contains(views(kept@)[a]));
                    let k = choose|k: int| 0 <= k < i && #[trigger] start[k] == views(kept@)[a];
                    assert(start[k] != start[i as int]);
                }
            }
        }
        assert forall|x: Seq<char>| #[trigger] views(kept@).contains(x) <==> (x != v@ && among(start, i + 1, x)) by {
            if among(start, i + 1, x) {
                let k = choose|k: int| 0 <= k < i + 1 && #[trigger] start[k] == x;
                if k < i {
                    assert(among(start, i as int, x));
                }
            }
            if among(start, i as int, x) {
                let k = choose|k: int| 0 <= k < i && #[trigger] start[k] == x;
                assert(among(start, i + 1, x));
            }
            if x == start[i as int] {
                assert(among(start, i + 1, x));
                if x != v@ {
                    assert(views(kept@)[views(kept@).len() - 1] == x);
                }
            }
            if views(kept@).contains(x) && !before.contains(x) {
                let a = choose|a: int| 0 <= a < views(kept@).len() && views(kept@)[a] == x;
                assert(a == before.len());
            }
            if before.contains(x) {
                let a = choose|a: int| 0 <= a < before.len() && before[a] == x;
                assert(views(kept@)[a] == x);
            }
        }
        i = i + 1;
    }
    assert forall|x: Seq<char>| #[trigger] views(kept@).to_set().contains(x) <==> start.to_set().remove(v@).contains(x) by {
        if start.contains(x) {
            let k = choose|k: int| 0 <= k < start.len() && start[k] == x;
            assert(among(start, i as int, x));
        }
        if among(start, i as int, x) {
            let k = choose|k: int| 0 <= k < i && #[trigger] start[k] == x;
            assert(start.contains(x));
        }
    }
    *levels = kept;
    assert(views(levels@).to_set() =~= start.to_set().remove(v@));
}

/// A key pressed while the log level popup is open: Esc, `q` or `E` close it,
/// Down and `j` or Up and `k` move the highlight round the four levels, Enter
/// and space show or hide the highlighted level.
pub fn level_popup_key(p: &mut LevelPopup, key: Key)
    requires
        old(p).idx < 4,
        no_repeats(views(old(p).levels@)),
    ensures
        final(p).idx < 4,
        no_repeats(views(final(p).levels@)),
        match key {
            Key::Esc | Key::Char('q') | Key::Char('E') => !final(p).open && final(p).idx == old(p).idx
                && final(p).levels@ == old(p).levels@,
            Key::Down | Key::Char('j') => final(p).open == old(p).open && final(p).idx == (old(p).idx + 1) % 4
                && final(p).levels@ == old(p).levels@,
            Key::Up | Key::Char('k') => final(p).open == old(p).open && final(p).idx == (if old(p).idx == 0 {
                3
            } else {
                old(p).idx - 1
            }) && final(p).levels@ == old(p).levels@,
            Key::Enter | Key::Char(' ') => final(p).open == old(p).open && final(p).idx == old(p).idx
                && views(final(p).levels@).to_set() == (if views(old(p).levels@).contains(level_name(old(p).idx as int)) {
                views(old(p).levels@).to_set().remove(level_name(old(p).idx as int))
            } else {
                views(old(p).levels@).to_set().insert(level_name(old(p).idx as int))
            }),
            _ => final(p).open == old(p).open && final(p).idx == old(p).idx && final(p).levels@ == old(p).levels@,
        },
{
    match key {
        Key::Esc | Key::Char('q') | Key::Char('E') => {
            p.open = false;
        },
        Key::Down | Key::Char('j') => {
            p.idx = (p.idx + 1) % 4;
        },
        Key::Up | Key::Char('k') => {
            if p.idx == 0 {
                p.idx = 3;
            } else {
                p.idx = p.idx - 1;
            }
        },
        Key::Enter | Key::Char(' ') => {
            let l = level_str(p.idx);
            let ghost lv = views(p.levels@);
            let mut present = false;
            let mut i: usize = 0;
            while i < p.levels.len()
                invariant
                    i <= p.levels@.len(),
                    lv == views(p.levels@),
                    present == among(lv, i as int, l@),
                decreases p.levels@.len() - i,
            {
                assert(lv[i as int] == p.levels@[i as int]@);
                if str_eq(p.levels[i].as_str(), l) {
                    present = true;
                    assert(among(lv, i + 1, l@));
                } else {
                    assert(among(lv, i + 1, l@) ==> among(lv, i as int, l@)) by {
                        if among(lv, i + 1, l@) {
                            let k = choose|k: int| 0 <= k < i + 1 && #[trigger] lv[k] == l@;
                            assert(k < i);
                        }
                    }
                    assert(among(lv, i as int, l@) ==> among(lv, i + 1, l@)) by {
                        if among(lv, i as int, l@) {
                            let k = choose|k: int| 0 <= k < i && #[trigger] lv[k] == l@;
                        }
                    }
                }
                i = i + 1;
            }
            assert(present == lv.contains(l@)) by {
                if present {
                    let k = choose|k: int| 0 <= k < i && #[trigger] lv[k] == l@;
                }
                if lv.contains(l@) {
                    let k = choose|k: int| 0 <= k < lv.len() && lv[k] == l@;
                    assert(among(lv, i as int, l@));
                }
            }
            if present {
                remove_level(&mut p.levels, l);
            } else {
                let ghost before = views(p.levels@);
                p.levels.push(owned(l));
                assert(views(p.levels@) =~= before.push(l@));
                assert forall|x: Seq<char>| #[trigger] views(p.levels@).to_set().contains(x) <==> before.to_set().insert(l@).contains(x) by {
                    if views(p.levels@).contains(x) {
                        let k = choose|k: int| 0 <= k < views(p.levels@).len() && views(p.levels@)[k] == x;
                        if k < before.len() {
                            assert(before[k] == x);
                        }
                    }
                    if before.contains(x) {
                        let k = choose|k: int| 0 <= k < before.len() && before[k] == x;
                        assert(views(p.levels@)[k] == x);
                    }
                    if x == l@ {
                        assert(views(p.levels@)[before.len() as int] == x);
                    }
                }
                assert(views(p.levels@).to_set() =~= before.to_set().insert(l@));
                assert forall|a: int, b: int| 0 <= a < b < views(p.levels@).len() implies views(p.levels@)[a] != views(p.levels@)[b] by {
                    if b == before.len() {
                        assert(before[a] == views(p.levels@)[a]);
                        assert(before.contains(before[a]));
                    }
                }
            }
        },
        _ => {},
    }
}

/// Appends `c` to `s` (`String::push`).
#[verifier::external_body]
pub(crate) fn push_char(s: &mut String, c: char)
    ensures
        final(s)@ == old(s)@.push(c),
{
    s.push(c);
}

/// The search and filter line of the log view.
#[derive(Debug)]
pub struct LogInput {
    pub search_active: bool,
    pub filter_active: bool,
    pub buffer: String,
    pub search_query: Option<String>,
    pub filter_query: Option<String>,
    pub stick_to_bottom: bool,
    pub scroll_offset: usize,
}

/// A key typed into the search or filter line: Esc abandons it, Enter makes
/// what was typed the search (or filter) query, none when nothing was typed;
/// a new filter brings the view back to the newest line. Backspace removes the
/// last character and a character is appended.
pub fn log_input_key(st: &mut LogInput, key: Key)
    ensures
        match key {
            Key::Esc => {
                &&& !final(st).search_active
                &&& !final(st).filter_active
                &&& final(st).buffer@.len() == 0
                &&& final(st).search_query == old(st).search_query
                &&& final(st).filter_query == old(st).filter_query
                &&& final(st).stick_to_bottom == old(st).stick_to_bottom
                &&& final(st).scroll_offset == old(st).scroll_offset
            },
            Key::Enter => final(st).buffer@.len() == 0 && if old(st).search_active {
                &&& !final(st).search_active
                &&& final(st).filter_active == old(st).filter_active
                &&& crate::nix::opt_view(final(st).search_query) == (if old(st).buffer@.len() > 0 {
                    Some(old(st).buffer@)
                } else {
                    None
                })
                &&& final(st).filter_query == old(st).filter_query
                &&& final(st).stick_to_bottom == old(st).stick_to_bottom
                &&& final(st).scroll_offset == old(st).scroll_offset
            } else {
                &&& !final(st).filter_active
                &&& final(st).search_active == old(st).search_active
                &&& final(st).search_query == old(st).search_query
                &&& crate::nix::opt_view(final(st).filter_query) == (if old(st).buffer@.len() > 0 {
                    Some(old(st).buffer@)
                } else {
                    None
                })
                &&& final(st).stick_to_bottom == (old(st).buffer@.len() > 0 || old(st).stick_to_bottom)
                &&& final(st).scroll_offset == (if old(st).buffer@.len() > 0 { 0 } else { old(st).scroll_offset })
            },
            _ => {
                &&& final(st).search_active == old(st).search_active
                &&& final(st).filter_active == old(st).filter_active
                &&& final(st).search_query == old(st).search_query
                &&& final(st).filter_query == old(st).filter_query
                &&& final(st).stick_to_bottom == old(st).stick_to_bottom
                &&& final(st).scroll_offset == old(st).scroll_offset
                &&& final(st).buffer@ == match key {
                    Key::Backspace => if old(st).buffer@.len() > 0 {
                        old(st).buffer@.drop_last()
                    } else {
                        old(st).buffer@
                    },
                    Key::Char(c) => old(st).buffer@.push(c),
                    _ => old(st).buffer@,
                }
            },
        },
{
    match key {
        Key::Esc => {
            st.search_active = false;
            st.filter_active = false;
            let empty = String::new();
            assert(empty@.len() == 0);
            st.buffer = empty;
        },
        Key::Enter => {
            let typed = st.buffer.as_str().unicode_len() > 0;
            if st.search_active {
                if typed {
                    st.search_query = Some(owned(st.buffer.as_str()));
                } else {
                    st.search_query = None;
                }
                st.search_active = false;
            } else {
                if typed {
                    st.filter_query = Some(owned(st.buffer.as_str()));
                    st.stick_to_bottom = true;
                    st.scroll_offset = 0;
                } else {
                    st.filter_query = None;
                }
                st.filter_active = false;
            }
            st.buffer = String::new();
        },
        Key::Backspace => {
            let n = st.buffer.as_str().unicode_len();
            if n > 0 {
                let shorter = substring(st.buffer.as_str(), 0, n - 1);
                assert(shorter@ =~= st.buffer@.drop_last());
                st.buffer = shorter;
            }
        },
        Key::Char(c) => {
            push_char(&mut st.buffer, c);
        },
        _ => {},
    }
}

/// What a key pressed in the middle of a yank chord asks for.
#[derive(Clone, Copy, Debug, PartialEq, Eq, Structural)]
pub enum YankOutcome {
    /// Nothing to copy.
    Nothing,
    /// Copy every log line.
    All,
    /// Copy the last so many lines.
    Last(usize),
}

/// `c` is a decimal digit.
pub open spec fn is_digit(c: char) -> bool {
    '0' <= c && c <= '9'
}

/// The number that the digits `s` write.
pub open spec fn digits_value(s: Seq<char>) -> nat
    decreases s.len(),
{
    if s.len() == 0 {
        0
    } else {
        digits_value(s.drop_last()) * 10 + ((s.last() as u32) - ('0' as u32)) as nat
    }
}

/// The count typed in a yank chord: the number its digits write, or 1 when it
/// is empty, holds anything but digits or does not fit in `usize`.
pub open spec fn yank_count(s: Seq<char>) -> nat {
    if s.len() > 0 && (forall|i: int| 0 <= i < s.len() ==> is_digit(#[trigger] s[i])) && digits_value(s) <= usize::MAX {
        digits_value(s)
    } else {
        1
    }
}

/// The value of a digit.
fn digit_value(c: char) -> (d: usize)
    requires
        is_digit(c),
    ensures
        d == (c as u32) - ('0' as u32),
        d < 10,
{
    let d: u32 = (c as u32) - ('0' as u32);
    d as usize
}

proof fn lemma_digits_value_grows(s: Seq<char>, c: char)
    requires
        is_digit(c),
    ensures
        digits_value(s.push(c)) >= digits_value(s),
        digits_value(s.push(c)) == digits_value(s) * 10 + ((c as u32) - ('0' as u32)) as nat,
{
    assert(s.push(c).drop_last() =~= s);
}

proof fn lemma_digits_value_prefix(s: Seq<char>, i: int)
    requires
        0 <= i <= s.len(),
        forall|k: int| 0 <= k < s.len() ==> is_digit(#[trigger] s[k]),
    ensures
        digits_value(s.subrange(0, i)) <= digits_value(s),
    decreases s.len() - i,
{
    if i == s.len() {
        assert(s.subrange(0, i) =~= s);
    } else {
        lemma_digits_value_prefix(s, i + 1);
        assert(s.subrange(0, i + 1) =~= s.subrange(0, i).push(s[i]));
        lemma_digits_value_grows(s.subrange(0, i), s[i]);
    }
}

/// The count typed in a yank chord (see [`yank_count`]).
pub fn parse_count(s: &str) -> (r: usize)
    ensures
        r == yank_count(s@),
{
    let n = s.unicode_len();
    if n == 0 {
        return 1;
    }
    let mut v: usize = 0;
    let mut i: usize = 0;
    while i < n
        invariant
            n == s@.len(),
            i <= n,
            forall|k: int| 0 <= k < i ==> is_digit(#[trigger] s@[k]),
            v == digits_value(s@.subrange(0, i as int)),
        decreases n - i,
    {
        let c = s.get_char(i);
        if !('0' <= c && c <= '9') {
            return 1;
        }
        let d = digit_value(c);
        proof {
            assert(s@.subrange(0, i + 1) =~= s@.subrange(0, i as int).push(c));
            lemma_digits_value_grows(s@.subrange(0, i as int), c);
        }
        if v > (usize::MAX - d) / 10 {
            proof {
                assert(digits_value(s@.subrange(0, i + 1)) > usize::MAX) by (nonlinear_arith)
                    requires
                        v > (usize::MAX - d) / 10,
                        digits_value(s@.subrange(0, i + 1)) == v * 10 + d,
                        d < 10;
                if forall|k: int| 0 <= k < n ==> is_digit(#[trigger] s@[k]) {
                    lemma_digits_value_prefix(s@, i + 1);
                }
            }
            return 1;
        }
        assert(v * 10 + d <= usize::MAX) by (nonlinear_arith)
            requires
                v <= (usize::MAX - d) / 10,
                d < 10;
        v = v * 10 + d;
        i = i + 1;
    }
    assert(s@.subrange(0, n as int) =~= s@);
    v
}

/// A key pressed in the middle of a yank chord, whose count so far is `count`:
/// a digit extends the count and the chord goes on; `G` copies every line and
/// `j` the last [`yank_count`] lines; anything else ends the chord.
pub fn yank_key(count: &mut String, key: Key) -> (r: (YankOutcome, bool))
    ensures
        r.1 == (key matches Key::Char(c) && is_digit(c)),
        r.1 ==> final(count)@ == old(count)@.push(key->Char_0) && r.0 == YankOutcome::Nothing,
        !r.1 ==> final(count)@.len() == 0,
        !r.1 ==> r.0 == match key {
            Key::Char('G') => YankOutcome::All,
            Key::Char('j') => YankOutcome::Last(yank_count(old(count)@) as usize),
            _ => YankOutcome::Nothing,
        },
{
    match key {
        Key::Char(c) => {
            if '0' <= c && c <= '9' {
                push_char(count, c);
                return (YankOutcome::Nothing, true);
            }
            let outcome = if c == 'G' {
                YankOutcome::All
            } else if c == 'j' {
                YankOutcome::Last(parse_count(count.as_str()))
            } else {
                YankOutcome::Nothing
            };
            *count = String::new();
            (outcome, false)
        },
        _ => {
            *count = String::new();
            (YankOutcome::Nothing, false)
        },
    }
}

/// Where the copied last `count` lines of `len` start.
pub fn yank_start(len: usize, count: usize) -> (r: usize)
    ensures
        r == (if count >= len { 0 } else { len - count }),
{
    len.saturating_sub(count)
}

/// Ctrl-p: leaves the menu, or opens the main menu afresh.
pub fn toggle_menu(mode: AppMode, menu: &mut MenuState) -> (r: AppMode)
    ensures
        mode == AppMode::Menu ==> r == AppMode::Normal && *final(menu) == *old(menu),
        mode != AppMode::Menu ==> r == AppMode::Menu && final(menu).active_menu_id == MenuId::Main
            && final(menu).selected_idx == 0 && final(menu).navigation_stack@.len() == 0,
{
    if mode == AppMode::Menu {
        AppMode::Normal
    } else {
        *menu = MenuState::default();
        AppMode::Menu
    }
}

/// What a key pressed in the menu asks of the dashboard.
#[derive(Debug)]
pub enum MenuOutcome {
    /// Nothing beyond the menu's own state.
    Stay,
    /// Leave the menu.
    Close,
    /// Switch a setting.
    Toggle(SettingId),
    /// Leave the menu and act on the chosen nodes.
    Execute(LocalAction),
}

/// Keys that go back to the menu above, or leave the top menu.
pub open spec fn is_back(k: Key) -> bool {
    k == Key::Esc || k == Key::Char('q') || k == Key::Left || k == Key::Char('h')
}

/// Keys that move the highlight down.
pub open spec fn is_down(k: Key) -> bool {
    k == Key::Down || k == Key::Char('j')
}

/// Keys that move the highlight up.
pub open spec fn is_up(k: Key) -> bool {
    k == Key::Up || k == Key::Char('k')
}

/// Keys that choose the highlighted entry.
pub open spec fn is_choose(k: Key) -> bool {
    k == Key::Enter || k == Key::Right || k == Key::Char(' ') || k == Key::Char('l')
}

/// A key pressed in the menu whose entries are `items`: back keys return to the
/// menu above with its highlight, or leave the top menu; Down and Up move the
/// highlight round the entries; choosing an entry opens its submenu, or reports
/// the setting to switch, the action to take or that the menu closes.
pub fn menu_key(menu: &mut MenuState, key: Key, items: &Vec<MenuItem>) -> (r: MenuOutcome)
    requires
        old(menu).selected_idx < usize::MAX,
    ensures
        is_back(key) ==> if old(menu).navigation_stack@.len() > 0 {
            &&& final(menu).navigation_stack@ == old(menu).navigation_stack@.drop_last()
            &&& (final(menu).active_menu_id, final(menu).selected_idx) == old(menu).navigation_stack@.last()
            &&& r is Stay
        } else {
            &&& final(menu).navigation_stack@ == old(menu).navigation_stack@
            &&& final(menu).active_menu_id == old(menu).active_menu_id
            &&& final(menu).selected_idx == old(menu).selected_idx
            &&& r is Close
        },
        is_down(key) ==> final(menu).active_menu_id == old(menu).active_menu_id
            && final(menu).navigation_stack == old(menu).navigation_stack && r is Stay
            && final(menu).selected_idx == (if items@.len() > 0 {
                ((old(menu).selected_idx + 1) % (items@.len() as int)) as usize
            } else {
                old(menu).selected_idx
            }),
        is_up(key) ==> final(menu).active_menu_id == old(menu).active_menu_id
            && final(menu).navigation_stack == old(menu).navigation_stack && r is Stay
            && final(menu).selected_idx == (if items@.len() == 0 {
                old(menu).selected_idx
            } else if old(menu).selected_idx == 0 {
                (items@.len() - 1) as usize
            } else {
                (old(menu).selected_idx - 1) as usize
            }),
        is_choose(key) ==> if old(menu).selected_idx < items@.len() {
            match items@[old(menu).selected_idx as int].action@ {
                MenuActionView::Navigate(t) => {
                    &&& final(menu).navigation_stack@ == old(menu).navigation_stack@.push(
                        (old(menu).active_menu_id, old(menu).selected_idx),
                    )
                    &&& final(menu).active_menu_id == t
                    &&& final(menu).selected_idx == 0
                    &&& r is Stay
                },
                MenuActionView::Toggle(id) => *final(menu) == *old(menu) && (r matches MenuOutcome::Toggle(t) && t == id),
                MenuActionView::Execute(a) => *final(menu) == *old(menu) && (r matches MenuOutcome::Execute(b) && b@ == a),
                MenuActionView::Close => *final(menu) == *old(menu) && r is Close,
            }
        } else {
            *final(menu) == *old(menu) && r is Stay
        },
        !is_back(key) && !is_down(key) && !is_up(key) && !is_choose(key) ==> *final(menu) == *old(menu) && r is Stay,
{
    match key {
        Key::Esc | Key::Char('q') | Key::Left | Key::Char('h') => {
            match menu.navigation_stack.pop() {
                Some((parent_id, parent_idx)) => {
                    menu.active_menu_id = parent_id;
                    menu.selected_idx = parent_idx;
                    MenuOutcome::Stay
                },
                None => MenuOutcome::Close,
            }
        },
        Key::Down | Key::Char('j') => {
            if items.len() > 0 {
                menu.selected_idx = (menu.selected_idx + 1) % items.len();
            }
            MenuOutcome::Stay
        },
        Key::Up | Key::Char('k') => {
            if items.len() > 0 {
                if menu.selected_idx == 0 {
                    menu.selected_idx = items.len() - 1;
                } else {
                    menu.selected_idx = menu.selected_idx - 1;
                }
            }
            MenuOutcome::Stay
        },
        Key::Enter | Key::Right | Key::Char(' ') | Key::Char('l') => {
            if menu.selected_idx < items.len() {
                match &items[menu.selected_idx].action {
                    MenuAction::Navigate(target) => {
                        menu.navigation_stack.push((menu.active_menu_id, menu.selected_idx));
                        menu.active_menu_id = *target;
                        menu.selected_idx = 0;
                        MenuOutcome::Stay
                    },
                    MenuAction::Toggle(id) => MenuOutcome::Toggle(*id),
                    MenuAction::Execute(a) => MenuOutcome::Execute(a.duplicate()),
                    MenuAction::Close => MenuOutcome::Close,
                }
            } else {
                MenuOutcome::Stay
            }
        },
        _ => MenuOutcome::Stay,
    }
}

/// Switches setting `id`. Switching the daemon on needs a connected daemon;
/// without one the daemon stays off and the result says so.
pub fn apply_toggle(settings: &mut DeploySettings, use_daemon: &mut bool, daemon_connected: bool, id: SettingId) -> (not_connected: bool)
    ensures
        not_connected == (id == SettingId::UseDaemon && !daemon_connected),
        *final(use_daemon) == (if id == SettingId::UseDaemon {
            daemon_connected && !*old(use_daemon)
        } else {
            *old(use_daemon)
        }),
        *final(settings) == match id {
            SettingId::Reboot => DeploySettings { reboot: !old(settings).reboot, ..*old(settings) },
            SettingId::InstallBootloader => DeploySettings { install_bootloader: !old(settings).install_bootloader, ..*old(settings) },
            SettingId::NoKeys => DeploySettings { no_keys: !old(settings).no_keys, ..*old(settings) },
            SettingId::NoSubstitute => DeploySettings { no_substitute: !old(settings).no_substitute, ..*old(settings) },
            SettingId::NoGzip => DeploySettings { no_gzip: !old(settings).no_gzip, ..*old(settings) },
            SettingId::BuildOnTarget => DeploySettings { build_on_target: !old(settings).build_on_target, ..*old(settings) },
            SettingId::ForceReplaceUnknownProfiles => DeploySettings {
                force_replace_unknown_profiles: !old(settings).force_replace_unknown_profiles,
                ..*old(settings)
            },
            SettingId::KeepResult => DeploySettings { keep_result: !old(settings).keep_result, ..*old(settings) },
            SettingId::UseDaemon => *old(settings),
        },
{
    match id {
        SettingId::Reboot => {
            settings.reboot = !settings.reboot;
        },
        SettingId::InstallBootloader => {
            settings.install_bootloader = !settings.install_bootloader;
        },
        SettingId::NoKeys => {
            settings.no_keys = !settings.no_keys;
        },
        SettingId::NoSubstitute => {
            settings.no_substitute = !settings.no_substitute;
        },
        SettingId::NoGzip => {
            settings.no_gzip = !settings.no_gzip;
        },
        SettingId::BuildOnTarget => {
            settings.build_on_target = !settings.build_on_target;
        },
        SettingId::ForceReplaceUnknownProfiles => {
            settings.force_replace_unknown_profiles = !settings.force_replace_unknown_profiles;
        },
        SettingId::KeepResult => {
            settings.keep_result = !settings.keep_result;
        },
        SettingId::UseDaemon => {
            if daemon_connected {
                *use_daemon = !*use_daemon;
            } else {
                *use_daemon = false;
                return true;
            }
        },
    }
    false
}

/// The scroll positions of the diff and log views. A log offset counts lines
/// up from the newest; `stick_to_bottom` keeps the newest line in view.
#[derive(Clone, Copy, Debug, PartialEq, Eq, Structural)]
pub struct ScrollState {
    pub diff_offset: usize,
    pub log_offset: usize,
    pub stick_to_bottom: bool,
}

/// `a + b`, or the largest `usize` where that does not fit.
pub open spec fn sat_add(a: usize, b: usize) -> usize {
    if a + b > usize::MAX { usize::MAX } else { (a + b) as usize }
}

/// `a - b`, or zero where `b` is larger.
pub open spec fn sat_sub(a: usize, b: usize) -> usize {
    if b > a { 0 } else { (a - b) as usize }
}

/// The log scrolled towards the newest line by `n`, sticking to it on arrival.
pub open spec fn log_down(s: ScrollState, n: usize) -> ScrollState {
    let o = sat_sub(s.log_offset, n);
    ScrollState { log_offset: o, stick_to_bottom: if o == 0 { true } else { s.stick_to_bottom }, ..s }
}

/// The log scrolled back by `n`, no longer sticking to the newest line.
pub open spec fn log_up(s: ScrollState, n: usize) -> ScrollState {
    ScrollState { log_offset: sat_add(s.log_offset, n), stick_to_bottom: false, ..s }
}

/// PageUp, PageDown, Home and End: they scroll the diff in the diff view, the
/// log where it is shown, and Home and End jump to the oldest and newest log
/// line elsewhere. The flag reports Home in the registrant view, which moves its
/// cursor to the top.
pub fn page_key(mode: AppMode, log_shown: bool, s: ScrollState, key: Key) -> (r: (ScrollState, bool))
    ensures
        r.1 == (key == Key::Home && mode == AppMode::Registrants),
        r.0 == match key {
            Key::PageUp => if mode == AppMode::Diff {
                ScrollState { diff_offset: sat_sub(s.diff_offset, 10), ..s }
            } else if mode == AppMode::Logs || log_shown {
                log_up(s, 10)
            } else {
                s
            },
            Key::PageDown => if mode == AppMode::Diff {
                ScrollState { diff_offset: sat_add(s.diff_offset, 10), ..s }
            } else if mode == AppMode::Logs || log_shown {
                log_down(s, 10)
            } else {
                s
            },
            Key::Home => if mode == AppMode::Diff {
                ScrollState { diff_offset: 0, ..s }
            } else if mode == AppMode::Registrants {
                s
            } else {
                ScrollState { log_offset: usize::MAX, stick_to_bottom: false, ..s }
            },
            Key::End => if mode == AppMode::Diff {
                ScrollState { diff_offset: usize::MAX, ..s }
            } else {
                ScrollState { log_offset: 0, stick_to_bottom: true, ..s }
            },
            _ => s,
        },
{
    let mut n = s;
    match key {
        Key::PageUp => {
            if mode == AppMode::Diff {
                n.diff_offset = n.diff_offset.saturating_sub(10);
            } else if mode == AppMode::Logs || log_shown {
                n.log_offset = n.log_offset.saturating_add(10);
                n.stick_to_bottom = false;
            }
        },
        Key::PageDown => {
            if mode == AppMode::Diff {
                n.diff_offset = n.diff_offset.saturating_add(10);
            } else if mode == AppMode::Logs || log_shown {
                n.log_offset = n.log_offset.saturating_sub(10);
                if n.log_offset == 0 {
                    n.stick_to_bottom = true;
                }
            }
        },
        Key::Home => {
            if mode == AppMode::Diff {
                n.diff_offset = 0;
            } else if mode == AppMode::Registrants {
                return (n, true);
            } else {
                n.log_offset = usize::MAX;
                n.stick_to_bottom = false;
            }
        },
        Key::End => {
            if mode == AppMode::Diff {
                n.diff_offset = usize::MAX;
            } else {
                n.log_offset = 0;
                n.stick_to_bottom = true;
            }
        },
        _ => {},
    }
    (n, false)
}

/// Down and Up in the diff and log views: one line at a time, as PageUp and
/// PageDown do ten. `None` where the key moves a cursor instead.
pub fn line_key(mode: AppMode, log_shown: bool, s: ScrollState, down: bool) -> (r: Option<ScrollState>)
    ensures
        r == (if mode == AppMode::Diff {
            Some(ScrollState { diff_offset: if down { sat_add(s.diff_offset, 1) } else { sat_sub(s.diff_offset, 1) }, ..s })
        } else if mode == AppMode::Logs || (mode == AppMode::Normal && log_shown) {
            Some(if down { log_down(s, 1) } else { log_up(s, 1) })
        } else {
            None
        }),
{
    let mut n = s;
    if mode == AppMode::Diff {
        if down {
            n.diff_offset = n.diff_offset.saturating_add(1);
        } else {
            n.diff_offset = n.diff_offset.saturating_sub(1);
        }
        Some(n)
    } else if mode == AppMode::Logs || (mode == AppMode::Normal && log_shown) {
        if down {
            n.log_offset = n.log_offset.saturating_sub(1);
            if n.log_offset == 0 {
                n.stick_to_bottom = true;
            }
        } else {
            n.log_offset = n.log_offset.saturating_add(1);
            n.stick_to_bottom = false;
        }
        Some(n)
    } else {
        None
    }
}

/// The cursor one line down a list of `len` lines, back to the top after the
/// last line; the first line when nothing was selected.
pub fn cursor_down(selected: Option<usize>, len: usize) -> (r: usize)
    requires
        selected is Some ==> len > 0,
    ensures
        r == match selected {
            Some(i) => if i >= len - 1 { 0 } else { (i + 1) as usize },
            None => 0,
        },
{
    match selected {
        Some(i) => if i >= len - 1 {
            0
        } else {
            i + 1
        },
        None => 0,
    }
}

/// The cursor one line up a list of `len` lines, round to the last line from
/// the first; the first line when nothing was selected.
pub fn cursor_up(selected: Option<usize>, len: usize) -> (r: usize)
    requires
        selected == Some(0usize) ==> len > 0,
    ensures
        r == match selected {
            Some(i) => if i == 0 { (len - 1) as usize } else { (i - 1) as usize },
            None => 0,
        },
{
    match selected {
        Some(i) => if i == 0 {
            len - 1
        } else {
            i - 1
        },
        None => 0,
    }
}

/// The state recorded for node `n`: that of its first entry, if any.
pub open spec fn state_of(states: Seq<(NodeName, NodeState)>, n: Seq<char>) -> Option<NodeState>
    decreases states.len(),
{
    if states.len() == 0 {
        None
    } else if states[0].0@ == n {
        Some(states[0].1)
    } else {
        state_of(states.drop_first(), n)
    }
}

/// Node `n` has a task running.
pub open spec fn is_busy(states: Seq<(NodeName, NodeState)>, n: Seq<char>) -> bool {
    state_of(states, n) matches Some(NodeState::Running(_))
}

/// The nodes without a running task.
pub open spec fn idle_in(states: Seq<(NodeName, NodeState)>) -> spec_fn(Seq<char>) -> bool {
    |n: Seq<char>| !is_busy(states, n)
}

/// Whether node `n` has a task running.
pub fn node_busy(states: &Vec<(NodeName, NodeState)>, n: &NodeName) -> (r: bool)
    ensures
        r == is_busy(states@, n@),
{
    let mut i: usize = 0;
    assert(states@.subrange(0, states@.len() as int) =~= states@);
    while i < states.len()
        invariant
            i <= states@.len(),
            state_of(states@, n@) == state_of(states@.subrange(i as int, states@.len() as int), n@),
        decreases states@.len() - i,
    {
        let ghost rest = states@.subrange(i as int, states@.len() as int);
        assert(rest.drop_first() =~= states@.subrange(i + 1, states@.len() as int));
        if states[i].0.same(n) {
            return match &states[i].1 {
                NodeState::Running(_) => true,
                _ => false,
            };
        }
        i = i + 1;
    }
    false
}

/// The targets without a running task, in order, and how many were left out.
pub fn skip_busy(targets: &Vec<NodeName>, states: &Vec<(NodeName, NodeState)>) -> (r: (Vec<NodeName>, usize))
    ensures
        names(r.0@) == names(targets@).filter(idle_in(states@)),
        r.1 + r.0@.len() == targets@.len(),
{
    let ghost all = names(targets@);
    let mut kept: Vec<NodeName> = Vec::new();
    let mut skipped: usize = 0;
    let mut i: usize = 0;
    assert(all.subrange(0, 0).filter(idle_in(states@)) =~= Seq::empty()) by {
        reveal(Seq::filter);
    }
    while i < targets.len()
        invariant
            i <= targets@.len(),
            all == names(targets@),
            names(kept@) == all.subrange(0, i as int).filter(idle_in(states@)),
            skipped + kept@.len() == i,
        decreases targets@.len() - i,
    {
        let ghost pre = all.subrange(0, i + 1);
        assert(pre.drop_last() =~= all.subrange(0, i as int));
        assert(pre.last() == targets@[i as int]@);
        assert(pre.filter(idle_in(states@)) == if idle_in(states@)(pre.last()) {
            pre.drop_last().filter(idle_in(states@)).push(pre.last())
        } else {
            pre.drop_last().filter(idle_in(states@))
        }) by {
            reveal(Seq::filter);
        }
        if node_busy(states, &targets[i]) {
            skipped = skipped + 1;
        } else {
            let ghost before = kept@;
            kept.push(targets[i].clone());
            assert(names(kept@) =~= names(before).push(targets@[i as int]@));
        }
        i = i + 1;
    }
    assert(all.subrange(0, targets@.len() as int) =~= all);
    proof {
        reveal(Seq::filter);
    }
    (kept, skipped)
}

/// Which handler of the dashboard a key goes to.
#[derive(Clone, Copy, Debug, PartialEq, Eq, Structural)]
pub enum InputRoute {
    /// The exit confirmation takes every key while it is shown.
    ExitPrompt,
    /// Then the log level popup.
    LevelPopup,
    /// Then the search or filter text being typed.
    InputBuffer,
    /// Then the second key of a yank chord.
    Yank,
    /// Ctrl-P opens or closes the menu.
    ToggleMenu,
    /// `L` opens or closes the log popup.
    ToggleLogPopup,
    /// Ctrl-L scrolls the logs back to the bottom.
    ResetLogs,
    /// The menu's own keys, in menu mode.
    Menu,
    /// The keys of the other modes.
    Main,
}

/// The handler of a key: popups and typed input first, in this order, then
/// a pending yank, the three global chords, the menu, and the rest.
pub open spec fn route_of(
    exit_prompt: bool,
    level_popup: bool,
    typing: bool,
    yank_pending: bool,
    key: Key,
    ctrl: bool,
    mode: AppMode,
) -> InputRoute {
    if exit_prompt {
        InputRoute::ExitPrompt
    } else if level_popup {
        InputRoute::LevelPopup
    } else if typing {
        InputRoute::InputBuffer
    } else if yank_pending {
        InputRoute::Yank
    } else if key == Key::Char('p') && ctrl {
        InputRoute::ToggleMenu
    } else if key == Key::Char('L') && !ctrl {
        InputRoute::ToggleLogPopup
    } else if key == Key::Char('l') && ctrl {
        InputRoute::ResetLogs
    } else if mode == AppMode::Menu {
        InputRoute::Menu
    } else {
        InputRoute::Main
    }
}

/// The handler of a key (see [`route_of`]); `typing` holds while a search or
/// filter is being typed.
pub fn input_route(
    exit_prompt: bool,
    level_popup: bool,
    typing: bool,
    yank_pending: bool,
    key: Key,
    ctrl: bool,
    mode: AppMode,
) -> (r: InputRoute)
    ensures
        r == route_of(exit_prompt, level_popup, typing, yank_pending, key, ctrl, mode),
{
    if exit_prompt {
        InputRoute::ExitPrompt
    } else if level_popup {
        InputRoute::LevelPopup
    } else if typing {
        InputRoute::InputBuffer
    } else if yank_pending {
        InputRoute::Yank
    } else if key == Key::Char('p') && ctrl {
        InputRoute::ToggleMenu
    } else if key == Key::Char('L') && !ctrl {
        InputRoute::ToggleLogPopup
    } else if key == Key::Char('l') && ctrl {
        InputRoute::ResetLogs
    } else if mode == AppMode::Menu {
        InputRoute::Menu
    } else {
        InputRoute::Main
    }
}

} // verus!
