//! What the log view shows: the lines kept by the level and text filters, the
//! window scrolled to, search highlights and the status line.
use vstd::prelude::*;
use vstd::string::*;

use crate::input::{among, level_name};
use crate::nix::views;
use crate::ssh::push_string;
use crate::text::{chars_of, occurs_at_vec, concat2, concat3, contains_str, decimal, decimal_seq, has_infix, occurs_at, owned, str_eq, substring};

verus! {

/// The level tags, in the order a line is checked for them.
pub open spec fn level_tags() -> Seq<Seq<char>> {
    seq![level_name(0), level_name(1), level_name(2), level_name(3)]
}

/// `levels` holds `t`.
pub open spec fn enabled(levels: Seq<Seq<char>>, t: Seq<char>) -> bool {
    levels.contains(t)
}

/// A line is shown unless it carries level tags that are all hidden: a line
/// with no tag is always shown.
pub open spec fn level_keeps(line: Seq<char>, levels: Seq<Seq<char>>) -> bool {
    let tags = level_tags();
    (forall|k: int| 0 <= k < 4 ==> !has_infix(line, #[trigger] tags[k])) || exists|k: int|
        0 <= k < 4 && has_infix(line, #[trigger] tags[k]) && enabled(levels, tags[k])
}

/// Whether `levels` holds `t`.
fn holds(levels: &Vec<String>, t: &str) -> (r: bool)
    ensures
        r == enabled(views(levels@), t@),
{
    let mut i: usize = 0;
    while i < levels.len()
        invariant
            i <= levels@.len(),
            forall|k: int| 0 <= k < i ==> levels@[k]@ != t@,
        decreases levels@.len() - i,
    {
        if str_eq(levels[i].as_str(), t) {
            assert(views(levels@)[i as int] == t@);
            return true;
        }
        i = i + 1;
    }
    assert forall|k: int| 0 <= k < views(levels@).len() implies views(levels@)[k] != t@ by {
        assert(views(levels@)[k] == levels@[k]@);
    }
    false
}

/// Whether the level filter shows `line` (see [`level_keeps`]).
pub fn level_filter_keeps(line: &str, levels: &Vec<String>) -> (r: bool)
    ensures
        r == level_keeps(line@, views(levels@)),
{
    let ghost tags = level_tags();
    let ghost lv = views(levels@);
    let mut has_tag = false;
    let mut k: usize = 0;
    while k < 4
        invariant
            k <= 4,
            tags == level_tags(),
            lv == views(levels@),
            has_tag == exists|j: int| 0 <= j < k && has_infix(line@, #[trigger] tags[j]),
            forall|j: int| 0 <= j < k && has_infix(line@, #[trigger] tags[j]) ==> !enabled(lv, tags[j]),
        decreases 4 - k,
    {
        let tag = crate::input::level_str(k);
        assert(tag@ == tags[k as int]);
        if contains_str(line, tag) {
            if holds(levels, tag) {
                return true;
            }
            has_tag = true;
        }
        k = k + 1;
    }
    !has_tag
}

/// The lines that the level and text filters keep, in order. The level filter
/// only acts while some level is hidden.
pub open spec fn kept_lines(lines: Seq<Seq<char>>, levels: Seq<Seq<char>>, query: Option<Seq<char>>) -> Seq<Seq<char>>
    decreases lines.len(),
{
    if lines.len() == 0 {
        Seq::empty()
    } else {
        let l = lines.last();
        let keep = (levels.len() >= 4 || level_keeps(l, levels)) && match query {
            Some(q) => has_infix(l, q),
            None => true,
        };
        kept_lines(lines.drop_last(), levels, query) + if keep { seq![l] } else { Seq::empty() }
    }
}

/// The most lines the view works on: the newest ones.
pub const MAX_KEEP: usize = 5000;

/// The lines the log view works on: those the filters keep, the newest
/// [`MAX_KEEP`] of them. `levels` holds each level once.
pub fn filtered_lines(lines: &Vec<String>, levels: &Vec<String>, query: &Option<String>) -> (r: Vec<String>)
    ensures
        views(r@) == {
            let k = kept_lines(views(lines@), views(levels@), crate::nix::opt_view(*query));
            if k.len() > MAX_KEEP { k.subrange(k.len() - MAX_KEEP, k.len() as int) } else { k }
        },
{
    let ghost lv = views(lines@);
    let ghost levv = views(levels@);
    let ghost q = crate::nix::opt_view(*query);
    let mut kept: Vec<String> = Vec::new();
    let mut i: usize = 0;
    while i < lines.len()
        invariant
            i <= lines@.len(),
            lv == views(lines@),
            levv == views(levels@),
            q == crate::nix::opt_view(*query),
            views(kept@) == kept_lines(lv.subrange(0, i as int), levv, q),
        decreases lines@.len() - i,
    {
        let ghost pre = lv.subrange(0, i + 1);
        assert(pre.drop_last() =~= lv.subrange(0, i as int));
        assert(pre.last() == lines@[i as int]@);
        let line = lines[i].as_str();
        let by_level = levels.len() >= 4 || level_filter_keeps(line, levels);
        let by_query = match query {
            Some(qs) => contains_str(line, qs.as_str()),
            None => true,
        };
        let ghost before = views(kept@);
        if by_level && by_query {
            push_string(&mut kept, owned(line));
        }
        assert(views(kept@) =~= kept_lines(pre, levv, q));
        i = i + 1;
    }
    assert(lv.subrange(0, lines@.len() as int) =~= lv);
    let total = kept.len();
    if total > MAX_KEEP {
        let mut tail: Vec<String> = Vec::new();
        let mut j: usize = total - MAX_KEEP;
        let ghost kv = views(kept@);
        while j < total
            invariant
                total == kept@.len(),
                total > MAX_KEEP,
                total - MAX_KEEP <= j <= total,
                kv == views(kept@),
                views(tail@) == kv.subrange(total - MAX_KEEP, j as int),
            decreases total - j,
        {
            let ghost before = views(tail@);
            push_string(&mut tail, owned(kept[j].as_str()));
            assert(views(tail@) =~= kv.subrange(total - MAX_KEEP, j + 1));
            j = j + 1;
        }
        tail
    } else {
        kept
    }
}

/// Where the view stands: the offset from the newest line after clamping, the
/// first line shown from the top, and how far down the view is, in percent.
#[derive(Debug, Clone, Copy, PartialEq, Eq, Structural)]
pub struct LogWindow {
    pub offset: usize,
    pub scroll_y: usize,
    pub percent: usize,
}

/// The window over `content` lines shown in a pane of `height` rows with
/// borders: sticking to the newest line puts the offset to 0; the offset never
/// goes past the oldest line.
pub open spec fn window(content: nat, height: nat, offset: nat, stick: bool) -> (nat, nat, nat) {
    let view = if height >= 2 { height - 2 } else { 0 };
    let max_scroll: nat = if content >= view { (content - view) as nat } else { 0 };
    let o: nat = if stick { 0 } else if offset > max_scroll { max_scroll } else { offset };
    let y: nat = (max_scroll - o) as nat;
    let percent: nat = if max_scroll > 0 { (((max_scroll - y) * 100) / (max_scroll as int)) as nat } else { 100 };
    (o, y, percent)
}

/// The window of the log view (see [`window`]).
pub fn log_window(content: usize, height: u16, offset: usize, stick: bool) -> (r: LogWindow)
    requires
        content <= usize::MAX / 100,
    ensures
        (r.offset as nat, r.scroll_y as nat, r.percent as nat) == window(content as nat, height as nat, offset as nat, stick),
{
    let view = height.saturating_sub(2) as usize;
    let max_scroll = content.saturating_sub(view);
    let mut o = offset;
    if stick {
        o = 0;
    }
    if o > max_scroll {
        o = max_scroll;
    }
    let y = max_scroll - o;
    let percent = if max_scroll > 0 {
        assert((max_scroll - y) * 100 <= usize::MAX) by (nonlinear_arith)
            requires
                max_scroll - y <= content,
                content <= usize::MAX / 100;
        ((max_scroll - y) * 100) / max_scroll
    } else {
        100
    };
    LogWindow { offset: o, scroll_y: y, percent }
}

/// The status line of the log view: position, wrapping and stickiness.
pub open spec fn status_text(percent: nat, wrap: bool, stick: bool) -> Seq<char> {
    " "@ + decimal_seq(percent) + "% | "@ + (if wrap { "WRAP"@ } else { "NOWRAP"@ }) + " | "@ + (if stick {
        "STICK"@
    } else {
        "MANUAL"@
    }) + " "@
}

/// The status line of the log view.
pub fn log_status(percent: usize, wrap: bool, stick: bool) -> (r: String)
    ensures
        r@ == status_text(percent as nat, wrap, stick),
{
    let num = decimal(percent as u64);
    let mut r = concat3(" ", num.as_str(), "% | ");
    r.append(if wrap { "WRAP" } else { "NOWRAP" });
    r.append(" | ");
    r.append(if stick { "STICK" } else { "MANUAL" });
    r.append(" ");
    r
}

/// The title of the log view: the node in focus or the global log, and the
/// filter where one is set.
pub open spec fn log_title_text(focus: Option<Seq<char>>, query: Option<Seq<char>>) -> Seq<char> {
    (match focus {
        Some(n) => "Logs: "@ + n,
        None => "Logs (Global)"@,
    }) + match query {
        Some(q) => " [Filter: '"@ + q + "']"@,
        None => Seq::empty(),
    }
}

/// The title of the log view.
pub fn log_title(focus: Option<&str>, query: Option<&str>) -> (r: String)
    ensures
        r@ == log_title_text(
            match focus {
                Some(n) => Some(n@),
                None => None,
            },
            match query {
                Some(q) => Some(q@),
                None => None,
            },
        ),
{
    let mut t = match focus {
        Some(n) => concat2("Logs: ", n),
        None => owned("Logs (Global)"),
    };
    match query {
        Some(q) => {
            t.append(" [Filter: '");
            t.append(q);
            t.append("']");
        },
        None => {},
    }
    t
}

/// The first place at or after `i` where `p` occurs in `s`.
pub open spec fn next_occurrence(s: Seq<char>, p: Seq<char>, i: int) -> Option<int>
    decreases s.len() - i,
{
    if i < 0 || i + p.len() > s.len() {
        None
    } else if occurs_at(s, p, i) {
        Some(i)
    } else if i >= s.len() {
        None
    } else {
        next_occurrence(s, p, i + 1)
    }
}

/// The pieces of `s[i..]` with every match of `p`, from left to right and not
/// overlapping, marked: plain text and matches alternate, no piece is empty.
pub open spec fn highlight_from(s: Seq<char>, p: Seq<char>, i: int) -> Seq<(Seq<char>, bool)>
    recommends
        p.len() > 0,
    decreases s.len() - i,
    when 0 <= i <= s.len() && p.len() > 0
{
    match next_occurrence(s, p, i) {
        Some(j) => {
            proof {
                lemma_next_occurrence(s, p, i);
            }
            (if j > i {
                seq![(s.subrange(i, j), false)]
            } else {
                Seq::empty()
            }) + seq![(p, true)] + highlight_from(s, p, j + p.len())
        },
        None => if i < s.len() {
            seq![(s.subrange(i, s.len() as int), false)]
        } else {
            Seq::empty()
        },
    }
}

/// The occurrence that [`next_occurrence`] finds lies at or after `i`.
pub proof fn lemma_next_occurrence(s: Seq<char>, p: Seq<char>, i: int)
    ensures
        next_occurrence(s, p, i) matches Some(j) ==> i <= j && j + p.len() <= s.len() && occurs_at(s, p, j),
    decreases s.len() - i,
{
    if !(i < 0 || i + p.len() > s.len()) && !occurs_at(s, p, i) && i < s.len() {
        lemma_next_occurrence(s, p, i + 1);
    }
}

/// The texts of `ps`, joined in order.
pub open spec fn joined_pieces(ps: Seq<(Seq<char>, bool)>) -> Seq<char>
    decreases ps.len(),
{
    if ps.len() == 0 {
        Seq::empty()
    } else {
        ps[0].0 + joined_pieces(ps.drop_first())
    }
}

proof fn lemma_joined_concat(a: Seq<(Seq<char>, bool)>, b: Seq<(Seq<char>, bool)>)
    ensures
        joined_pieces(a + b) == joined_pieces(a) + joined_pieces(b),
    decreases a.len(),
{
    if a.len() == 0 {
        assert(a + b =~= b);
    } else {
        lemma_joined_concat(a.drop_first(), b);
        assert((a + b).drop_first() =~= a.drop_first() + b);
        assert((a + b)[0] == a[0]);
    }
}

proof fn lemma_joined_one(x: (Seq<char>, bool))
    ensures
        joined_pieces(seq![x]) == x.0,
{
    let one = seq![x];
    assert(one.drop_first() =~= Seq::<(Seq<char>, bool)>::empty());
    assert(joined_pieces(one.drop_first()) =~= Seq::<char>::empty());
    assert(one[0] == x);
    assert(joined_pieces(one) =~= x.0);
}

/// Highlighting loses and adds nothing: the pieces of `s[i..]`, joined, are
/// `s[i..]` itself, and every marked piece is the search text.
pub proof fn lemma_highlight_joins(s: Seq<char>, p: Seq<char>, i: int)
    requires
        p.len() > 0,
        0 <= i <= s.len(),
    ensures
        joined_pieces(highlight_from(s, p, i)) == s.subrange(i, s.len() as int),
        forall|k: int| 0 <= k < highlight_from(s, p, i).len() && (#[trigger] highlight_from(s, p, i)[k]).1 ==> highlight_from(
            s,
            p,
            i,
        )[k].0 == p,
    decreases s.len() - i,
{
    lemma_next_occurrence(s, p, i);
    match next_occurrence(s, p, i) {
        Some(j) => {
            lemma_highlight_joins(s, p, j + p.len());
            let before: Seq<(Seq<char>, bool)> = if j > i {
                seq![(s.subrange(i, j), false)]
            } else {
                Seq::empty()
            };
            let mid = seq![(p, true)];
            let rest = highlight_from(s, p, j + p.len());
            assert(highlight_from(s, p, i) == before + mid + rest);
            lemma_joined_concat(before + mid, rest);
            lemma_joined_concat(before, mid);
            lemma_joined_one((p, true));
            if j > i {
                lemma_joined_one((s.subrange(i, j), false));
            } else {
                assert(joined_pieces(before) =~= Seq::<char>::empty());
            }
            assert(s.subrange(j, j + p.len()) == p);
            assert(s.subrange(i, s.len() as int) =~= s.subrange(i, j) + s.subrange(j, j + p.len()) + s.subrange(
                j + p.len(),
                s.len() as int,
            ));
            assert forall|k: int| 0 <= k < highlight_from(s, p, i).len() && (#[trigger] highlight_from(s, p, i)[k]).1 implies highlight_from(
                s,
                p,
                i,
            )[k].0 == p by {
                let h = before + mid + rest;
                if k < before.len() {
                } else if k == before.len() {
                } else {
                    assert(h[k] == rest[k - before.len() - 1]);
                }
            }
        },
        None => {
            if i < s.len() {
                lemma_joined_one((s.subrange(i, s.len() as int), false));
            } else {
                assert(s.subrange(i, s.len() as int) =~= Seq::<char>::empty());
            }
        },
    }
}

/// The pieces of `line` with the matches of a search marked (see [`highlight_from`]).
pub fn highlight(line: &str, search: &str) -> (r: Vec<(String, bool)>)
    requires
        search@.len() > 0,
    ensures
        r@.map_values(|x: (String, bool)| (x.0@, x.1)) == highlight_from(line@, search@, 0),
{
    let sv = chars_of(line);
    let pv = chars_of(search);
    let n = sv.len();
    let m = pv.len();
    let mut out: Vec<(String, bool)> = Vec::new();
    let mut i: usize = 0;
    let ghost target = highlight_from(line@, search@, 0);
    assert(out@.map_values(|x: (String, bool)| (x.0@, x.1)) + highlight_from(line@, search@, 0) =~= target);
    while i < n
        invariant
            n == line@.len(),
            m == search@.len(),
            m > 0,
            sv@ == line@,
            pv@ == search@,
            i <= n,
            out@.map_values(|x: (String, bool)| (x.0@, x.1)) + highlight_from(line@, search@, i as int) == target,
        decreases n - i,
    {
        let ghost before = out@.map_values(|x: (String, bool)| (x.0@, x.1));
        let mut j: usize = i;
        let mut found = false;
        assert(next_occurrence(line@, search@, i as int) == next_occurrence(line@, search@, j as int));
        while j <= n && n - j >= m && !found
            invariant
                i <= j <= n,
                n == line@.len(),
                m == search@.len(),
                m > 0,
                sv@ == line@,
                pv@ == search@,
                found ==> next_occurrence(line@, search@, i as int) == Some(j as int),
                !found ==> next_occurrence(line@, search@, i as int) == next_occurrence(line@, search@, j as int),
            decreases n - j + (if found { 0int } else { 1int }),
        {
            if occurs_at_vec(&sv, &pv, j) {
                found = true;
            } else {
                j = j + 1;
            }
        }
        proof {
            lemma_next_occurrence(line@, search@, i as int);
        }
        if found {
            if j > i {
                out.push((substring(line, i, j), false));
            }
            out.push((owned(search), true));
            proof {
                let h = highlight_from(line@, search@, i as int);
                assert(h == (if j > i { seq![(line@.subrange(i as int, j as int), false)] } else { Seq::empty() }) + seq![(search@, true)]
                    + highlight_from(line@, search@, j + m));
                assert(out@.map_values(|x: (String, bool)| (x.0@, x.1)) =~= before + (if j > i {
                    seq![(line@.subrange(i as int, j as int), false)]
                } else {
                    Seq::empty()
                }) + seq![(search@, true)]);
            }
            i = j + m;
        } else {
            assert(next_occurrence(line@, search@, j as int) is None);
            out.push((substring(line, i, n), false));
            proof {
                assert(out@.map_values(|x: (String, bool)| (x.0@, x.1)) =~= before + seq![(line@.subrange(i as int, n as int), false)]);
                assert(highlight_from(line@, search@, n as int) =~= Seq::empty()) by {
                    assert(next_occurrence(line@, search@, n as int) is None);
                }
            }
            i = n;
        }
    }
    assert(highlight_from(line@, search@, n as int) =~= Seq::empty()) by {
        assert(next_occurrence(line@, search@, n as int) is None);
    }
    assert(out@.map_values(|x: (String, bool)| (x.0@, x.1)) =~= target);
    out
}

} // verus!
