//! The dashboard's navigation keys: switching views, closing popups, jumping
//! to the first or last line, the log popup, and the keys of the registrant
//! view and of deployment.
use vstd::prelude::*;
use vstd::string::*;

use crate::model::{AppMode, RegistrantTreeItem};
use crate::nix::{NodeName, PorkbunAccount, NamecheapAccount, RegistrantsConfig};
use crate::registrants::DomainInfo;
use crate::selection::{group_toggled, Selection};
use crate::text::{concat2, concat3, decimal, decimal_seq, owned, str_eq};
use crate::tree::{collect_leaves, flat_views, item_leaves, names, FlatItem, TreeItem};

verus! {

/// What the navigation keys change on screen.
#[derive(Clone, Copy, Debug, PartialEq, Eq, Structural)]
pub struct Screen {
    pub mode: AppMode,
    pub log_popup_open: bool,
    pub show_exit_confirmation: bool,
    pub inspector_open: bool,
    pub visual_anchor: Option<usize>,
    pub pending_g: bool,
    /// A computed diff is held.
    pub diff_shown: bool,
    /// Some registrant is configured or shown.
    pub registrants_available: bool,
    /// The registrant view has a cursor.
    pub registrant_cursor: bool,
}

/// The registrant view, with its cursor put on the first line where it had none.
pub open spec fn to_registrants(s: Screen) -> Screen {
    Screen { mode: AppMode::Registrants, registrant_cursor: true, ..s }
}

/// The screen after one of the keys Tab, `1`, `2`, `3`, `i`, `q` and Esc.
pub open spec fn screen_after(s: Screen, key: crate::input::Key) -> Screen {
    match key {
        crate::input::Key::Tab => {
            let t = match s.mode {
                AppMode::Normal | AppMode::Visual | AppMode::Diff => if s.registrants_available {
                    to_registrants(s)
                } else {
                    Screen { mode: AppMode::Logs, ..s }
                },
                AppMode::Registrants => Screen { mode: AppMode::Logs, ..s },
                _ => Screen { mode: AppMode::Normal, ..s },
            };
            Screen { pending_g: false, ..t }
        },
        crate::input::Key::Char('1') => Screen { mode: AppMode::Normal, pending_g: false, ..s },
        crate::input::Key::Char('2') => {
            let t = if s.registrants_available { to_registrants(s) } else { s };
            Screen { pending_g: false, ..t }
        },
        crate::input::Key::Char('3') => Screen { mode: AppMode::Logs, pending_g: false, ..s },
        crate::input::Key::Char('i') => Screen { inspector_open: !s.inspector_open, ..s },
        crate::input::Key::Char('q') => {
            let t = if s.log_popup_open {
                Screen { log_popup_open: false, ..s }
            } else if s.mode == AppMode::Logs {
                Screen { mode: AppMode::Normal, ..s }
            } else if s.mode == AppMode::Visual {
                Screen { mode: AppMode::Normal, visual_anchor: None, ..s }
            } else if s.mode != AppMode::Menu {
                Screen { show_exit_confirmation: true, ..s }
            } else {
                s
            };
            Screen { pending_g: false, ..t }
        },
        crate::input::Key::Esc => if s.show_exit_confirmation {
            Screen { show_exit_confirmation: false, ..s }
        } else if s.log_popup_open {
            Screen { log_popup_open: false, ..s }
        } else if s.mode == AppMode::Logs {
            Screen { mode: AppMode::Normal, ..s }
        } else if s.mode == AppMode::Diff {
            Screen { mode: AppMode::Normal, diff_shown: false, ..s }
        } else {
            Screen { mode: AppMode::Normal, visual_anchor: None, pending_g: false, ..s }
        },
        _ => s,
    }
}

/// The screen after a navigation key (see [`screen_after`]).
pub fn screen_key(s: Screen, key: crate::input::Key) -> (r: Screen)
    ensures
        r == screen_after(s, key),
{
    let mut n = s;
    match key {
        crate::input::Key::Tab => {
            match s.mode {
                AppMode::Normal | AppMode::Visual | AppMode::Diff => {
                    if s.registrants_available {
                        n.mode = AppMode::Registrants;
                        n.registrant_cursor = true;
                    } else {
                        n.mode = AppMode::Logs;
                    }
                },
                AppMode::Registrants => {
                    n.mode = AppMode::Logs;
                },
                _ => {
                    n.mode = AppMode::Normal;
                },
            }
            n.pending_g = false;
        },
        crate::input::Key::Char('1') => {
            n.mode = AppMode::Normal;
            n.pending_g = false;
        },
        crate::input::Key::Char('2') => {
            if s.registrants_available {
                n.mode = AppMode::Registrants;
                n.registrant_cursor = true;
            }
            n.pending_g = false;
        },
        crate::input::Key::Char('3') => {
            n.mode = AppMode::Logs;
            n.pending_g = false;
        },
        crate::input::Key::Char('i') => {
            n.inspector_open = !s.inspector_open;
        },
        crate::input::Key::Char('q') => {
            if s.log_popup_open {
                n.log_popup_open = false;
            } else if s.mode == AppMode::Logs {
                n.mode = AppMode::Normal;
            } else if s.mode == AppMode::Visual {
                n.mode = AppMode::Normal;
                n.visual_anchor = None;
            } else if s.mode != AppMode::Menu {
                n.show_exit_confirmation = true;
            }
            n.pending_g = false;
        },
        crate::input::Key::Esc => {
            if s.show_exit_confirmation {
                n.show_exit_confirmation = false;
            } else if s.log_popup_open {
                n.log_popup_open = false;
            } else if s.mode == AppMode::Logs {
                n.mode = AppMode::Normal;
            } else if s.mode == AppMode::Diff {
                n.mode = AppMode::Normal;
                n.diff_shown = false;
            } else {
                n.mode = AppMode::Normal;
                n.visual_anchor = None;
                n.pending_g = false;
            }
        },
        _ => {},
    }
    n
}

/// Where a jump to the first or last line goes.
#[derive(Clone, Copy, Debug, PartialEq, Eq, Structural)]
pub enum Jump {
    /// The diff scrolled to this offset.
    Diff(usize),
    /// The registrant cursor on this line, or left where it is.
    Registrant(Option<usize>),
    /// The log at this offset from the newest line, sticking to it or not.
    Log(usize, bool),
    /// The host list's cursor on this line.
    List(usize),
}

/// The jump of `gg` (to the top) or `G` (to the bottom) in a view with
/// `list_len` hosts and `reg_len` registrant lines shown.
pub open spec fn jump_for(mode: AppMode, log_popup_open: bool, top: bool, list_len: nat, reg_len: nat) -> Jump {
    match mode {
        AppMode::Diff => Jump::Diff(if top { 0 } else { usize::MAX }),
        AppMode::Registrants => Jump::Registrant(if top {
            Some(0usize)
        } else if reg_len > 0 {
            Some((reg_len - 1) as usize)
        } else {
            None
        }),
        AppMode::Logs => if top { Jump::Log(usize::MAX, false) } else { Jump::Log(0, true) },
        AppMode::Normal if log_popup_open => if top { Jump::Log(usize::MAX, false) } else { Jump::Log(0, true) },
        _ => Jump::List(if top { 0 } else { (list_len - 1) as usize }),
    }
}

/// The jump of `gg` or `G` (see [`jump_for`]). Where the cursor of an empty
/// host list would go to its last line, there is none to go to.
pub fn jump(mode: AppMode, log_popup_open: bool, top: bool, list_len: usize, reg_len: usize) -> (r: Jump)
    requires
        !top && !(mode == AppMode::Diff || mode == AppMode::Registrants || mode == AppMode::Logs || (mode == AppMode::Normal
            && log_popup_open)) ==> list_len > 0,
    ensures
        r == jump_for(mode, log_popup_open, top, list_len as nat, reg_len as nat),
{
    match mode {
        AppMode::Diff => Jump::Diff(if top { 0 } else { usize::MAX }),
        AppMode::Registrants => Jump::Registrant(if top {
            Some(0)
        } else if reg_len > 0 {
            Some(reg_len - 1)
        } else {
            None
        }),
        AppMode::Logs => if top {
            Jump::Log(usize::MAX, false)
        } else {
            Jump::Log(0, true)
        },
        _ => {
            if mode == AppMode::Normal && log_popup_open {
                if top {
                    Jump::Log(usize::MAX, false)
                } else {
                    Jump::Log(0, true)
                }
            } else {
                Jump::List(if top { 0 } else { list_len - 1 })
            }
        },
    }
}

/// The `g` key: a second `g` jumps to the top and ends the chord; a first
/// one starts it. Returns whether to jump and whether a chord is pending.
pub fn g_key(pending: bool) -> (r: (bool, bool))
    ensures
        r == (pending, !pending),
{
    if pending {
        (true, false)
    } else {
        (false, true)
    }
}

/// What the log keys change: the search and filter prompts, the level popup
/// and the wrapping of long lines.
#[derive(Clone, Copy, Debug, PartialEq, Eq, Structural)]
pub struct LogKeys {
    pub search_active: bool,
    pub filter_active: bool,
    pub level_popup_open: bool,
    pub wrap: bool,
}

/// The log keys after `key`, where the log is shown: `/` searches, `R`
/// filters, `E` opens or closes the level popup, `s` and `S` switch wrapping.
pub open spec fn log_keys_after(k: LogKeys, key: char) -> LogKeys {
    if key == '/' {
        LogKeys { search_active: true, ..k }
    } else if key == 'R' {
        LogKeys { filter_active: true, ..k }
    } else if key == 'E' {
        LogKeys { level_popup_open: !k.level_popup_open, ..k }
    } else if key == 's' || key == 'S' {
        LogKeys { wrap: !k.wrap, ..k }
    } else {
        k
    }
}

/// The log keys after `key` (see [`log_keys_after`]), with the message that
/// reports the new wrapping where it changed.
pub fn log_key(k: LogKeys, key: char) -> (r: (LogKeys, Option<String>))
    ensures
        r.0 == log_keys_after(k, key),
        match r.1 {
            Some(m) => (key == 's' || key == 'S') && m@ == "Log Wrap: "@ + (if r.0.wrap { "true"@ } else { "false"@ }),
            None => !(key == 's' || key == 'S'),
        },
{
    let mut n = k;
    if key == '/' {
        n.search_active = true;
        (n, None)
    } else if key == 'R' {
        n.filter_active = true;
        (n, None)
    } else if key == 'E' {
        n.level_popup_open = !k.level_popup_open;
        (n, None)
    } else if key == 's' || key == 'S' {
        n.wrap = !k.wrap;
        (n, Some(concat2("Log Wrap: ", if n.wrap { "true" } else { "false" })))
    } else {
        (n, None)
    }
}

/// The `L` key: closes the log popup, or opens it, focused on the node under
/// the cursor where the logs are per node. Returns whether the popup is open
/// and the node to focus, where one is set.
pub fn log_popup_key(open: bool, view_global: bool, cursor_node: Option<&NodeName>) -> (r: (bool, Option<NodeName>))
    ensures
        r.0 == !open,
        match r.1 {
            Some(n) => !open && !view_global && cursor_node is Some && n@ == cursor_node->0@,
            None => open || view_global || cursor_node is None,
        },
{
    if open {
        (false, None)
    } else if !view_global {
        match cursor_node {
            Some(n) => (true, Some(n.clone())),
            None => (true, None),
        }
    } else {
        (true, None)
    }
}

/// A request to load the records of a domain's record group.
#[derive(Debug)]
pub struct RecordRequest {
    pub provider: String,
    pub account: String,
    pub domain: String,
    pub rec_type: String,
}

/// Enter on a line of the registrant view: an entry that folds is folded or
/// unfolded, and a folded record group that was never loaded asks for its
/// records (`DNS` for the DNS group, `Glue` otherwise). Returns the request
/// and whether the line is toggled.
pub fn registrant_enter(item: &RegistrantTreeItem) -> (r: (Option<RecordRequest>, bool))
    ensures
        r.1 == (*item is Provider || *item is Account || *item is Domain || *item is RecordGroup),
        match r.0 {
            Some(q) => *item matches RegistrantTreeItem::RecordGroup { name, domain_info, collapsed, loaded, .. } && collapsed
                && !loaded && q.provider == domain_info.provider && q.account == domain_info.account && q.domain
                == domain_info.domain && q.rec_type@ == (if name@ == "DNS Records"@ { "DNS"@ } else { "Glue"@ }),
            None => !(*item matches RegistrantTreeItem::RecordGroup { collapsed, loaded, .. } && collapsed && !loaded),
        },
{
    match item {
        RegistrantTreeItem::RecordGroup { name, domain_info, collapsed, loaded, .. } => {
            if *collapsed && !*loaded {
                let rec_type = if str_eq(name.as_str(), "DNS Records") { "DNS" } else { "Glue" };
                (
                    Some(
                        RecordRequest {
                            provider: domain_info.provider.clone(),
                            account: domain_info.account.clone(),
                            domain: domain_info.domain.clone(),
                            rec_type: owned(rec_type),
                        },
                    ),
                    true,
                )
            } else {
                (None, true)
            }
        },
        RegistrantTreeItem::Domain { .. } | RegistrantTreeItem::Provider { .. } | RegistrantTreeItem::Account { .. } => (None, true),
        _ => (None, false),
    }
}

/// The domain that `y` copies credentials for: that of a domain line or of a
/// record group line.
pub fn yank_domain(item: &RegistrantTreeItem) -> (r: Option<&DomainInfo>)
    ensures
        match r {
            Some(d) => (*item matches RegistrantTreeItem::Domain { info, .. } && *d == info) || (*item matches RegistrantTreeItem::RecordGroup {
                domain_info,
                ..
            } && *d == domain_info),
            None => !(*item is Domain || *item is RecordGroup),
        },
{
    match item {
        RegistrantTreeItem::Domain { info, .. } => Some(info),
        RegistrantTreeItem::RecordGroup { domain_info, .. } => Some(domain_info),
        _ => None,
    }
}

/// The commands whose outputs make the credentials of a domain's account, in
/// the order of the copied fields.
#[derive(Debug)]
pub enum CredentialPlan {
    /// The API key and the secret key of a Porkbun account.
    Porkbun(String, String),
    /// The user and the API key of a Namecheap account.
    Namecheap(String, String),
}

/// The account named `a` among `accts`, the first one of that name.
pub open spec fn account_index<T>(accts: Seq<(String, T)>, a: Seq<char>) -> Option<int>
    decreases accts.len(),
{
    if accts.len() == 0 {
        None
    } else if accts[0].0@ == a {
        Some(0)
    } else {
        match account_index(accts.drop_first(), a) {
            Some(i) => Some(i + 1),
            None => None,
        }
    }
}

/// The Porkbun account named `a`.
fn find_porkbun(accts: &Vec<(String, PorkbunAccount)>, a: &str) -> (r: Option<usize>)
    ensures
        match r {
            Some(i) => account_index(accts@, a@) == Some(i as int) && i < accts@.len(),
            None => account_index(accts@, a@) is None,
        },
{
    let mut i: usize = 0;
    assert(accts@.subrange(0, accts@.len() as int) =~= accts@);
    while i < accts.len()
        invariant
            i <= accts@.len(),
            account_index(accts@, a@) == match account_index(accts@.subrange(i as int, accts@.len() as int), a@) {
                Some(k) => Some(k + i),
                None => None,
            },
        decreases accts@.len() - i,
    {
        let ghost rest = accts@.subrange(i as int, accts@.len() as int);
        assert(rest.drop_first() =~= accts@.subrange(i + 1, accts@.len() as int));
        if str_eq(accts[i].0.as_str(), a) {
            return Some(i);
        }
        i = i + 1;
    }
    None
}

/// The Namecheap account named `a`.
fn find_namecheap(accts: &Vec<(String, NamecheapAccount)>, a: &str) -> (r: Option<usize>)
    ensures
        match r {
            Some(i) => account_index(accts@, a@) == Some(i as int) && i < accts@.len(),
            None => account_index(accts@, a@) is None,
        },
{
    let mut i: usize = 0;
    assert(accts@.subrange(0, accts@.len() as int) =~= accts@);
    while i < accts.len()
        invariant
            i <= accts@.len(),
            account_index(accts@, a@) == match account_index(accts@.subrange(i as int, accts@.len() as int), a@) {
                Some(k) => Some(k + i),
                None => None,
            },
        decreases accts@.len() - i,
    {
        let ghost rest = accts@.subrange(i as int, accts@.len() as int);
        assert(rest.drop_first() =~= accts@.subrange(i + 1, accts@.len() as int));
        if str_eq(accts[i].0.as_str(), a) {
            return Some(i);
        }
        i = i + 1;
    }
    None
}

/// The commands for the credentials of domain `d`: those of its account
/// with its provider, where the provider is Porkbun or Namecheap and the
/// account is configured.
pub fn credential_plan(d: &DomainInfo, config: &RegistrantsConfig) -> (r: Option<CredentialPlan>)
    ensures
        match r {
            Some(CredentialPlan::Porkbun(a, s)) => d.provider@ == "Porkbun"@ && (match account_index(config.porkbun@, d.account@) {
                Some(i) => a == config.porkbun@[i].1.api_key_command && s == config.porkbun@[i].1.secret_api_key_command,
                None => false,
            }),
            Some(CredentialPlan::Namecheap(u, k)) => d.provider@ == "Namecheap"@ && (match account_index(config.namecheap@, d.account@) {
                Some(i) => u == config.namecheap@[i].1.user_command && k == config.namecheap@[i].1.api_key_command,
                None => false,
            }),
            None => (d.provider@ == "Porkbun"@ ==> account_index(config.porkbun@, d.account@) is None) && (d.provider@
                == "Namecheap"@ ==> account_index(config.namecheap@, d.account@) is None),
        },
{
    proof {
        reveal_strlit("Porkbun");
        reveal_strlit("Namecheap");
        assert("Porkbun"@.len() != "Namecheap"@.len());
    }
    if str_eq(d.provider.as_str(), "Porkbun") {
        match find_porkbun(&config.porkbun, d.account.as_str()) {
            Some(i) => {
                let acct = &config.porkbun[i].1;
                Some(CredentialPlan::Porkbun(acct.api_key_command.clone(), acct.secret_api_key_command.clone()))
            },
            None => None,
        }
    } else if str_eq(d.provider.as_str(), "Namecheap") {
        match find_namecheap(&config.namecheap, d.account.as_str()) {
            Some(i) => Some(
                CredentialPlan::Namecheap(
                    config.namecheap[i].1.user_command.clone(),
                    config.namecheap[i].1.api_key_command.clone(),
                ),
            ),
            None => None,
        }
    } else {
        None
    }
}

/// The message after copying credentials of `provider`, or after failing to.
pub fn credentials_message(provider: &str, copied: bool) -> (r: &'static str)
    ensures
        r@ == (if !copied {
            "Failed to fetch keys."@
        } else if provider@ == "Porkbun"@ {
            "Porkbun credentials copied!"@
        } else {
            "Namecheap credentials copied!"@
        }),
{
    if !copied {
        "Failed to fetch keys."
    } else if str_eq(provider, "Porkbun") {
        "Porkbun credentials copied!"
    } else {
        "Namecheap credentials copied!"
    }
}

/// The message that busy nodes were left out of a deployment.
pub fn skipping_message(n: usize) -> (r: String)
    ensures
        r@ == "Skipping "@ + decimal_seq(n as nat) + " busy nodes."@,
{
    concat3("Skipping ", decimal(n as u64).as_str(), " busy nodes.")
}

/// The log line that starts a deployment.
pub fn starting_message(n: usize) -> (r: String)
    ensures
        r@ == "Starting deployment for "@ + decimal_seq(n as nat) + " nodes..."@,
{
    concat3("Starting deployment for ", decimal(n as u64).as_str(), " nodes...")
}

/// The names of the nodes under the rows `start..=end` of the host list, in
/// order, rows past the end left out.
pub open spec fn rows_leaves(rows: Seq<(TreeItem, int, Seq<usize>, bool)>, start: int, end: int) -> Seq<Seq<char>>
    decreases end - start + 1,
{
    if start > end || start >= rows.len() || start < 0 {
        Seq::empty()
    } else {
        item_leaves(rows[start].0) + rows_leaves(rows, start + 1, end)
    }
}

/// The nodes under the rows marked in visual mode, between the anchor and
/// the cursor (see [`rows_leaves`]).
pub fn range_leaves(flat: &Vec<FlatItem>, anchor: usize, cursor: usize) -> (r: Vec<NodeName>)
    ensures
        names(r@) == rows_leaves(
            flat_views(flat@),
            if anchor <= cursor { anchor as int } else { cursor as int },
            if anchor <= cursor { cursor as int } else { anchor as int },
        ),
{
    let ghost rows = flat_views(flat@);
    let start = if anchor <= cursor { anchor } else { cursor };
    let end = if anchor <= cursor { cursor } else { anchor };
    let mut out: Vec<NodeName> = Vec::new();
    let mut i = start;
    while i <= end && i < flat.len()
        invariant
            start == (if anchor <= cursor { anchor } else { cursor }),
            end == (if anchor <= cursor { cursor } else { anchor }),
            start <= i,
            rows == flat_views(flat@),
            i <= end + 1 || i == start,
            names(out@) + rows_leaves(rows, i as int, end as int) == rows_leaves(rows, start as int, end as int),
        decreases flat@.len() - i,
    {
        let ghost before = names(out@);
        collect_leaves(flat[i].item, &mut out);
        assert(rows[i as int].0 == *flat@[i as int].item);
        assert(names(out@) + rows_leaves(rows, i + 1, end as int) =~= before + rows_leaves(rows, i as int, end as int));
        if i == end {
            assert(rows_leaves(rows, i + 1, end as int) =~= Seq::empty());
            assert(names(out@) =~= rows_leaves(rows, start as int, end as int));
            return out;
        }
        i = i + 1;
    }
    assert(rows_leaves(rows, i as int, end as int) =~= Seq::empty());
    assert(names(out@) =~= rows_leaves(rows, start as int, end as int));
    out
}


/// The selection after the space key on the host list, with the mode and
/// visual anchor that follow. In normal mode the item under the cursor is
/// toggled: a node by itself, a group as a whole (see [`group_toggled`]). In
/// visual mode, with an anchor and a cursor, the nodes under the marked rows
/// are toggled as one group and the mode returns to normal without anchor.
/// Elsewhere, or without a cursor, nothing changes.
pub open spec fn space_effect(
    s: Set<Seq<char>>,
    rows: Seq<(TreeItem, int, Seq<usize>, bool)>,
    mode: AppMode,
    anchor: Option<usize>,
    cursor: Option<usize>,
) -> (Set<Seq<char>>, AppMode, Option<usize>) {
    match mode {
        AppMode::Normal => match cursor {
            Some(i) => if i < rows.len() {
                match rows[i as int].0 {
                    TreeItem::Node { name } => (if s.contains(name@) { s.remove(name@) } else { s.insert(name@) }, mode, anchor),
                    TreeItem::Group { .. } => (group_toggled(s, item_leaves(rows[i as int].0).to_set()), mode, anchor),
                }
            } else {
                (s, mode, anchor)
            },
            None => (s, mode, anchor),
        },
        AppMode::Visual => match (anchor, cursor) {
            (Some(a), Some(c)) => (
                group_toggled(
                    s,
                    rows_leaves(
                        rows,
                        if a <= c { a as int } else { c as int },
                        if a <= c { c as int } else { a as int },
                    ).to_set(),
                ),
                AppMode::Normal,
                None,
            ),
            _ => (s, mode, anchor),
        },
        _ => (s, mode, anchor),
    }
}

/// The space key on the host list (see [`space_effect`]); returns the mode and
/// the visual anchor that follow, and the pending `g` chord, which it cancels.
pub fn space_key(
    sel: &mut Selection,
    flat: &Vec<FlatItem>,
    mode: AppMode,
    anchor: Option<usize>,
    cursor: Option<usize>,
) -> (r: (AppMode, Option<usize>, bool))
    requires
        old(sel).wf(),
    ensures
        final(sel).wf(),
        (final(sel)@, r.0, r.1) == space_effect(old(sel)@, flat_views(flat@), mode, anchor, cursor),
        !r.2,
{
    match mode {
        AppMode::Normal => {
            if let Some(i) = cursor {
                if i < flat.len() {
                    assert(flat_views(flat@)[i as int].0 == *flat@[i as int].item);
                    match flat[i].item {
                        TreeItem::Node { name } => {
                            sel.toggle_node(name.clone());
                        },
                        TreeItem::Group { .. } => {
                            let mut leaves: Vec<NodeName> = Vec::new();
                            collect_leaves(flat[i].item, &mut leaves);
                            assert(names(leaves@) =~= item_leaves(*flat@[i as int].item));
                            sel.toggle_group(&leaves);
                        },
                    }
                }
            }
            (mode, anchor, false)
        },
        AppMode::Visual => {
            match (anchor, cursor) {
                (Some(a), Some(c)) => {
                    let leaves = range_leaves(flat, a, c);
                    sel.toggle_group(&leaves);
                    (AppMode::Normal, None, false)
                },
                _ => (mode, anchor, false),
            }
        },
        _ => (mode, anchor, false),
    }
}

/// The pending `g` chord after a key of the host list, where not decided by
/// the screen keys (Tab, `1`-`3`, `i`, `q`, Esc; see [`screen_after`]), which
/// give `None`: `g` starts or completes the chord; the search, refresh,
/// selection-action, yank, deploy and Enter keys leave it as it is; every other
/// key cancels it.
pub open spec fn pending_g_after(pending: bool, key: crate::input::Key) -> Option<bool> {
    match key {
        crate::input::Key::Tab | crate::input::Key::Esc => None,
        crate::input::Key::Char(c) => if c == '1' || c == '2' || c == '3' || c == 'i' || c == 'q' {
            None
        } else if c == 'g' {
            Some(!pending)
        } else if c == '/' || c == 'R' || c == 'E' || c == 's' || c == 'S' || c == 'y' || c == 'd' {
            Some(pending)
        } else {
            Some(false)
        },
        crate::input::Key::Enter => Some(pending),
        _ => Some(false),
    }
}

/// The pending `g` chord after a key (see [`pending_g_after`]).
pub fn pending_g_key(pending: bool, key: crate::input::Key) -> (r: Option<bool>)
    ensures
        r == pending_g_after(pending, key),
{
    match key {
        crate::input::Key::Tab | crate::input::Key::Esc => None,
        crate::input::Key::Char(c) => if c == '1' || c == '2' || c == '3' || c == 'i' || c == 'q' {
            None
        } else if c == 'g' {
            Some(!pending)
        } else if c == '/' || c == 'R' || c == 'E' || c == 's' || c == 'S' || c == 'y' || c == 'd' {
            Some(pending)
        } else {
            Some(false)
        },
        crate::input::Key::Enter => Some(pending),
        _ => Some(false),
    }
}

/// The screen when the dashboard starts: the boot screen, nothing open.
pub fn initial_screen(registrants_available: bool) -> (r: Screen)
    ensures
        r == (Screen {
            mode: AppMode::Boot,
            log_popup_open: false,
            show_exit_confirmation: false,
            inspector_open: false,
            visual_anchor: None,
            pending_g: false,
            diff_shown: false,
            registrants_available,
            registrant_cursor: false,
        }),
{
    Screen {
        mode: AppMode::Boot,
        log_popup_open: false,
        show_exit_confirmation: false,
        inspector_open: false,
        visual_anchor: None,
        pending_g: false,
        diff_shown: false,
        registrants_available,
        registrant_cursor: false,
    }
}

/// The log keys' state when the dashboard starts: long lines wrapped.
pub fn initial_log_keys() -> (r: LogKeys)
    ensures
        r == (LogKeys { search_active: false, filter_active: false, level_popup_open: false, wrap: true }),
{
    LogKeys { search_active: false, filter_active: false, level_popup_open: false, wrap: true }
}

/// The exit prompt when the dashboard starts: hidden, "Yes" highlighted.
pub fn initial_exit_prompt() -> (r: crate::input::ExitPrompt)
    ensures
        r == (crate::input::ExitPrompt { show: false, selection: true, should_quit: false }),
{
    crate::input::ExitPrompt { show: false, selection: true, should_quit: false }
}

/// The scroll positions when the dashboard starts: at the top of the diff,
/// following the newest log line.
pub fn initial_scroll() -> (r: crate::input::ScrollState)
    ensures
        r == (crate::input::ScrollState { diff_offset: 0, log_offset: 0, stick_to_bottom: true }),
{
    crate::input::ScrollState { diff_offset: 0, log_offset: 0, stick_to_bottom: true }
}

/// The log levels shown when the dashboard starts.
pub fn initial_log_levels() -> (r: Vec<String>)
    ensures
        crate::nix::views(r@) == seq!["INFO"@, "WARN"@, "ERROR"@],
{
    let mut r: Vec<String> = Vec::new();
    crate::ssh::push_str(&mut r, "INFO");
    crate::ssh::push_str(&mut r, "WARN");
    crate::ssh::push_str(&mut r, "ERROR");
    r
}

} // verus!
