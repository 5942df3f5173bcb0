//! The dashboard's state: modes, menus, deployment settings, the registrant
//! tree and the boot screen's animation.
use vstd::prelude::*;
use vstd::string::*;

use crate::nix::{NodeConfig, NodeName, NodeState, Provenance};
use crate::registrants::{DomainInfo, PorkbunDnsRecord, PorkbunGlueRecord};
use crate::text::owned;
use crate::tree::TreeItem;

verus! {

/// What is known of the provenance of the system a node runs.
#[derive(Debug)]
pub enum ProvenanceStatus {
    Verified(Provenance),
    NoData,
    Error(String),
}

/// The dashboard's mode.
#[derive(Clone, Copy, Debug, PartialEq, Eq, Structural)]
pub enum AppMode {
    Boot,
    Normal,
    Visual,
    Diff,
    Menu,
    Registrants,
    Logs,
}

/// An entry of the registrant tree.
#[derive(Debug)]
pub enum RegistrantTreeItem {
    Provider { name: String, children: Vec<RegistrantTreeItem>, collapsed: bool },
    Account { name: String, children: Vec<RegistrantTreeItem>, collapsed: bool },
    Domain { info: DomainInfo, children: Vec<RegistrantTreeItem>, collapsed: bool },
    RecordGroup {
        name: String,
        domain_info: DomainInfo,
        children: Vec<RegistrantTreeItem>,
        collapsed: bool,
        loaded: bool,
    },
    DnsRecord { record: PorkbunDnsRecord },
    GlueRecord { record: PorkbunGlueRecord },
    Message { text: String },
}

/// A floating text on the boot screen.
#[derive(Debug, Clone, Copy)]
pub struct WiredPhantom {
    pub text_idx: usize,
    pub x: u16,
    pub y: u16,
    pub spawn_tick: u64,
    pub lifetime: u64,
}

/// The floating texts of the boot screen.
#[derive(Debug)]
pub struct WiredState {
    pub phantoms: Vec<WiredPhantom>,
}

impl Default for WiredState {
    fn default() -> (r: Self)
        ensures
            r.phantoms@.len() == 0,
    {
        WiredState { phantoms: Vec::new() }
    }
}

/// Options handed to a deployment started from the dashboard.
#[derive(Debug, Clone, Copy, PartialEq, Eq, Structural)]
pub struct DeploySettings {
    pub reboot: bool,
    pub install_bootloader: bool,
    pub no_keys: bool,
    pub no_substitute: bool,
    pub no_gzip: bool,
    pub build_on_target: bool,
    pub force_replace_unknown_profiles: bool,
    pub keep_result: bool,
}

impl Default for DeploySettings {
    fn default() -> (r: Self)
        ensures
            r == (DeploySettings {
                reboot: false,
                install_bootloader: false,
                no_keys: false,
                no_substitute: false,
                no_gzip: false,
                build_on_target: false,
                force_replace_unknown_profiles: false,
                keep_result: false,
            }),
    {
        DeploySettings {
            reboot: false,
            install_bootloader: false,
            no_keys: false,
            no_substitute: false,
            no_gzip: false,
            build_on_target: false,
            force_replace_unknown_profiles: false,
            keep_result: false,
        }
    }
}

/// The menus of the dashboard.
#[derive(Clone, Copy, Debug, PartialEq, Eq, Structural)]
pub enum MenuId {
    Main,
    DeploySettings,
    NodeContext,
    GarbageCollectInterval,
}

/// The settings that a menu entry can switch.
#[derive(Clone, Copy, Debug, PartialEq, Eq, Structural)]
pub enum SettingId {
    Reboot,
    InstallBootloader,
    NoKeys,
    NoSubstitute,
    NoGzip,
    BuildOnTarget,
    ForceReplaceUnknownProfiles,
    KeepResult,
    UseDaemon,
}

/// An action on the chosen nodes.
#[derive(Debug)]
pub enum LocalAction {
    Deploy,
    Diff,
    Ssh,
    /// Collect garbage: `None` deletes old generations, `Some(age)` those older than `age`.
    Gc(Option<String>),
    Inspect,
}

/// What choosing a menu entry does.
#[derive(Debug)]
pub enum MenuAction {
    Navigate(MenuId),
    Toggle(SettingId),
    Execute(LocalAction),
    Close,
}

/// An entry of a menu, with the state of its setting where it switches one.
#[derive(Debug)]
pub struct MenuItem {
    pub label: String,
    pub action: MenuAction,
    pub checked: Option<bool>,
}

/// The open menu, its highlighted entry and the way back to the menus above.
#[derive(Debug)]
pub struct MenuState {
    pub active_menu_id: MenuId,
    pub selected_idx: usize,
    pub navigation_stack: Vec<(MenuId, usize)>,
}

impl Default for MenuState {
    fn default() -> (r: Self)
        ensures
            r.active_menu_id == MenuId::Main,
            r.selected_idx == 0,
            r.navigation_stack@.len() == 0,
    {
        MenuState { active_menu_id: MenuId::Main, selected_idx: 0, navigation_stack: Vec::new() }
    }
}

/// What the dashboard keeps on disk between runs.
#[derive(Debug)]
pub struct TreeCache {
    pub nodes: Vec<NodeName>,
    pub configs: Vec<(NodeName, NodeConfig)>,
    pub tree: Vec<TreeItem>,
    pub node_states: Vec<(NodeName, NodeState)>,
    pub node_last_updated: Vec<(NodeName, u64)>,
    pub timestamp: u64,
    pub provenance: Vec<(NodeName, ProvenanceStatus)>,
}

/// What a local action is, with its texts as character sequences.
pub enum LocalActionView {
    Deploy,
    Diff,
    Ssh,
    Gc(Option<Seq<char>>),
    Inspect,
}

impl View for LocalAction {
    type V = LocalActionView;

    open spec fn view(&self) -> LocalActionView {
        match self {
            LocalAction::Deploy => LocalActionView::Deploy,
            LocalAction::Diff => LocalActionView::Diff,
            LocalAction::Ssh => LocalActionView::Ssh,
            LocalAction::Gc(age) => LocalActionView::Gc(crate::nix::opt_view(*age)),
            LocalAction::Inspect => LocalActionView::Inspect,
        }
    }
}

/// What a menu action is, with its texts as character sequences.
pub enum MenuActionView {
    Navigate(MenuId),
    Toggle(SettingId),
    Execute(LocalActionView),
    Close,
}

impl View for MenuAction {
    type V = MenuActionView;

    open spec fn view(&self) -> MenuActionView {
        match self {
            MenuAction::Navigate(id) => MenuActionView::Navigate(*id),
            MenuAction::Toggle(id) => MenuActionView::Toggle(*id),
            MenuAction::Execute(a) => MenuActionView::Execute(a@),
            MenuAction::Close => MenuActionView::Close,
        }
    }
}

impl View for MenuItem {
    type V = (Seq<char>, MenuActionView, Option<bool>);

    open spec fn view(&self) -> (Seq<char>, MenuActionView, Option<bool>) {
        (self.label@, self.action@, self.checked)
    }
}

impl LocalAction {
    /// A copy of the action.
    pub fn duplicate(&self) -> (r: LocalAction)
        ensures
            r@ == self@,
    {
        match self {
            LocalAction::Deploy => LocalAction::Deploy,
            LocalAction::Diff => LocalAction::Diff,
            LocalAction::Ssh => LocalAction::Ssh,
            LocalAction::Gc(age) => LocalAction::Gc(crate::nix::clone_opt(age)),
            LocalAction::Inspect => LocalAction::Inspect,
        }
    }
}

/// The views of a list of menu entries.
pub open spec fn item_views(items: Seq<MenuItem>) -> Seq<(Seq<char>, MenuActionView, Option<bool>)> {
    items.map_values(|i: MenuItem| i@)
}

/// The entries of menu `id`. `selected` is the number of chosen nodes; with none
/// chosen, the node under the cursor counts as one. Diff and SSH are offered
/// for a single node only.
pub open spec fn menu_entries(id: MenuId, use_daemon: bool, s: DeploySettings, selected: nat) -> Seq<
    (Seq<char>, MenuActionView, Option<bool>),
> {
    match id {
        MenuId::Main => seq![
            ("Inspector (i)"@, MenuActionView::Execute(LocalActionView::Inspect), None),
            ("Options"@, MenuActionView::Navigate(MenuId::DeploySettings), None),
            ("Use Daemon"@, MenuActionView::Toggle(SettingId::UseDaemon), Some(use_daemon)),
            ("Close Menu"@, MenuActionView::Close, None),
        ],
        MenuId::DeploySettings => seq![
            ("Reboot (--reboot)"@, MenuActionView::Toggle(SettingId::Reboot), Some(s.reboot)),
            ("Install Bootloader (--install-bootloader)"@, MenuActionView::Toggle(SettingId::InstallBootloader), Some(s.install_bootloader)),
            ("Skip Key Upload (--no-keys)"@, MenuActionView::Toggle(SettingId::NoKeys), Some(s.no_keys)),
            ("No Substitutes (--no-substitutes)"@, MenuActionView::Toggle(SettingId::NoSubstitute), Some(s.no_substitute)),
            ("No GZip (--no-gzip)"@, MenuActionView::Toggle(SettingId::NoGzip), Some(s.no_gzip)),
            ("Build on Target (--build-on-target)"@, MenuActionView::Toggle(SettingId::BuildOnTarget), Some(s.build_on_target)),
            ("Force Replace Unknown Profiles (--force-replace-unknown-profiles)"@, MenuActionView::Toggle(SettingId::ForceReplaceUnknownProfiles), Some(s.force_replace_unknown_profiles)),
            ("Keep Result / GC Roots (--keep-result)"@, MenuActionView::Toggle(SettingId::KeepResult), Some(s.keep_result)),
            ("Back"@, MenuActionView::Navigate(MenuId::Main), None),
        ],
        MenuId::NodeContext => {
            let count = if selected > 0 { selected } else { 1 };
            seq![("Deploy"@, MenuActionView::Execute(LocalActionView::Deploy), None)] + (if count == 1 {
                seq![
                    ("Diff"@, MenuActionView::Execute(LocalActionView::Diff), None),
                    ("SSH"@, MenuActionView::Execute(LocalActionView::Ssh), None),
                ]
            } else {
                Seq::empty()
            }) + seq![
                ("Collect Garbage"@, MenuActionView::Navigate(MenuId::GarbageCollectInterval), None),
                ("Cancel"@, MenuActionView::Close, None),
            ]
        },
        MenuId::GarbageCollectInterval => seq![
            ("Delete Old (nix-collect-garbage -d)"@, MenuActionView::Execute(LocalActionView::Gc(None)), None),
            ("Older than 3 days"@, MenuActionView::Execute(LocalActionView::Gc(Some("3d"@))), None),
            ("Older than 7 days"@, MenuActionView::Execute(LocalActionView::Gc(Some("7d"@))), None),
            ("Older than 14 days"@, MenuActionView::Execute(LocalActionView::Gc(Some("14d"@))), None),
            ("Older than 30 days"@, MenuActionView::Execute(LocalActionView::Gc(Some("30d"@))), None),
            ("Back"@, MenuActionView::Navigate(MenuId::NodeContext), None),
        ],
    }
}

/// A menu entry.
fn entry(label: &str, action: MenuAction, checked: Option<bool>) -> (r: MenuItem)
    ensures
        r@ == (label@, action@, checked),
{
    MenuItem { label: owned(label), action, checked }
}

/// Appends an entry to a menu.
fn push_entry(items: &mut Vec<MenuItem>, label: &str, action: MenuAction, checked: Option<bool>)
    ensures
        item_views(final(items)@) == item_views(old(items)@).push((label@, action@, checked)),
{
    let ghost before = items@;
    let e = entry(label, action, checked);
    items.push(e);
    assert(item_views(items@) =~= item_views(before).push((label@, action@, checked)));
}

/// The entries of menu `id` (see [`menu_entries`]).
pub fn current_menu_items(id: MenuId, use_daemon: bool, settings: &DeploySettings, selected: usize) -> (r: Vec<MenuItem>)
    ensures
        item_views(r@) == menu_entries(id, use_daemon, *settings, selected as nat),
{
    let mut items: Vec<MenuItem> = Vec::new();
    match id {
        MenuId::Main => {
            push_entry(&mut items, "Inspector (i)", MenuAction::Execute(LocalAction::Inspect), None);
            push_entry(&mut items, "Options", MenuAction::Navigate(MenuId::DeploySettings), None);
            push_entry(&mut items, "Use Daemon", MenuAction::Toggle(SettingId::UseDaemon), Some(use_daemon));
            push_entry(&mut items, "Close Menu", MenuAction::Close, None);
        },
        MenuId::DeploySettings => {
            push_entry(&mut items, "Reboot (--reboot)", MenuAction::Toggle(SettingId::Reboot), Some(settings.reboot));
            push_entry(&mut items, "Install Bootloader (--install-bootloader)", MenuAction::Toggle(SettingId::InstallBootloader), Some(settings.install_bootloader));
            push_entry(&mut items, "Skip Key Upload (--no-keys)", MenuAction::Toggle(SettingId::NoKeys), Some(settings.no_keys));
            push_entry(&mut items, "No Substitutes (--no-substitutes)", MenuAction::Toggle(SettingId::NoSubstitute), Some(settings.no_substitute));
            push_entry(&mut items, "No GZip (--no-gzip)", MenuAction::Toggle(SettingId::NoGzip), Some(settings.no_gzip));
            push_entry(&mut items, "Build on Target (--build-on-target)", MenuAction::Toggle(SettingId::BuildOnTarget), Some(settings.build_on_target));
            push_entry(&mut items, "Force Replace Unknown Profiles (--force-replace-unknown-profiles)", MenuAction::Toggle(SettingId::ForceReplaceUnknownProfiles), Some(settings.force_replace_unknown_profiles));
            push_entry(&mut items, "Keep Result / GC Roots (--keep-result)", MenuAction::Toggle(SettingId::KeepResult), Some(settings.keep_result));
            push_entry(&mut items, "Back", MenuAction::Navigate(MenuId::Main), None);
        },
        MenuId::NodeContext => {
            push_entry(&mut items, "Deploy", MenuAction::Execute(LocalAction::Deploy), None);
            let count = if selected > 0 { selected } else { 1 };
            if count == 1 {
                push_entry(&mut items, "Diff", MenuAction::Execute(LocalAction::Diff), None);
                push_entry(&mut items, "SSH", MenuAction::Execute(LocalAction::Ssh), None);
            }
            push_entry(&mut items, "Collect Garbage", MenuAction::Navigate(MenuId::GarbageCollectInterval), None);
            push_entry(&mut items, "Cancel", MenuAction::Close, None);
        },
        MenuId::GarbageCollectInterval => {
            push_entry(&mut items, "Delete Old (nix-collect-garbage -d)", MenuAction::Execute(LocalAction::Gc(None)), None);
            push_entry(&mut items, "Older than 3 days", MenuAction::Execute(LocalAction::Gc(Some(owned("3d")))), None);
            push_entry(&mut items, "Older than 7 days", MenuAction::Execute(LocalAction::Gc(Some(owned("7d")))), None);
            push_entry(&mut items, "Older than 14 days", MenuAction::Execute(LocalAction::Gc(Some(owned("14d")))), None);
            push_entry(&mut items, "Older than 30 days", MenuAction::Execute(LocalAction::Gc(Some(owned("30d")))), None);
            push_entry(&mut items, "Back", MenuAction::Navigate(MenuId::NodeContext), None);
        },
    }
    items
}

} // verus!
