//! Interaction state and requested actions of the package workbench.

use vstd::prelude::*;

use crate::app_horizontal::{optional_span, optional_width, text_span, widest, widest_of, widest_text};
use crate::input::{Key, KeyPress};
use crate::package_model::{
    InstalledModel, InstalledService, KeptPackageModel, PackageEntryModel, PackageInfoModel,
    PackageWorkspaceEntry,
    ReleaseModel,
};
use crate::help::HelpVisibility;
use crate::text::{append_text, copy_optional_text, same_text, width};
use crate::text_view::{duration_nanos, max_int, min_int, sat_sub, HorizontalScroll, ScrollView};
use std::time::Duration;

verus! {

/// Top-level view of the workbench.
#[derive(Clone, Copy, Debug, PartialEq, Eq, Structural)]
pub enum PackageWorkspaceTab {
    /// Package files ready to use.
    Packages,
    /// Releases and recovery state of installed services.
    Installed,
}

/// Label of a workbench view.
pub open spec fn tab_label(tab: PackageWorkspaceTab) -> Seq<char> {
    match tab {
        PackageWorkspaceTab::Packages => "包文件"@,
        PackageWorkspaceTab::Installed => "已安装"@,
    }
}

impl PackageWorkspaceTab {
    /// Label shown for the view.
    pub fn label(self) -> (result: &'static str)
        ensures
            result@ == tab_label(self),
    {
        match self {
            PackageWorkspaceTab::Packages => "包文件",
            PackageWorkspaceTab::Installed => "已安装",
        }
    }
}

/// What the command line does after leaving the workbench.
#[derive(Clone, Debug)]
pub enum PackageWorkspaceExit {
    /// Return to the service overview.
    Back,
    /// Scan packages and installations again.
    Refresh,
    /// Pick an existing package to add.
    OpenPackage,
    /// Build a package from the context service.
    BuildPackage,
    /// Fully verify the package.
    Verify(String),
    /// Install the package.
    Install(String),
    /// Run the package temporarily.
    Run(String),
    /// Unpack the package.
    Extract(String),
    /// Deploy the package on bare metal.
    Deploy(String),
    /// Push a named export of the package.
    PushExport {
        /// Package to take the export from.
        package: String,
        /// Named export of the manifest.
        entry: String,
    },
    /// Roll back to the latest inactive release.
    Rollback(String),
    /// Recover an interrupted installation.
    Recover(String),
    /// Remove an installation from the center and delete its data.
    Purge(String),
    /// Remove an installation from the center and keep its data.
    Uninstall(String),
    /// Delete a package file.
    DeletePackage(String),
}

/// What to do after leaving the workbench, as a mathematical value.
pub ghost enum WorkspaceExitModel {
    Back,
    Refresh,
    OpenPackage,
    BuildPackage,
    Verify(Seq<char>),
    Install(Seq<char>),
    Run(Seq<char>),
    Extract(Seq<char>),
    Deploy(Seq<char>),
    PushExport(Seq<char>, Seq<char>),
    Rollback(Seq<char>),
    Recover(Seq<char>),
    Purge(Seq<char>),
    Uninstall(Seq<char>),
    DeletePackage(Seq<char>),
}

impl DeepView for PackageWorkspaceExit {
    type V = WorkspaceExitModel;

    open spec fn deep_view(&self) -> WorkspaceExitModel {
        match self {
            PackageWorkspaceExit::Back => WorkspaceExitModel::Back,
            PackageWorkspaceExit::Refresh => WorkspaceExitModel::Refresh,
            PackageWorkspaceExit::OpenPackage => WorkspaceExitModel::OpenPackage,
            PackageWorkspaceExit::BuildPackage => WorkspaceExitModel::BuildPackage,
            PackageWorkspaceExit::Verify(path) => WorkspaceExitModel::Verify(path@),
            PackageWorkspaceExit::Install(path) => WorkspaceExitModel::Install(path@),
            PackageWorkspaceExit::Run(path) => WorkspaceExitModel::Run(path@),
            PackageWorkspaceExit::Extract(path) => WorkspaceExitModel::Extract(path@),
            PackageWorkspaceExit::Deploy(path) => WorkspaceExitModel::Deploy(path@),
            PackageWorkspaceExit::PushExport { package, entry } => WorkspaceExitModel::PushExport(
                package@,
                entry@,
            ),
            PackageWorkspaceExit::Rollback(project) => WorkspaceExitModel::Rollback(project@),
            PackageWorkspaceExit::Recover(project) => WorkspaceExitModel::Recover(project@),
            PackageWorkspaceExit::Purge(project) => WorkspaceExitModel::Purge(project@),
            PackageWorkspaceExit::Uninstall(project) => WorkspaceExitModel::Uninstall(project@),
            PackageWorkspaceExit::DeletePackage(path) => WorkspaceExitModel::DeletePackage(path@),
        }
    }
}

/// Actions on the selected package file.
#[derive(Clone, Copy, Debug, PartialEq, Eq, Structural)]
pub enum PackageCommand {
    Verify,
    Install,
    Run,
    Extract,
    Deploy,
}

/// Exit that carries out a package action on a path.
pub open spec fn package_exit(command: PackageCommand, path: Seq<char>) -> WorkspaceExitModel {
    match command {
        PackageCommand::Verify => WorkspaceExitModel::Verify(path),
        PackageCommand::Install => WorkspaceExitModel::Install(path),
        PackageCommand::Run => WorkspaceExitModel::Run(path),
        PackageCommand::Extract => WorkspaceExitModel::Extract(path),
        PackageCommand::Deploy => WorkspaceExitModel::Deploy(path),
    }
}

/// Release management actions on the selected installation.
#[derive(Clone, Copy, Debug, PartialEq, Eq, Structural)]
pub enum ReleaseCommand {
    Rollback,
    Recover,
}

/// Exit that carries out a release action on a project.
pub open spec fn release_exit(command: ReleaseCommand, project: Seq<char>) -> WorkspaceExitModel {
    match command {
        ReleaseCommand::Rollback => WorkspaceExitModel::Rollback(project),
        ReleaseCommand::Recover => WorkspaceExitModel::Recover(project),
    }
}

/// Feedback when a release action finds no installation.
pub open spec fn release_empty_message(command: ReleaseCommand) -> Seq<char> {
    match command {
        ReleaseCommand::Rollback => "没有可回滚的已安装 Service"@,
        ReleaseCommand::Recover => "没有可恢复的已安装 Service"@,
    }
}

/// Widest text of a package file: path, diagnosis, project, digest, exports and platforms.
pub open spec fn package_extent(entry: PackageEntryModel) -> int {
    widest(
        seq![
            text_span(entry.0),
            optional_span(entry.2),
            info_extent(entry.1),
        ],
    )
}

/// Widest text of readable package information: project, digest, exports and platforms.
pub open spec fn info_extent(info: Option<PackageInfoModel>) -> int {
    match info {
        Some(info) => widest(
            seq![
                text_span(info.0),
                text_span(info.1),
                widest(info.2.map_values(|name: Seq<char>| text_span(name))),
                widest(info.3.map_values(|name: Seq<char>| text_span(name))),
            ],
        ),
        None => 0,
    }
}

/// Widest text of a release.
pub open spec fn release_extent(release: ReleaseModel) -> int {
    widest(seq![text_span(release.0), text_span(release.1), text_span(release.2)])
}

/// Widest text of a kept package.
pub open spec fn kept_extent(package: KeptPackageModel) -> int {
    widest(seq![text_span(package.0), optional_span(package.1), optional_span(package.2)])
}

/// Widest text of an installed service, its releases and kept packages included.
pub open spec fn installed_extent(service: InstalledModel) -> int {
    widest(
        seq![
            text_span(service.0),
            text_span(service.1),
            optional_span(service.2),
            widest(service.3.map_values(|release: ReleaseModel| release_extent(release))),
            widest(service.4.map_values(|package: KeptPackageModel| kept_extent(package))),
        ],
    )
}

/// Position of the first element at or after `start` whose key is `key`; -1 when none.
pub open spec fn key_position(keys: Seq<Seq<char>>, key: Seq<char>, start: int) -> int
    decreases keys.len() - start,
{
    if start < 0 || start >= keys.len() {
        -1
    } else if keys[start] == key {
        start
    } else {
        key_position(keys, key, start + 1)
    }
}

/// Lemma: a found key position lies within the keys.
pub proof fn lemma_key_position_bounds(keys: Seq<Seq<char>>, key: Seq<char>, start: int)
    ensures
        -1 <= key_position(keys, key, start) < keys.len(),
    decreases keys.len() - start,
{
    if 0 <= start < keys.len() && keys[start] != key {
        lemma_key_position_bounds(keys, key, start + 1);
    }
}

/// Selection kept across a rescan: the element with the same key, or the old index clamped.
pub open spec fn kept_selection(keys: Seq<Seq<char>>, key: Option<Seq<char>>, selected: int) -> int {
    let found = match key {
        Some(key) => key_position(keys, key, 0),
        None => -1,
    };
    if found >= 0 {
        found
    } else {
        min_int(selected, sat_sub(keys.len() as int, 1))
    }
}

/// Abstract state of the workbench.
pub ghost struct WorkspaceView {
    pub packages: Seq<PackageEntryModel>,
    pub installed: Seq<InstalledModel>,
    pub selected_package: int,
    pub selected_installed: int,
    pub tab: PackageWorkspaceTab,
    pub context_source: Option<Seq<char>>,
    pub control_allowed: bool,
    pub help_visible: bool,
    pub export_picker: Option<(Seq<char>, Seq<Seq<char>>, int)>,
    pub purge_confirmation: Option<Seq<char>>,
    pub uninstall_confirmation: Option<Seq<char>>,
    pub package_delete_confirmation: Option<Seq<char>>,
    pub feedback: Option<Seq<char>>,
    pub exit: Option<WorkspaceExitModel>,
    pub plain_mode: bool,
    pub scroll: ScrollView,
}

impl WorkspaceView {
    /// Selections point into their lists and an open export picker has a chosen entry.
    pub open spec fn valid(self) -> bool {
        &&& 0 <= self.selected_package
        &&& 0 <= self.selected_installed
        &&& self.selected_package == 0 || self.selected_package < self.packages.len()
        &&& self.selected_installed == 0 || self.selected_installed < self.installed.len()
        &&& match self.export_picker {
            Some(picker) => 0 <= picker.2 < picker.1.len(),
            None => true,
        }
    }

    /// The selected package file.
    pub open spec fn selected_entry(self) -> Option<PackageEntryModel> {
        if 0 <= self.selected_package < self.packages.len() {
            Some(self.packages[self.selected_package])
        } else {
            None
        }
    }

    /// The selected installation.
    pub open spec fn selected_service(self) -> Option<InstalledModel> {
        if 0 <= self.selected_installed < self.installed.len() {
            Some(self.installed[self.selected_installed])
        } else {
            None
        }
    }

    /// The state showing `text` as feedback.
    pub open spec fn told(self, text: Seq<char>) -> WorkspaceView {
        WorkspaceView { feedback: Some(text), ..self }
    }

    /// The state after switching between the two views.
    pub open spec fn tab_switched(self) -> WorkspaceView {
        WorkspaceView {
            tab: match self.tab {
                PackageWorkspaceTab::Packages => PackageWorkspaceTab::Installed,
                PackageWorkspaceTab::Installed => PackageWorkspaceTab::Packages,
            },
            ..self
        }
    }

    /// The state after selecting the next element of the current view, wrapping around.
    pub open spec fn selected_next(self) -> WorkspaceView {
        match self.tab {
            PackageWorkspaceTab::Packages => if self.packages.len() > 0 {
                WorkspaceView {
                    selected_package: (self.selected_package + 1) % (self.packages.len() as int),
                    ..self
                }
            } else {
                self
            },
            PackageWorkspaceTab::Installed => if self.installed.len() > 0 {
                WorkspaceView {
                    selected_installed: (self.selected_installed + 1) % (
                    self.installed.len() as int),
                    ..self
                }
            } else {
                self
            },
        }
    }

    /// The state after selecting the previous element of the current view, wrapping around.
    pub open spec fn selected_previous(self) -> WorkspaceView {
        match self.tab {
            PackageWorkspaceTab::Packages => if self.packages.len() > 0 {
                WorkspaceView {
                    selected_package: if self.selected_package > 0 {
                        self.selected_package - 1
                    } else {
                        self.packages.len() - 1
                    },
                    ..self
                }
            } else {
                self
            },
            PackageWorkspaceTab::Installed => if self.installed.len() > 0 {
                WorkspaceView {
                    selected_installed: if self.selected_installed > 0 {
                        self.selected_installed - 1
                    } else {
                        self.installed.len() - 1
                    },
                    ..self
                }
            } else {
                self
            },
        }
    }

    /// The state after asking for `command` on the selected package file.
    pub open spec fn package_requested(self, command: PackageCommand) -> WorkspaceView {
        if self.tab != PackageWorkspaceTab::Packages {
            self.told("切换到“包文件”后再执行该操作"@)
        } else {
            match self.selected_entry() {
                None => self.told("没有可操作的包；按 o 打开，或按 b 构建"@),
                Some(entry) => if entry.1 is None {
                    self.told("包清单不可读；仍可按 Delete Delete 或 X X 删除"@)
                } else {
                    WorkspaceView { exit: Some(package_exit(command, entry.0)), ..self }
                },
            }
        }
    }

    /// The state after asking to push an export: one export goes directly, several open the
    /// picker.
    pub open spec fn export_begun(self) -> WorkspaceView {
        if self.tab != PackageWorkspaceTab::Packages {
            self.told("切换到“包文件”后再选择导出项"@)
        } else {
            match self.selected_entry() {
                None => self.told("没有可导出的包"@),
                Some(entry) => match entry.1 {
                    None => self.told("包清单不可读，无法列出导出项"@),
                    Some(info) => if info.2.len() == 0 {
                        self.told("该包没有命名导出项"@)
                    } else if info.2.len() == 1 {
                        WorkspaceView {
                            exit: Some(WorkspaceExitModel::PushExport(entry.0, info.2[0])),
                            ..self
                        }
                    } else {
                        WorkspaceView { export_picker: Some((entry.0, info.2, 0)), ..self }
                    },
                },
            }
        }
    }

    /// The state after asking for a release action on the selected installation.
    pub open spec fn release_requested(self, command: ReleaseCommand) -> WorkspaceView {
        if self.tab != PackageWorkspaceTab::Installed {
            self.told("切换到“已安装”后再执行 release 管理"@)
        } else {
            match self.selected_service() {
                None => self.told(release_empty_message(command)),
                Some(service) => if service.2 is Some {
                    self.told("安装状态损坏；可按 U U 解除，或按 D D 永久删除安装数据"@)
                } else {
                    WorkspaceView { exit: Some(release_exit(command, service.0)), ..self }
                },
            }
        }
    }

    /// The state after asking to delete the selected package file; the second ask confirms.
    pub open spec fn deletion_requested(self) -> WorkspaceView {
        if self.tab != PackageWorkspaceTab::Packages {
            self.told("切换到“包文件”后再删除本地包"@)
        } else {
            match self.selected_entry() {
                None => self.told("没有可删除的包文件"@),
                Some(entry) => if self.package_delete_confirmation == Some(entry.0) {
                    WorkspaceView {
                        package_delete_confirmation: None,
                        exit: Some(WorkspaceExitModel::DeletePackage(entry.0)),
                        ..self
                    }
                } else {
                    WorkspaceView {
                        package_delete_confirmation: Some(entry.0),
                        feedback: Some(
                            "将永久删除包文件 `"@ + entry.0 + "`；再次按 Delete 或大写 X 确认"@,
                        ),
                        ..self
                    }
                },
            }
        }
    }

    /// The state after asking to purge the selected installation; the second ask confirms.
    pub open spec fn purge_requested(self) -> WorkspaceView {
        if self.tab != PackageWorkspaceTab::Installed {
            self.told("切换到“已安装”后再永久删除安装数据"@)
        } else {
            match self.selected_service() {
                None => self.told("没有可删除的已安装 Service"@),
                Some(service) => if self.purge_confirmation == Some(service.0) {
                    WorkspaceView {
                        purge_confirmation: None,
                        exit: Some(WorkspaceExitModel::Purge(service.0)),
                        ..self
                    }
                } else {
                    WorkspaceView {
                        purge_confirmation: Some(service.0),
                        feedback: Some(
                            "将永久删除 `"@ + service.0
                                + "` 的全部 release、状态和原始包；同名普通 Service 不受影响；再次按大写 D 确认"@,
                        ),
                        ..self
                    }
                },
            }
        }
    }

    /// The state after asking to uninstall the selected installation; the second ask confirms.
    pub open spec fn uninstall_requested(self) -> WorkspaceView {
        if self.tab != PackageWorkspaceTab::Installed {
            self.told("切换到“已安装”后再解除安装"@)
        } else {
            match self.selected_service() {
                None => self.told("没有可解除的已安装 Service"@),
                Some(service) => if self.uninstall_confirmation == Some(service.0) {
                    WorkspaceView {
                        uninstall_confirmation: None,
                        exit: Some(WorkspaceExitModel::Uninstall(service.0)),
                        ..self
                    }
                } else {
                    WorkspaceView {
                        uninstall_confirmation: Some(service.0),
                        feedback: Some(
                            "将解除 `"@ + service.0
                                + "` 的包托管注册并保留 release 和原始包；同名普通 Service 不受影响；再次按大写 U 确认"@,
                        ),
                        ..self
                    }
                },
            }
        }
    }

    /// Widest text of the context source and the feedback.
    pub open spec fn common_extent(self) -> int {
        max_int(optional_span(self.context_source), optional_span(self.feedback))
    }

    /// Largest offset of the highlighted texts of the current view.
    pub open spec fn selected_text_maximum(self) -> int {
        sat_sub(
            max_int(
                self.common_extent(),
                match self.tab {
                    PackageWorkspaceTab::Packages => match self.selected_entry() {
                        Some(entry) => package_extent(entry),
                        None => 0,
                    },
                    PackageWorkspaceTab::Installed => match self.selected_service() {
                        Some(service) => installed_extent(service),
                        None => 0,
                    },
                },
            ),
            1,
        )
    }

    /// Largest offset of all folded texts of the workbench.
    pub open spec fn all_text_maximum(self) -> int {
        sat_sub(
            max_int(
                max_int(
                    self.common_extent(),
                    widest(self.packages.map_values(|entry: PackageEntryModel| package_extent(entry))),
                ),
                widest(self.installed.map_values(|service: InstalledModel| installed_extent(service))),
            ),
            1,
        )
    }

    /// The state after one manual horizontal move of the highlighted texts.
    pub open spec fn moved_horizontally(self, forward: bool) -> WorkspaceView {
        WorkspaceView { scroll: self.scroll.moved(forward, self.selected_text_maximum()), ..self }
    }

    /// The state after `elapsed` nanoseconds of automatic scrolling, and whether to redraw.
    pub open spec fn auto_advanced(self, elapsed: int) -> (WorkspaceView, bool) {
        let (scroll, redraw) = self.scroll.advanced(elapsed, self.all_text_maximum());
        (WorkspaceView { scroll, ..self }, redraw)
    }

    /// The state after a key in the export picker, and whether the key acted.
    pub open spec fn export_key(self, key: Key) -> (WorkspaceView, bool) {
        match self.export_picker {
            None => (self, false),
            Some(picker) => {
                let count = picker.1.len() as int;
                if key == Key::Esc || key == Key::Char('q') {
                    (WorkspaceView { export_picker: None, ..self }, true)
                } else if key == Key::Down || key == Key::Char('j') {
                    (
                        WorkspaceView {
                            export_picker: Some((picker.0, picker.1, (picker.2 + 1) % count)),
                            ..self
                        },
                        true,
                    )
                } else if key == Key::Up || key == Key::Char('k') {
                    (
                        WorkspaceView {
                            export_picker: Some(
                                (
                                    picker.0,
                                    picker.1,
                                    if picker.2 > 0 {
                                        picker.2 - 1
                                    } else {
                                        count - 1
                                    },
                                ),
                            ),
                            ..self
                        },
                        true,
                    )
                } else if key == Key::Enter {
                    (
                        WorkspaceView {
                            exit: Some(WorkspaceExitModel::PushExport(picker.0, picker.1[picker.2])),
                            export_picker: None,
                            ..self
                        },
                        true,
                    )
                } else {
                    (self, false)
                }
            },
        }
    }

    /// Whether a key deletes the selected package file.
    pub open spec fn deletes_package(key: Key) -> bool {
        key == Key::Delete || key == Key::Char('X')
    }

    /// The state after the action bound to `key`, once unrelated confirmations are gone, and
    /// whether a binding acted.
    pub open spec fn key_applied(self, key: Key) -> (WorkspaceView, bool) {
        let control = self.control_allowed;
        if key == Key::Esc || key == Key::Char('q') {
            (WorkspaceView { exit: Some(WorkspaceExitModel::Back), ..self }, true)
        } else if key == Key::Char('?') {
            (WorkspaceView { help_visible: true, ..self }, true)
        } else if key == Key::Tab || key == Key::BackTab {
            (self.tab_switched(), true)
        } else if key == Key::Down || key == Key::Char('j') {
            (self.selected_next(), true)
        } else if key == Key::Up || key == Key::Char('k') {
            (self.selected_previous(), true)
        } else if key == Key::Left {
            (self.moved_horizontally(false), true)
        } else if key == Key::Right {
            (self.moved_horizontally(true), true)
        } else if key == Key::F(3) {
            (
                WorkspaceView {
                    scroll: ScrollView { auto_on: !self.scroll.auto_on, ..self.scroll.reset() },
                    ..self
                },
                true,
            )
        } else if key == Key::Char('r') {
            (WorkspaceView { exit: Some(WorkspaceExitModel::Refresh), ..self }, true)
        } else if key == Key::Char('o') {
            (WorkspaceView { exit: Some(WorkspaceExitModel::OpenPackage), ..self }, true)
        } else if key == Key::Char('b') && control {
            (WorkspaceView { exit: Some(WorkspaceExitModel::BuildPackage), ..self }, true)
        } else if key == Key::Char('v') {
            (self.package_requested(PackageCommand::Verify), true)
        } else if key == Key::Char('i') && control {
            (self.package_requested(PackageCommand::Install), true)
        } else if key == Key::Char('t') && control {
            (self.package_requested(PackageCommand::Run), true)
        } else if key == Key::Char('x') {
            (self.package_requested(PackageCommand::Extract), true)
        } else if key == Key::Char('d') && control {
            (self.package_requested(PackageCommand::Deploy), true)
        } else if key == Key::Char('u') && control {
            (self.export_begun(), true)
        } else if key == Key::Char('R') && control {
            (self.release_requested(ReleaseCommand::Rollback), true)
        } else if key == Key::Char('c') && control {
            (self.release_requested(ReleaseCommand::Recover), true)
        } else if key == Key::Char('D') && control {
            (self.purge_requested(), true)
        } else if key == Key::Char('U') && control {
            (self.uninstall_requested(), true)
        } else if Self::deletes_package(key) && control {
            (self.deletion_requested(), true)
        } else {
            (self, false)
        }
    }

    /// The state after one key on the workbench, and whether the key acted.
    pub open spec fn key_handled(self, key: Key) -> (WorkspaceView, bool) {
        if self.help_visible {
            if key == Key::Char('?') || key == Key::Char('q') || key == Key::Esc {
                (WorkspaceView { help_visible: false, ..self }, true)
            } else {
                (self, false)
            }
        } else if self.export_picker is Some {
            self.export_key(key)
        } else {
            let prepared = WorkspaceView {
                purge_confirmation: if key == Key::Char('D') {
                    self.purge_confirmation
                } else {
                    None
                },
                uninstall_confirmation: if key == Key::Char('U') {
                    self.uninstall_confirmation
                } else {
                    None
                },
                package_delete_confirmation: if Self::deletes_package(key) {
                    self.package_delete_confirmation
                } else {
                    None
                },
                ..self
            };
            prepared.key_applied(key)
        }
    }

    /// The state after a key press, Control-C going back, and whether the key acted.
    pub open spec fn key_press_handled(self, key: KeyPress) -> (WorkspaceView, bool) {
        if key.code == Key::Char('c') && key.control {
            (WorkspaceView { exit: Some(WorkspaceExitModel::Back), ..self }, true)
        } else {
            self.key_handled(key.code)
        }
    }
}

/// Widest text of a package file.
fn package_entry_text_length(entry: &PackageWorkspaceEntry) -> (result: usize)
    ensures
        result == package_extent(entry.deep_view()),
{
    let details = match &entry.info {
        Some(info) => {
            let parts = [
                width(info.project.as_str()),
                width(info.package_digest.as_str()),
                widest_text(&info.exports),
                widest_text(&info.platforms),
            ];
            let result = widest_of(&parts);
            assert(parts@.map_values(|value: usize| value as int) == seq![
                text_span(info.deep_view().0),
                text_span(info.deep_view().1),
                widest(info.deep_view().2.map_values(|name: Seq<char>| text_span(name))),
                widest(info.deep_view().3.map_values(|name: Seq<char>| text_span(name))),
            ]);
            result
        },
        None => 0,
    };
    let parts = [width(entry.path.as_str()), optional_width(&entry.error), details];
    let result = widest_of(&parts);
    assert(parts@.map_values(|value: usize| value as int) == seq![
        text_span(entry.deep_view().0),
        optional_span(entry.deep_view().2),
        info_extent(entry.deep_view().1),
    ]);
    result
}

/// Widest text of an installed service, its releases and kept packages included.
fn installed_service_text_length(service: &InstalledService) -> (result: usize)
    ensures
        result == installed_extent(service.deep_view()),
{
    let ghost releases = service.releases.deep_view().map_values(
        |release: ReleaseModel| release_extent(release),
    );
    let mut widest_release: usize = 0;
    let mut index: usize = 0;
    while index < service.releases.len()
        invariant
            index <= service.releases@.len(),
            releases == service.releases.deep_view().map_values(
                |release: ReleaseModel| release_extent(release),
            ),
            widest_release == widest(releases.take(index as int)),
        decreases service.releases@.len() - index,
    {
        proof {
            crate::app_horizontal::lemma_widest_step(releases, index as int);
        }
        let release = &service.releases[index];
        let parts = [
            width(release.id.as_str()),
            width(release.sha256.as_str()),
            width(release.config_path.as_str()),
        ];
        let extent = widest_of(&parts);
        assert(parts@.map_values(|value: usize| value as int) == seq![
            text_span(release.deep_view().0),
            text_span(release.deep_view().1),
            text_span(release.deep_view().2),
        ]);
        if extent > widest_release {
            widest_release = extent;
        }
        index += 1;
    }
    assert(releases.take(releases.len() as int) == releases);
    let ghost kept = service.packages.deep_view().map_values(
        |package: KeptPackageModel| kept_extent(package),
    );
    let mut widest_kept: usize = 0;
    let mut index: usize = 0;
    while index < service.packages.len()
        invariant
            index <= service.packages@.len(),
            kept == service.packages.deep_view().map_values(
                |package: KeptPackageModel| kept_extent(package),
            ),
            widest_kept == widest(kept.take(index as int)),
        decreases service.packages@.len() - index,
    {
        proof {
            crate::app_horizontal::lemma_widest_step(kept, index as int);
        }
        let package = &service.packages[index];
        let parts = [
            width(package.path.as_str()),
            optional_width(&package.package_digest),
            optional_width(&package.error),
        ];
        let extent = widest_of(&parts);
        assert(parts@.map_values(|value: usize| value as int) == seq![
            text_span(package.deep_view().0),
            optional_span(package.deep_view().1),
            optional_span(package.deep_view().2),
        ]);
        if extent > widest_kept {
            widest_kept = extent;
        }
        index += 1;
    }
    assert(kept.take(kept.len() as int) == kept);
    let parts = [
        width(service.project.as_str()),
        width(service.root.as_str()),
        optional_width(&service.error),
        widest_release,
        widest_kept,
    ];
    let result = widest_of(&parts);
    assert(parts@.map_values(|value: usize| value as int) == seq![
        text_span(service.deep_view().0),
        text_span(service.deep_view().1),
        optional_span(service.deep_view().2),
        widest(releases),
        widest(kept),
    ]);
    result
}

/// Inline choice among several named exports of a package.
struct ExportPicker {
    package: String,
    entries: Vec<String>,
    selected: usize,
}

/// Testable interface state of the package workbench.
pub struct PackageWorkspaceApp {
    packages: Vec<PackageWorkspaceEntry>,
    installed: Vec<InstalledService>,
    selected_package: usize,
    selected_installed: usize,
    tab: PackageWorkspaceTab,
    context_source: Option<String>,
    control_allowed: bool,
    help_visibility: HelpVisibility,
    export_picker: Option<ExportPicker>,
    purge_confirmation: Option<String>,
    uninstall_confirmation: Option<String>,
    package_delete_confirmation: Option<String>,
    feedback: Option<String>,
    exit: Option<PackageWorkspaceExit>,
    plain_mode: bool,
    horizontal_scroll: HorizontalScroll,
}

impl View for PackageWorkspaceApp {
    type V = WorkspaceView;

    closed spec fn view(&self) -> WorkspaceView {
        WorkspaceView {
            packages: self.packages.deep_view(),
            installed: self.installed.deep_view(),
            selected_package: self.selected_package as int,
            selected_installed: self.selected_installed as int,
            tab: self.tab,
            context_source: self.context_source.deep_view(),
            control_allowed: self.control_allowed,
            help_visible: self.help_visibility == HelpVisibility::Visible,
            export_picker: match &self.export_picker {
                Some(picker) => Some(
                    (picker.package@, picker.entries.deep_view(), picker.selected as int),
                ),
                None => None,
            },
            purge_confirmation: self.purge_confirmation.deep_view(),
            uninstall_confirmation: self.uninstall_confirmation.deep_view(),
            package_delete_confirmation: self.package_delete_confirmation.deep_view(),
            feedback: self.feedback.deep_view(),
            exit: self.exit.deep_view(),
            plain_mode: self.plain_mode,
            scroll: self.horizontal_scroll@,
        }
    }
}

/// Exit carrying out a package action on a path.
fn command_exit(command: PackageCommand, path: String) -> (result: PackageWorkspaceExit)
    ensures
        result.deep_view() == package_exit(command, path@),
{
    match command {
        PackageCommand::Verify => PackageWorkspaceExit::Verify(path),
        PackageCommand::Install => PackageWorkspaceExit::Install(path),
        PackageCommand::Run => PackageWorkspaceExit::Run(path),
        PackageCommand::Extract => PackageWorkspaceExit::Extract(path),
        PackageCommand::Deploy => PackageWorkspaceExit::Deploy(path),
    }
}

impl PackageWorkspaceApp {
    /// Workbench showing package files beside installed services.
    pub fn new(
        packages: Vec<PackageWorkspaceEntry>,
        installed: Vec<InstalledService>,
        context_source: Option<String>,
        plain_mode: bool,
    ) -> (result: PackageWorkspaceApp)
        ensures
            result@.valid(),
            result@ == (WorkspaceView {
                packages: packages.deep_view(),
                installed: installed.deep_view(),
                selected_package: 0,
                selected_installed: 0,
                tab: PackageWorkspaceTab::Packages,
                context_source: context_source.deep_view(),
                control_allowed: false,
                help_visible: false,
                export_picker: None,
                purge_confirmation: None,
                uninstall_confirmation: None,
                package_delete_confirmation: None,
                feedback: None,
                exit: None,
                plain_mode,
                scroll: ScrollView { manual: 0, auto_on: false, automatic: 0, remainder: 0, freeze: 0 },
            }),
    {
        PackageWorkspaceApp {
            packages,
            installed,
            selected_package: 0,
            selected_installed: 0,
            tab: PackageWorkspaceTab::Packages,
            context_source,
            control_allowed: false,
            help_visibility: HelpVisibility::Hidden,
            export_picker: None,
            purge_confirmation: None,
            uninstall_confirmation: None,
            package_delete_confirmation: None,
            feedback: None,
            exit: None,
            plain_mode,
            horizontal_scroll: HorizontalScroll::new(),
        }
    }

    /// Handles a key press; Control-C goes back. Returns whether the key acted.
    pub fn handle_key_event(&mut self, key: KeyPress) -> (result: bool)
        requires
            old(self)@.valid(),
        ensures
            (final(self)@, result) == old(self)@.key_press_handled(key),
            final(self)@.valid(),
    {
        if key.code == Key::Char('c') && key.control {
            self.exit = Some(PackageWorkspaceExit::Back);
            return true;
        }
        self.handle_key(key.code)
    }

    /// Handles one key; returns whether it acted.
    pub fn handle_key(&mut self, key: Key) -> (result: bool)
        requires
            old(self)@.valid(),
        ensures
            (final(self)@, result) == old(self)@.key_handled(key),
            final(self)@.valid(),
    {
        if self.help_visibility.visible() {
            if key == Key::Char('?') || key == Key::Char('q') || key == Key::Esc {
                self.help_visibility.close();
                return true;
            }
            return false;
        }
        if self.export_picker.is_some() {
            return self.handle_export_key(key);
        }
        if key != Key::Char('D') {
            self.purge_confirmation = None;
        }
        if key != Key::Char('U') {
            self.uninstall_confirmation = None;
        }
        if key != Key::Delete && key != Key::Char('X') {
            self.package_delete_confirmation = None;
        }
        self.apply_key(key)
    }

    /// Performs the action bound to a key; returns whether one is bound.
    fn apply_key(&mut self, key: Key) -> (result: bool)
        requires
            old(self)@.valid(),
            old(self)@.export_picker is None,
        ensures
            (final(self)@, result) == old(self)@.key_applied(key),
            final(self)@.valid(),
    {
        let control = self.control_allowed;
        if key == Key::Esc || key == Key::Char('q') {
            self.exit = Some(PackageWorkspaceExit::Back);
        } else if key == Key::Char('?') {
            self.help_visibility.show();
        } else if key == Key::Tab || key == Key::BackTab {
            self.switch_tab();
        } else if key == Key::Down || key == Key::Char('j') {
            self.select_next();
        } else if key == Key::Up || key == Key::Char('k') {
            self.select_previous();
        } else if key == Key::Left {
            self.scroll_horizontal(false);
        } else if key == Key::Right {
            self.scroll_horizontal(true);
        } else if key == Key::F(3) {
            self.horizontal_scroll.toggle_auto();
        } else if key == Key::Char('r') {
            self.exit = Some(PackageWorkspaceExit::Refresh);
        } else if key == Key::Char('o') {
            self.exit = Some(PackageWorkspaceExit::OpenPackage);
        } else if key == Key::Char('b') && control {
            self.exit = Some(PackageWorkspaceExit::BuildPackage);
        } else if key == Key::Char('v') {
            self.package_action(PackageCommand::Verify);
        } else if key == Key::Char('i') && control {
            self.package_action(PackageCommand::Install);
        } else if key == Key::Char('t') && control {
            self.package_action(PackageCommand::Run);
        } else if key == Key::Char('x') {
            self.package_action(PackageCommand::Extract);
        } else if key == Key::Char('d') && control {
            self.package_action(PackageCommand::Deploy);
        } else if key == Key::Char('u') && control {
            self.begin_export();
        } else if key == Key::Char('R') && control {
            self.installed_action(ReleaseCommand::Rollback);
        } else if key == Key::Char('c') && control {
            self.installed_action(ReleaseCommand::Recover);
        } else if key == Key::Char('D') && control {
            self.confirm_purge();
        } else if key == Key::Char('U') && control {
            self.confirm_uninstall();
        } else if (key == Key::Delete || key == Key::Char('X')) && control {
            self.confirm_package_delete();
        } else {
            return false;
        }
        true
    }

    /// Takes the pending navigation or action.
    pub fn take_exit(&mut self) -> (result: Option<PackageWorkspaceExit>)
        ensures
            result.deep_view() == old(self)@.exit,
            final(self)@ == (WorkspaceView { exit: None, ..old(self)@ }),
    {
        self.exit.take()
    }

    /// Shows the result of the latest operation.
    pub fn set_feedback(&mut self, feedback: String)
        ensures
            final(self)@ == old(self)@.told(feedback@),
    {
        self.feedback = Some(feedback);
    }

    /// Takes a fresh scan, keeping the selected package and installation selected when they
    /// are still there.
    pub fn replace_data(&mut self, packages: Vec<PackageWorkspaceEntry>, installed: Vec<InstalledService>)
        requires
            old(self)@.valid(),
        ensures
            final(self)@ == (WorkspaceView {
                packages: packages.deep_view(),
                installed: installed.deep_view(),
                selected_package: kept_selection(
                    packages.deep_view().map_values(|entry: PackageEntryModel| entry.0),
                    match old(self)@.selected_entry() {
                        Some(entry) => Some(entry.0),
                        None => None,
                    },
                    old(self)@.selected_package,
                ),
                selected_installed: kept_selection(
                    installed.deep_view().map_values(|service: InstalledModel| service.0),
                    match old(self)@.selected_service() {
                        Some(service) => Some(service.0),
                        None => None,
                    },
                    old(self)@.selected_installed,
                ),
                ..old(self)@
            }),
            final(self)@.valid(),
    {
        let selected_path = match self.selected_package() {
            Some(entry) => Some(entry.path.clone()),
            None => None,
        };
        let selected_project = match self.selected_installed() {
            Some(service) => Some(service.project.clone()),
            None => None,
        };
        self.packages = packages;
        self.installed = installed;
        let ghost paths = self.packages.deep_view().map_values(|entry: PackageEntryModel| entry.0);
        let ghost projects = self.installed.deep_view().map_values(
            |service: InstalledModel| service.0,
        );
        let mut found: Option<usize> = None;
        if let Some(path) = &selected_path {
            let mut index: usize = 0;
            while index < self.packages.len()
                invariant_except_break
                    found is None,
                invariant
                    index <= paths.len(),
                    paths == self.packages.deep_view().map_values(
                        |entry: PackageEntryModel| entry.0,
                    ),
                    key_position(paths, path@, index as int) == key_position(paths, path@, 0),
                ensures
                    match found {
                        Some(position) => position == key_position(paths, path@, 0),
                        None => key_position(paths, path@, 0) == -1,
                    },
                decreases paths.len() - index,
            {
                if same_text(&self.packages[index].path, path) {
                    found = Some(index);
                    break;
                }
                index += 1;
            }
            proof {
                lemma_key_position_bounds(paths, path@, 0);
            }
        }
        self.selected_package = match found {
            Some(position) => position,
            None => {
                let last = self.packages.len().saturating_sub(1);
                if self.selected_package < last {
                    self.selected_package
                } else {
                    last
                }
            },
        };
        let mut found: Option<usize> = None;
        if let Some(project) = &selected_project {
            let mut index: usize = 0;
            while index < self.installed.len()
                invariant_except_break
                    found is None,
                invariant
                    index <= projects.len(),
                    projects == self.installed.deep_view().map_values(
                        |service: InstalledModel| service.0,
                    ),
                    key_position(projects, project@, index as int) == key_position(
                        projects,
                        project@,
                        0,
                    ),
                ensures
                    match found {
                        Some(position) => position == key_position(projects, project@, 0),
                        None => key_position(projects, project@, 0) == -1,
                    },
                decreases projects.len() - index,
            {
                if same_text(&self.installed[index].project, project) {
                    found = Some(index);
                    break;
                }
                index += 1;
            }
            proof {
                lemma_key_position_bounds(projects, project@, 0);
            }
        }
        self.selected_installed = match found {
            Some(position) => position,
            None => {
                let last = self.installed.len().saturating_sub(1);
                if self.selected_installed < last {
                    self.selected_installed
                } else {
                    last
                }
            },
        };
    }

    /// Sets whether this session may cause side effects.
    pub fn set_control_allowed(&mut self, allowed: bool)
        ensures
            final(self)@ == (WorkspaceView { control_allowed: allowed, ..old(self)@ }),
    {
        self.control_allowed = allowed;
    }

    /// Sets plain text display.
    pub fn set_plain_mode(&mut self, plain: bool)
        ensures
            final(self)@ == (WorkspaceView { plain_mode: plain, ..old(self)@ }),
    {
        self.plain_mode = plain;
    }

    /// The current view.
    pub fn tab(&self) -> (result: PackageWorkspaceTab)
        ensures
            result == self@.tab,
    {
        self.tab
    }

    /// All package files.
    pub fn packages(&self) -> (result: &[PackageWorkspaceEntry])
        ensures
            result@.map_values(|entry: PackageWorkspaceEntry| entry.deep_view()) == self@.packages,
    {
        proof {
            assert(self.packages@.map_values(|entry: PackageWorkspaceEntry| entry.deep_view())
                =~= self.packages.deep_view());
        }
        self.packages.as_slice()
    }

    /// All installed services.
    pub fn installed(&self) -> (result: &[InstalledService])
        ensures
            result@.map_values(|service: InstalledService| service.deep_view()) == self@.installed,
    {
        proof {
            assert(self.installed@.map_values(|service: InstalledService| service.deep_view())
                =~= self.installed.deep_view());
        }
        self.installed.as_slice()
    }

    /// Index of the selected package file.
    pub fn selected_package_index(&self) -> (result: usize)
        ensures
            result == self@.selected_package,
    {
        self.selected_package
    }

    /// Index of the selected installation.
    pub fn selected_installed_index(&self) -> (result: usize)
        ensures
            result == self@.selected_installed,
    {
        self.selected_installed
    }

    /// The selected package file.
    pub fn selected_package(&self) -> (result: Option<&PackageWorkspaceEntry>)
        ensures
            match result {
                Some(entry) => self@.selected_entry() == Some(entry.deep_view()),
                None => self@.selected_entry() is None,
            },
    {
        if self.selected_package < self.packages.len() {
            Some(&self.packages[self.selected_package])
        } else {
            None
        }
    }

    /// The selected installation.
    pub fn selected_installed(&self) -> (result: Option<&InstalledService>)
        ensures
            match result {
                Some(service) => self@.selected_service() == Some(service.deep_view()),
                None => self@.selected_service() is None,
            },
    {
        if self.selected_installed < self.installed.len() {
            Some(&self.installed[self.selected_installed])
        } else {
            None
        }
    }

    /// Service source the workbench was opened for.
    pub fn context_source(&self) -> (result: Option<&str>)
        ensures
            match result {
                Some(text) => self@.context_source == Some(text@),
                None => self@.context_source is None,
            },
    {
        match &self.context_source {
            Some(text) => Some(text.as_str()),
            None => None,
        }
    }

    /// Latest operation feedback.
    pub fn feedback(&self) -> (result: Option<&str>)
        ensures
            match result {
                Some(text) => self@.feedback == Some(text@),
                None => self@.feedback is None,
            },
    {
        match &self.feedback {
            Some(text) => Some(text.as_str()),
            None => None,
        }
    }

    /// Whether actions with side effects are allowed.
    pub fn control_allowed(&self) -> (result: bool)
        ensures
            result == self@.control_allowed,
    {
        self.control_allowed
    }

    /// Whether the help overlay is shown.
    pub fn help_visible(&self) -> (result: bool)
        ensures
            result == self@.help_visible,
    {
        self.help_visibility.visible()
    }

    /// Whether plain text display is on.
    pub fn plain_mode(&self) -> (result: bool)
        ensures
            result == self@.plain_mode,
    {
        self.plain_mode
    }

    /// The open export picker: its entries and the chosen one.
    pub fn export_picker(&self) -> (result: Option<(&[String], usize)>)
        ensures
            match result {
                Some((entries, selected)) => self@.export_picker matches Some(picker) && entries@.map_values(
                    |entry: String| entry@,
                ) == picker.1 && selected == picker.2,
                None => self@.export_picker is None,
            },
    {
        match &self.export_picker {
            Some(picker) => {
                proof {
                    assert(picker.entries@.map_values(|entry: String| entry@)
                        =~= picker.entries.deep_view());
                }
                Some((picker.entries.as_slice(), picker.selected))
            },
            None => None,
        }
    }

    /// Project waiting for the second purge confirmation.
    pub fn purge_confirmation(&self) -> (result: Option<&str>)
        ensures
            match result {
                Some(text) => self@.purge_confirmation == Some(text@),
                None => self@.purge_confirmation is None,
            },
    {
        match &self.purge_confirmation {
            Some(text) => Some(text.as_str()),
            None => None,
        }
    }

    /// Offset a folded text should use.
    pub fn text_offset(&self, selected: bool) -> (result: usize)
        ensures
            result == self@.scroll.offset_for(selected),
    {
        self.horizontal_scroll.offset(selected)
    }

    /// Offset of texts that are not highlighted.
    pub fn automatic_text_offset(&self) -> (result: usize)
        ensures
            result == (if self@.scroll.auto_on {
                self@.scroll.automatic
            } else {
                0
            }),
    {
        self.horizontal_scroll.automatic_offset()
    }

    /// Whether automatic horizontal scrolling is on.
    pub fn auto_scroll_enabled(&self) -> (result: bool)
        ensures
            result == self@.scroll.auto_on,
    {
        self.horizontal_scroll.auto_enabled()
    }

    /// Whether the highlighted text is frozen after a manual move.
    pub fn manual_scroll_frozen(&self) -> (result: bool)
        ensures
            result == self@.scroll.frozen(),
    {
        self.horizontal_scroll.manual_frozen()
    }

    /// Advances automatic scrolling of all folded texts; returns whether a redraw is due.
    pub fn advance_auto_scroll(&mut self, elapsed: Duration) -> (result: bool)
        ensures
            (final(self)@, result) == old(self)@.auto_advanced(duration_nanos(elapsed) as int),
    {
        let maximum = self.all_text_maximum();
        self.horizontal_scroll.advance(elapsed, maximum)
    }

    /// Switches between the two views.
    fn switch_tab(&mut self)
        ensures
            final(self)@ == old(self)@.tab_switched(),
    {
        self.tab = match self.tab {
            PackageWorkspaceTab::Packages => PackageWorkspaceTab::Installed,
            PackageWorkspaceTab::Installed => PackageWorkspaceTab::Packages,
        };
    }

    /// Selects the next element of the current view.
    fn select_next(&mut self)
        requires
            old(self)@.valid(),
        ensures
            final(self)@ == old(self)@.selected_next(),
            final(self)@.valid(),
    {
        match self.tab {
            PackageWorkspaceTab::Packages => if self.packages.len() > 0 {
                self.selected_package = (self.selected_package + 1) % self.packages.len();
            },
            PackageWorkspaceTab::Installed => if self.installed.len() > 0 {
                self.selected_installed = (self.selected_installed + 1) % self.installed.len();
            },
        }
    }

    /// Selects the previous element of the current view.
    fn select_previous(&mut self)
        requires
            old(self)@.valid(),
        ensures
            final(self)@ == old(self)@.selected_previous(),
            final(self)@.valid(),
    {
        match self.tab {
            PackageWorkspaceTab::Packages => if self.packages.len() > 0 {
                self.selected_package = if self.selected_package > 0 {
                    self.selected_package - 1
                } else {
                    self.packages.len() - 1
                };
            },
            PackageWorkspaceTab::Installed => if self.installed.len() > 0 {
                self.selected_installed = if self.selected_installed > 0 {
                    self.selected_installed - 1
                } else {
                    self.installed.len() - 1
                };
            },
        }
    }

    /// Requests an action on the selected package file.
    fn package_action(&mut self, command: PackageCommand)
        ensures
            final(self)@ == old(self)@.package_requested(command),
    {
        if self.tab != PackageWorkspaceTab::Packages {
            self.feedback = Some("切换到“包文件”后再执行该操作".to_owned());
            return;
        }
        let path = match self.selected_package() {
            None => {
                self.feedback = Some("没有可操作的包；按 o 打开，或按 b 构建".to_owned());
                return;
            },
            Some(entry) => {
                if entry.info.is_none() {
                    self.feedback = Some("包清单不可读；仍可按 Delete Delete 或 X X 删除".to_owned());
                    return;
                }
                entry.path.clone()
            },
        };
        self.exit = Some(command_exit(command, path));
    }

    /// Pushes the only export directly, or opens the picker for several.
    fn begin_export(&mut self)
        requires
            old(self)@.valid(),
        ensures
            final(self)@ == old(self)@.export_begun(),
            final(self)@.valid(),
    {
        if self.tab != PackageWorkspaceTab::Packages {
            self.feedback = Some("切换到“包文件”后再选择导出项".to_owned());
            return;
        }
        let (path, entries) = match self.selected_package() {
            None => {
                self.feedback = Some("没有可导出的包".to_owned());
                return;
            },
            Some(entry) => match &entry.info {
                None => {
                    self.feedback = Some("包清单不可读，无法列出导出项".to_owned());
                    return;
                },
                Some(info) => (entry.path.clone(), crate::text::copy_text_list(&info.exports)),
            },
        };
        if entries.len() == 0 {
            self.feedback = Some("该包没有命名导出项".to_owned());
        } else if entries.len() == 1 {
            let only = entries[0].clone();
            self.exit = Some(PackageWorkspaceExit::PushExport { package: path, entry: only });
        } else {
            self.export_picker = Some(ExportPicker { package: path, entries, selected: 0 });
        }
    }

    /// Requests a release action on the selected installation.
    fn installed_action(&mut self, command: ReleaseCommand)
        ensures
            final(self)@ == old(self)@.release_requested(command),
    {
        if self.tab != PackageWorkspaceTab::Installed {
            self.feedback = Some("切换到“已安装”后再执行 release 管理".to_owned());
            return;
        }
        let project = match self.selected_installed() {
            None => {
                self.feedback = Some(
                    match command {
                        ReleaseCommand::Rollback => "没有可回滚的已安装 Service",
                        ReleaseCommand::Recover => "没有可恢复的已安装 Service",
                    }.to_owned(),
                );
                return;
            },
            Some(service) => {
                if service.error.is_some() {
                    self.feedback = Some(
                        "安装状态损坏；可按 U U 解除，或按 D D 永久删除安装数据".to_owned(),
                    );
                    return;
                }
                service.project.clone()
            },
        };
        self.exit = Some(
            match command {
                ReleaseCommand::Rollback => PackageWorkspaceExit::Rollback(project),
                ReleaseCommand::Recover => PackageWorkspaceExit::Recover(project),
            },
        );
    }

    /// Two presses of Delete or `X` delete the selected package file.
    fn confirm_package_delete(&mut self)
        ensures
            final(self)@ == old(self)@.deletion_requested(),
    {
        if self.tab != PackageWorkspaceTab::Packages {
            self.feedback = Some("切换到“包文件”后再删除本地包".to_owned());
            return;
        }
        let path = match self.selected_package() {
            Some(entry) => entry.path.clone(),
            None => {
                self.feedback = Some("没有可删除的包文件".to_owned());
                return;
            },
        };
        let confirmed = match &self.package_delete_confirmation {
            Some(pending) => same_text(pending, &path),
            None => false,
        };
        if confirmed {
            self.package_delete_confirmation = None;
            self.exit = Some(PackageWorkspaceExit::DeletePackage(path));
        } else {
            let mut feedback = "将永久删除包文件 `".to_owned();
            append_text(&mut feedback, path.as_str());
            append_text(&mut feedback, "`；再次按 Delete 或大写 X 确认");
            self.package_delete_confirmation = Some(path);
            self.feedback = Some(feedback);
        }
    }

    /// Two presses of `D` purge the selected installation's data.
    fn confirm_purge(&mut self)
        ensures
            final(self)@ == old(self)@.purge_requested(),
    {
        if self.tab != PackageWorkspaceTab::Installed {
            self.feedback = Some("切换到“已安装”后再永久删除安装数据".to_owned());
            return;
        }
        let project = match self.selected_installed() {
            Some(service) => service.project.clone(),
            None => {
                self.feedback = Some("没有可删除的已安装 Service".to_owned());
                return;
            },
        };
        let confirmed = match &self.purge_confirmation {
            Some(pending) => same_text(pending, &project),
            None => false,
        };
        if confirmed {
            self.purge_confirmation = None;
            self.exit = Some(PackageWorkspaceExit::Purge(project));
        } else {
            let mut feedback = "将永久删除 `".to_owned();
            append_text(&mut feedback, project.as_str());
            append_text(
                &mut feedback,
                "` 的全部 release、状态和原始包；同名普通 Service 不受影响；再次按大写 D 确认",
            );
            self.purge_confirmation = Some(project);
            self.feedback = Some(feedback);
        }
    }

    /// Two presses of `U` remove the selected installation from the center and keep its data.
    fn confirm_uninstall(&mut self)
        ensures
            final(self)@ == old(self)@.uninstall_requested(),
    {
        if self.tab != PackageWorkspaceTab::Installed {
            self.feedback = Some("切换到“已安装”后再解除安装".to_owned());
            return;
        }
        let project = match self.selected_installed() {
            Some(service) => service.project.clone(),
            None => {
                self.feedback = Some("没有可解除的已安装 Service".to_owned());
                return;
            },
        };
        let confirmed = match &self.uninstall_confirmation {
            Some(pending) => same_text(pending, &project),
            None => false,
        };
        if confirmed {
            self.uninstall_confirmation = None;
            self.exit = Some(PackageWorkspaceExit::Uninstall(project));
        } else {
            let mut feedback = "将解除 `".to_owned();
            append_text(&mut feedback, project.as_str());
            append_text(
                &mut feedback,
                "` 的包托管注册并保留 release 和原始包；同名普通 Service 不受影响；再次按大写 U 确认",
            );
            self.uninstall_confirmation = Some(project);
            self.feedback = Some(feedback);
        }
    }

    /// Handles a key in the export picker; returns whether it acted.
    fn handle_export_key(&mut self, key: Key) -> (result: bool)
        requires
            old(self)@.valid(),
        ensures
            (final(self)@, result) == old(self)@.export_key(key),
            final(self)@.valid(),
    {
        let (package, entry, count, selected) = match &self.export_picker {
            None => return false,
            Some(picker) => {
                (&picker.package, &picker.entries[picker.selected], picker.entries.len(), picker.selected)
            },
        };
        if key == Key::Esc || key == Key::Char('q') {
            self.export_picker = None;
        } else if key == Key::Down || key == Key::Char('j') {
            if let Some(picker) = &mut self.export_picker {
                picker.selected = (selected + 1) % count;
            }
        } else if key == Key::Up || key == Key::Char('k') {
            if let Some(picker) = &mut self.export_picker {
                picker.selected = if selected > 0 {
                    selected - 1
                } else {
                    count - 1
                };
            }
        } else if key == Key::Enter {
            self.exit = Some(
                PackageWorkspaceExit::PushExport { package: package.clone(), entry: entry.clone() },
            );
            self.export_picker = None;
        } else {
            return false;
        }
        true
    }

    /// Moves the highlighted texts by one character.
    fn scroll_horizontal(&mut self, forward: bool)
        ensures
            final(self)@ == old(self)@.moved_horizontally(forward),
    {
        let maximum = self.selected_text_maximum();
        self.horizontal_scroll.scroll_manual(forward, maximum);
    }

    /// Largest offset of the highlighted texts of the current view.
    fn selected_text_maximum(&self) -> (result: usize)
        ensures
            result == self@.selected_text_maximum(),
    {
        let common = self.common_text_length();
        let selected = match self.tab {
            PackageWorkspaceTab::Packages => match self.selected_package() {
                Some(entry) => package_entry_text_length(entry),
                None => 0,
            },
            PackageWorkspaceTab::Installed => match self.selected_installed() {
                Some(service) => installed_service_text_length(service),
                None => 0,
            },
        };
        let longest = if common > selected {
            common
        } else {
            selected
        };
        longest.saturating_sub(1)
    }

    /// Largest offset of all folded texts of the workbench.
    fn all_text_maximum(&self) -> (result: usize)
        ensures
            result == self@.all_text_maximum(),
    {
        let ghost entries = self@.packages.map_values(|entry: PackageEntryModel| package_extent(entry));
        let mut widest_package: usize = 0;
        let mut index: usize = 0;
        while index < self.packages.len()
            invariant
                index <= self.packages@.len(),
                entries == self@.packages.map_values(|entry: PackageEntryModel| package_extent(entry)),
                widest_package == widest(entries.take(index as int)),
            decreases self.packages@.len() - index,
        {
            proof {
                crate::app_horizontal::lemma_widest_step(entries, index as int);
            }
            let extent = package_entry_text_length(&self.packages[index]);
            if extent > widest_package {
                widest_package = extent;
            }
            index += 1;
        }
        assert(entries.take(entries.len() as int) == entries);
        let ghost services = self@.installed.map_values(|service: InstalledModel| installed_extent(service));
        let mut widest_installed: usize = 0;
        let mut index: usize = 0;
        while index < self.installed.len()
            invariant
                index <= self.installed@.len(),
                services == self@.installed.map_values(|service: InstalledModel| installed_extent(service)),
                widest_installed == widest(services.take(index as int)),
            decreases self.installed@.len() - index,
        {
            proof {
                crate::app_horizontal::lemma_widest_step(services, index as int);
            }
            let extent = installed_service_text_length(&self.installed[index]);
            if extent > widest_installed {
                widest_installed = extent;
            }
            index += 1;
        }
        assert(services.take(services.len() as int) == services);
        let mut longest = self.common_text_length();
        if widest_package > longest {
            longest = widest_package;
        }
        if widest_installed > longest {
            longest = widest_installed;
        }
        longest.saturating_sub(1)
    }

    /// Widest text of the context source and the feedback.
    fn common_text_length(&self) -> (result: usize)
        ensures
            result == self@.common_extent(),
    {
        let context = optional_width(&self.context_source);
        let feedback = optional_width(&self.feedback);
        if context > feedback {
            context
        } else {
            feedback
        }
    }
}

/// Purging an installation takes two presses of `D` on the installed view: the first only
/// asks for confirmation, the second requests the purge of that project.
pub proof fn lemma_purge_needs_confirmation(view: WorkspaceView)
    requires
        view.valid(),
        view.control_allowed,
        !view.help_visible,
        view.export_picker is None,
        view.tab == PackageWorkspaceTab::Installed,
        view.installed.len() > 0,
        view.purge_confirmation is None,
    ensures
        ({
            let project = view.installed[view.selected_installed].0;
            let first = view.key_handled(Key::Char('D')).0;
            let second = first.key_handled(Key::Char('D')).0;
            &&& first.exit == view.exit
            &&& first.purge_confirmation == Some(project)
            &&& second.exit == Some(WorkspaceExitModel::Purge(project))
            &&& second.purge_confirmation is None
        }),
{
}

/// Deleting a package file takes two presses of Delete or `X` on the package view: the first
/// only asks for confirmation, the second requests the deletion of that file.
pub proof fn lemma_delete_needs_confirmation(view: WorkspaceView, first_key: Key, second_key: Key)
    requires
        view.valid(),
        view.control_allowed,
        !view.help_visible,
        view.export_picker is None,
        view.tab == PackageWorkspaceTab::Packages,
        view.packages.len() > 0,
        view.package_delete_confirmation is None,
        WorkspaceView::deletes_package(first_key),
        WorkspaceView::deletes_package(second_key),
    ensures
        ({
            let path = view.packages[view.selected_package].0;
            let first = view.key_handled(first_key).0;
            let second = first.key_handled(second_key).0;
            &&& first.exit == view.exit
            &&& first.package_delete_confirmation == Some(path)
            &&& second.exit == Some(WorkspaceExitModel::DeletePackage(path))
        }),
{
}

/// Any key other than `D` drops a pending purge confirmation.
pub proof fn lemma_other_key_cancels_purge(view: WorkspaceView, key: Key)
    requires
        !view.help_visible,
        view.export_picker is None,
        key != Key::Char('D'),
    ensures
        view.key_handled(key).0.purge_confirmation is None,
{
}

} // verus!
