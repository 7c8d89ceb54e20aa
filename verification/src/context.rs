//! The snapshot data model: everything one collection run gathers.

use vstd::prelude::*;

verus! {

/// One build target read from a build configuration file.
#[derive(Debug, Clone, PartialEq)]
pub struct BuildTarget {
    pub name: String,
    pub description: String,
    pub container_name: String,
    pub lunch_target: String,
    pub can_emulator: bool,
    pub can_flash: bool,
}

/// View of a build target: every text field as a character sequence.
#[verifier::ext_equal]
pub ghost struct BuildTargetV {
    pub name: Seq<char>,
    pub description: Seq<char>,
    pub container_name: Seq<char>,
    pub lunch_target: Seq<char>,
    pub can_emulator: bool,
    pub can_flash: bool,
}

impl View for BuildTarget {
    type V = BuildTargetV;

    open spec fn view(&self) -> BuildTargetV {
        BuildTargetV {
            name: self.name@,
            description: self.description@,
            container_name: self.container_name@,
            lunch_target: self.lunch_target@,
            can_emulator: self.can_emulator,
            can_flash: self.can_flash,
        }
    }
}

impl DeepView for BuildTarget {
    type V = BuildTargetV;

    open spec fn deep_view(&self) -> BuildTargetV {
        self.view()
    }
}

/// One running container.
#[derive(Debug, Clone, PartialEq)]
pub struct ContainerInfo {
    pub name: String,
    pub status: String,
    pub runtime: String,
}

/// View of a container record.
#[verifier::ext_equal]
pub ghost struct ContainerInfoV {
    pub name: Seq<char>,
    pub status: Seq<char>,
    pub runtime: Seq<char>,
}

impl View for ContainerInfo {
    type V = ContainerInfoV;

    open spec fn view(&self) -> ContainerInfoV {
        ContainerInfoV { name: self.name@, status: self.status@, runtime: self.runtime@ }
    }
}

impl DeepView for ContainerInfo {
    type V = ContainerInfoV;

    open spec fn deep_view(&self) -> ContainerInfoV {
        self.view()
    }
}

/// One kept command-history entry.
#[derive(Debug, Clone, PartialEq)]
pub struct HistoryEntry {
    pub timestamp: String,
    pub command: String,
}

/// View of a history entry.
#[verifier::ext_equal]
pub ghost struct HistoryEntryV {
    pub timestamp: Seq<char>,
    pub command: Seq<char>,
}

impl View for HistoryEntry {
    type V = HistoryEntryV;

    open spec fn view(&self) -> HistoryEntryV {
        HistoryEntryV { timestamp: self.timestamp@, command: self.command@ }
    }
}

impl DeepView for HistoryEntry {
    type V = HistoryEntryV;

    open spec fn deep_view(&self) -> HistoryEntryV {
        self.view()
    }
}

/// Status of one version-control repository.
#[derive(Debug, Clone, PartialEq)]
pub struct GitInfo {
    pub repo_path: String,
    pub branch: String,
    pub is_dirty: bool,
    pub modified_files: usize,
    pub untracked_files: usize,
    pub last_commit_short: String,
}

/// View of a repository status record.
#[verifier::ext_equal]
pub ghost struct GitInfoV {
    pub repo_path: Seq<char>,
    pub branch: Seq<char>,
    pub is_dirty: bool,
    pub modified_files: int,
    pub untracked_files: int,
    pub last_commit_short: Seq<char>,
}

impl View for GitInfo {
    type V = GitInfoV;

    open spec fn view(&self) -> GitInfoV {
        GitInfoV {
            repo_path: self.repo_path@,
            branch: self.branch@,
            is_dirty: self.is_dirty,
            modified_files: self.modified_files as int,
            untracked_files: self.untracked_files as int,
            last_commit_short: self.last_commit_short@,
        }
    }
}

impl DeepView for GitInfo {
    type V = GitInfoV;

    open spec fn deep_view(&self) -> GitInfoV {
        self.view()
    }
}

/// One attached device as reported by the two bridge tools.
#[derive(Debug, Clone, PartialEq)]
pub struct AdbDevice {
    pub serial: String,
    pub state: String,
    pub device_type: String,
}

/// View of a device record.
#[verifier::ext_equal]
pub ghost struct AdbDeviceV {
    pub serial: Seq<char>,
    pub state: Seq<char>,
    pub device_type: Seq<char>,
}

impl View for AdbDevice {
    type V = AdbDeviceV;

    open spec fn view(&self) -> AdbDeviceV {
        AdbDeviceV { serial: self.serial@, state: self.state@, device_type: self.device_type@ }
    }
}

impl DeepView for AdbDevice {
    type V = AdbDeviceV;

    open spec fn deep_view(&self) -> AdbDeviceV {
        self.view()
    }
}

/// One todo item of the saved work state.
#[derive(Debug, Clone, PartialEq)]
pub struct TodoItem {
    pub content: String,
    pub status: String,
}

/// View of a todo item.
#[verifier::ext_equal]
pub ghost struct TodoItemV {
    pub content: Seq<char>,
    pub status: Seq<char>,
}

impl View for TodoItem {
    type V = TodoItemV;

    open spec fn view(&self) -> TodoItemV {
        TodoItemV { content: self.content@, status: self.status@ }
    }
}

impl DeepView for TodoItem {
    type V = TodoItemV;

    open spec fn deep_view(&self) -> TodoItemV {
        self.view()
    }
}

/// The persisted work state: the one value that survives across runs.
#[derive(Debug, Clone, PartialEq)]
pub struct WorkState {
    pub saved_at: String,
    pub trigger: String,
    pub task_summary: String,
    pub working_files: Vec<String>,
    pub notes: String,
    pub todos: Vec<TodoItem>,
}

/// View of a work state.
#[verifier::ext_equal]
pub ghost struct WorkStateV {
    pub saved_at: Seq<char>,
    pub trigger: Seq<char>,
    pub task_summary: Seq<char>,
    pub working_files: Seq<Seq<char>>,
    pub notes: Seq<char>,
    pub todos: Seq<TodoItemV>,
}

impl View for WorkState {
    type V = WorkStateV;

    open spec fn view(&self) -> WorkStateV {
        WorkStateV {
            saved_at: self.saved_at@,
            trigger: self.trigger@,
            task_summary: self.task_summary@,
            working_files: self.working_files.deep_view(),
            notes: self.notes@,
            todos: self.todos.deep_view(),
        }
    }
}

impl DeepView for WorkState {
    type V = WorkStateV;

    open spec fn deep_view(&self) -> WorkStateV {
        self.view()
    }
}

/// A work state with no summary, no todos, no files and no notes carries no
/// information; the merge collapses such a state to "no state".
pub open spec fn work_state_is_empty(ws: WorkStateV) -> bool {
    ws.task_summary.len() == 0 && ws.todos.len() == 0 && ws.working_files.len() == 0
        && ws.notes.len() == 0
}

/// The view of the all-empty work state.
pub open spec fn empty_work_state_v() -> WorkStateV {
    WorkStateV {
        saved_at: Seq::<char>::empty(),
        trigger: Seq::<char>::empty(),
        task_summary: Seq::<char>::empty(),
        working_files: Seq::<Seq<char>>::empty(),
        notes: Seq::<char>::empty(),
        todos: Seq::<TodoItemV>::empty(),
    }
}

impl WorkState {
    /// The all-empty work state that a missing or unreadable saved document
    /// degrades to.
    pub fn new_empty() -> (r: WorkState)
        ensures
            r@ == empty_work_state_v(),
    {
        let r = WorkState {
            saved_at: String::new(),
            trigger: String::new(),
            task_summary: String::new(),
            working_files: Vec::new(),
            notes: String::new(),
            todos: Vec::new(),
        };
        proof {
            assert(r.working_files.deep_view() =~= Seq::<Seq<char>>::empty());
            assert(r.todos.deep_view() =~= Seq::<TodoItemV>::empty());
        }
        r
    }
}

/// The aggregated snapshot produced by one collection run.
#[derive(Debug, Clone)]
pub struct Context {
    pub project_name: String,
    pub project_type: String,
    pub targets: Vec<BuildTarget>,
    pub containers: Vec<ContainerInfo>,
    pub available_commands: Vec<String>,
    pub hints: String,
    pub command_history: Vec<HistoryEntry>,
    pub git_repos: Vec<GitInfo>,
    pub adb_devices: Vec<AdbDevice>,
    pub work_state: Option<WorkState>,
}

/// View of a snapshot.
#[verifier::ext_equal]
pub ghost struct ContextV {
    pub project_name: Seq<char>,
    pub project_type: Seq<char>,
    pub targets: Seq<BuildTargetV>,
    pub containers: Seq<ContainerInfoV>,
    pub available_commands: Seq<Seq<char>>,
    pub hints: Seq<char>,
    pub command_history: Seq<HistoryEntryV>,
    pub git_repos: Seq<GitInfoV>,
    pub adb_devices: Seq<AdbDeviceV>,
    pub work_state: Option<WorkStateV>,
}

impl View for Context {
    type V = ContextV;

    open spec fn view(&self) -> ContextV {
        ContextV {
            project_name: self.project_name@,
            project_type: self.project_type@,
            targets: self.targets.deep_view(),
            containers: self.containers.deep_view(),
            available_commands: self.available_commands.deep_view(),
            hints: self.hints@,
            command_history: self.command_history.deep_view(),
            git_repos: self.git_repos.deep_view(),
            adb_devices: self.adb_devices.deep_view(),
            work_state: self.work_state.deep_view(),
        }
    }
}

impl DeepView for Context {
    type V = ContextV;

    open spec fn deep_view(&self) -> ContextV {
        self.view()
    }
}

/// The view of an empty snapshot: what a collection run starts from.
pub open spec fn empty_context_v() -> ContextV {
    ContextV {
        project_name: Seq::<char>::empty(),
        project_type: Seq::<char>::empty(),
        targets: Seq::<BuildTargetV>::empty(),
        containers: Seq::<ContainerInfoV>::empty(),
        available_commands: Seq::<Seq<char>>::empty(),
        hints: Seq::<char>::empty(),
        command_history: Seq::<HistoryEntryV>::empty(),
        git_repos: Seq::<GitInfoV>::empty(),
        adb_devices: Seq::<AdbDeviceV>::empty(),
        work_state: None,
    }
}

impl Context {
    /// The empty snapshot.
    pub fn new_empty() -> (r: Context)
        ensures
            r@ == empty_context_v(),
    {
        let r = Context {
            project_name: String::new(),
            project_type: String::new(),
            targets: Vec::new(),
            containers: Vec::new(),
            available_commands: Vec::new(),
            hints: String::new(),
            command_history: Vec::new(),
            git_repos: Vec::new(),
            adb_devices: Vec::new(),
            work_state: None,
        };
        proof {
            assert(r.targets.deep_view() =~= Seq::<BuildTargetV>::empty());
            assert(r.containers.deep_view() =~= Seq::<ContainerInfoV>::empty());
            assert(r.available_commands.deep_view() =~= Seq::<Seq<char>>::empty());
            assert(r.command_history.deep_view() =~= Seq::<HistoryEntryV>::empty());
            assert(r.git_repos.deep_view() =~= Seq::<GitInfoV>::empty());
            assert(r.adb_devices.deep_view() =~= Seq::<AdbDeviceV>::empty());
        }
        r
    }
}

impl Default for Context {
    /// Same as [`Context::new_empty`].
    fn default() -> (r: Context)
        ensures
            r@ == empty_context_v(),
    {
        Context::new_empty()
    }
}

} // verus!
