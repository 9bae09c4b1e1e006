//! The container job executor.
//!
//! A container job runs through a fixed lifecycle: pull the image, prepare
//! the optional per-job data directory, create and start the container,
//! then either drive an interactive exec session or collect the log
//! stream, force-remove the container, optionally upload the collected
//! result files, and report exactly one terminal outcome.
//!
//! Every call into the container engine, the file system or the transport
//! suspends, so the lifecycle lives here as a state machine: `ExecMachine`
//! turns each engine event into the next engine action, and the
//! surrounding driver only performs actions and feeds back events.

use vstd::prelude::*;

use vstd::string::StrSliceExecFns;
use vstd::string::StringExecFns;

verus! {

/// One `key:value` mapping of a job request (a port or volume binding).
pub struct DockerMap {
    key: String,
    value: String,
}

impl DockerMap {
    pub closed spec fn key_view(&self) -> Seq<char> {
        self.key@
    }

    pub closed spec fn value_view(&self) -> Seq<char> {
        self.value@
    }

    pub fn new(key: String, value: String) -> (r: Self)
        ensures
            r.key_view() == key@,
            r.value_view() == value@,
    {
        DockerMap { key, value }
    }

    /// The mapping rendered as a `key:value` bind string.
    pub fn bind_string(&self) -> (r: String)
        ensures
            r@ == bind_of(self.key_view(), self.value_view()),
    {
        let mut s = self.key.clone();
        s.append(":");
        s.append(self.value.as_str());
        s
    }
}

/// A `key:value` bind string.
pub open spec fn bind_of(key: Seq<char>, value: Seq<char>) -> Seq<char> {
    key + ":"@ + value
}

/// The in-container path that a job's data directory is bound to,
/// including the separating colon.
pub open spec fn data_mount_target() -> Seq<char> {
    ":/merklebot/job_data/"@
}

/// The parsed arguments of one container job request.
pub struct DockerLaunchArgs {
    pub image: String,
    pub container_name: String,
    pub custom_cmd: Option<String>,
    pub save_logs: Option<bool>,
    pub store_data: Option<bool>,
    pub network_mode: String,
    pub ports: Vec<DockerMap>,
    pub volumes: Vec<DockerMap>,
    pub env: Vec<String>,
    pub privileged: bool,
}

/// One container job request as delivered by the transport.
pub struct RobotJob {
    pub id: String,
    pub job_type: String,
    pub args: String,
}

/// The terminal outcome of one job: its id, `"done"` or `"error"`, and the
/// collected logs or the failure text.
pub struct RobotJobResult {
    pub job_id: String,
    pub status: String,
    pub logs: String,
}

/// The container configuration handed to the engine.
pub struct ContainerConfig {
    pub image: String,
    pub env: Vec<String>,
    pub privileged: bool,
    pub network_mode: String,
    pub binds: Vec<String>,
    pub tty: bool,
    pub cmd: Option<Vec<String>>,
}

/// One upload of a collected result file.
pub struct UploadRequest {
    pub local_path: String,
    pub key: String,
    pub job_id: String,
}

/// Assemble the bind list: every user-supplied volume mapping in order,
/// plus, when a data directory was prepared, its bind as the last entry.
pub fn build_binds(volumes: &Vec<DockerMap>, data_dir: &Option<String>) -> (r: Vec<String>)
    ensures
        binds_match(r.deep_view(), volumes@, view_opt(*data_dir)),
{
    let mut r: Vec<String> = Vec::new();
    let mut i: usize = 0;
    while i < volumes.len()
        invariant
            i <= volumes@.len(),
            r@.len() == i as int,
            forall|a: int|
                0 <= a < i ==> r@[a]@ == bind_of(volumes@[a].key_view(), volumes@[a].value_view()),
        decreases volumes@.len() - i,
    {
        r.push(volumes[i].bind_string());
        i = i + 1;
    }
    match data_dir {
        Some(d) => {
            let mut bind = d.clone();
            bind.append(":/merklebot/job_data/");
            r.push(bind);
        }
        None => {},
    }
    proof {
        assert(forall|a: int| 0 <= a < r@.len() ==> r.deep_view()[a] == r@[a]@);
    }
    r
}

/// The view of an optional string.
pub open spec fn view_opt(s: Option<String>) -> Option<Seq<char>> {
    match s {
        Some(s) => Some(s@),
        None => None,
    }
}

/// The bind list that belongs to the given volumes and optional data
/// directory.
pub open spec fn binds_match(
    binds: Seq<Seq<char>>,
    volumes: Seq<DockerMap>,
    data_dir: Option<Seq<char>>,
) -> bool {
    &&& binds.len() == volumes.len() + (if data_dir is Some {
        1int
    } else {
        0int
    })
    &&& forall|i: int|
        0 <= i < volumes.len() ==> binds[i] == bind_of(
            volumes[i].key_view(),
            volumes[i].value_view(),
        )
    &&& (data_dir matches Some(d) ==> binds.last() == d + data_mount_target())
}

/// Splitting on single spaces, with no quoting: every space separates two
/// tokens, and consecutive spaces yield empty tokens.
pub open spec fn split_fn(s: Seq<char>) -> Seq<Seq<char>>
    decreases s.len(),
{
    if s.len() == 0 {
        seq![Seq::<char>::empty()]
    } else if s[0] == ' ' {
        seq![Seq::<char>::empty()] + split_fn(s.skip(1))
    } else {
        let rest = split_fn(s.skip(1));
        seq![seq![s[0]] + rest[0]] + rest.skip(1)
    }
}

pub proof fn lemma_split_fn_nonempty(s: Seq<char>)
    ensures
        split_fn(s).len() >= 1,
    decreases s.len(),
{
    if s.len() == 0 {
    } else if s[0] == ' ' {
    } else {
        lemma_split_fn_nonempty(s.skip(1));
    }
}

/// Relies on String::push: appends exactly the given character.
#[verifier::external_body]
fn push_char(s: &mut String, c: char)
    ensures
        final(s)@ == old(s)@.push(c),
{
    s.push(c);
}

/// Split a command line on spaces, as `split_fn` describes.
pub fn split_spaces(s: &str) -> (r: Vec<String>)
    ensures
        r.deep_view() == split_fn(s@),
    decreases s@.len(),
{
    let n = s.unicode_len();
    if n == 0 {
        let mut r: Vec<String> = Vec::new();
        r.push(String::new());
        proof {
            assert(r.deep_view() =~= split_fn(s@));
        }
        r
    } else {
        let c = s.get_char(0);
        let rest = s.substring_char(1, n);
        proof {
            assert(rest@ == s@.skip(1));
        }
        let mut tail = split_spaces(rest);
        if c == ' ' {
            let mut r: Vec<String> = Vec::new();
            r.push(String::new());
            r.append(&mut tail);
            proof {
                assert(r.deep_view() =~= split_fn(s@));
            }
            r
        } else {
            proof {
                lemma_split_fn_nonempty(rest@);
            }
            let mut head = String::new();
            push_char(&mut head, c);
            head.append(tail[0].as_str());
            let ghost pre_tail = tail.deep_view();
            let slot = vstd::std_specs::vec::vec_index_mut(&mut tail, 0);
            *slot = head;
            proof {
                assert(tail.deep_view() =~= pre_tail.update(0, seq![s@[0]] + pre_tail[0]));
                assert(tail.deep_view() =~= split_fn(s@));
            }
            tail
        }
    }
}

/// The storage key of a result file: its path with the data root stripped
/// off the front, or the path itself when the root is not its prefix.
pub open spec fn storage_key_fn(path: Seq<char>, root: Seq<char>) -> Seq<char> {
    if root.len() <= path.len() && path.take(root.len() as int) == root {
        path.skip(root.len() as int)
    } else {
        path
    }
}

/// Derive the storage key of one collected file from its path and the data
/// root.
pub fn storage_key(path: &str, root: &str) -> (r: String)
    ensures
        r@ == storage_key_fn(path@, root@),
{
    let path_len = path.unicode_len();
    let root_len = root.unicode_len();
    if root_len > path_len {
        return path.to_owned();
    }
    let mut i: usize = 0;
    while i < root_len
        invariant
            i <= root_len,
            root_len == root@.len(),
            path_len == path@.len(),
            root_len <= path_len,
            forall|a: int| 0 <= a < i ==> path@[a] == root@[a],
        decreases root_len - i,
    {
        if path.get_char(i) != root.get_char(i) {
            proof {
                assert(path@.take(root@.len() as int)[i as int] != root@[i as int]);
            }
            return path.to_owned();
        }
        i = i + 1;
    }
    proof {
        assert(path@.take(root@.len() as int) =~= root@);
    }
    let rest = path.substring_char(root_len, path_len);
    rest.to_owned()
}

/// What an output or log chunk reads as text.  Relied on below: the
/// decoding is a function of the bytes alone.
pub uninterp spec fn utf8_text_of(bytes: Seq<u8>) -> Seq<char>;

/// Relies on String::from_utf8_lossy: decodes the bytes as UTF-8 with
/// invalid sequences replaced; the result depends on the bytes alone.
#[verifier::external_body]
fn utf8_lossy(bytes: &Vec<u8>) -> (r: String)
    ensures
        r@ == utf8_text_of(bytes@),
{
    String::from_utf8_lossy(bytes.as_slice()).into_owned()
}

impl Clone for RobotJobResult {
    fn clone(&self) -> (r: Self)
        ensures
            r == *self,
    {
        RobotJobResult {
            job_id: self.job_id.clone(),
            status: self.status.clone(),
            logs: self.logs.clone(),
        }
    }
}

/// Where the lifecycle of one container job stands.
pub enum ExecPhase {
    /// Nothing has been issued yet.
    Init,
    /// The image pull is under way.
    Pulling,
    /// The per-job data directory is being prepared.
    PreparingDir,
    /// The container is being created.
    Creating,
    /// The container exists and is being started.
    Starting { container_id: String },
    /// The interactive exec session is being created.
    CreatingExec { container_id: String },
    /// The exec session is being attached.
    StartingExec { container_id: String, exec_id: String },
    /// The exec session's terminal is being sized.
    ResizingExec { container_id: String, exec_id: String },
    /// The interactive session runs; output chunks are relayed as they
    /// arrive.
    Interactive { container_id: String },
    /// The log stream is followed; chunks are accumulated.
    Streaming { container_id: String, logs: String },
    /// The container is being force-removed; `failure` carries the first
    /// error of an earlier step, if any.
    Removing { container_id: String, logs: String, failure: Option<String> },
    /// The result directory is being enumerated.
    Collecting { logs: String },
    /// The collected files are being uploaded.
    Uploading { logs: String },
    /// The terminal outcome stands; nothing changes it.
    Finished { outcome: RobotJobResult },
}

/// What the engine, the file system or the transport reported back.
pub enum ExecEvent {
    Begin,
    PullOk,
    PullFailed(String),
    DataDirReady(Option<String>),
    ContainerCreated(String),
    CreateFailed(String),
    Started,
    StartFailed(String),
    ExecCreated(String),
    ExecCreateFailed(String),
    ExecStarted,
    ExecStartFailed(String),
    Resized,
    ResizeFailed(String),
    OutputChunk(Vec<u8>),
    SessionEnded,
    LogChunk(Vec<u8>),
    LogsEnded,
    LogsFailed(String),
    Removed,
    RemoveFailed(String),
    FilesListed { data_root: String, paths: Option<Vec<String>> },
    UploadsDone,
}

/// What the driver must do next.
pub enum ExecAction {
    PullImage { image: String },
    PrepareDataDir { job_id: String },
    CreateContainer { name: String, config: ContainerConfig },
    StartContainer { container_id: String },
    CreateExec { container_id: String, cmd: Vec<String>, tty: bool },
    StartExec { exec_id: String },
    ResizeExec { exec_id: String, height: u16, width: u16 },
    AwaitSession,
    RelayOutput { chunk: String },
    StreamLogs { container_id: String },
    AwaitLogs,
    RemoveContainer { container_id: String },
    EnumerateFiles { job_id: String },
    Upload { requests: Vec<UploadRequest> },
    Report { outcome: RobotJobResult },
    Idle,
}

/// The lifecycle machine of one container job.
pub struct ExecMachine {
    pub job_id: String,
    pub args: DockerLaunchArgs,
    pub phase: ExecPhase,
}

/// The holder of one job's parsed arguments.
pub struct DockerLaunch {
    pub args: DockerLaunchArgs,
}

impl DockerLaunch {
    /// Set up the lifecycle machine for one job; the first `Begin` event
    /// issues the image pull.
    pub fn start(self, job_id: String) -> (m: ExecMachine)
        ensures
            m.wf(),
            m.phase is Init,
            m.job_id == job_id,
            m.args == self.args,
    {
        ExecMachine { job_id, args: self.args, phase: ExecPhase::Init }
    }
}

/// The configuration that belongs to the given arguments and optional data
/// directory: the image, environment, privilege flag and network mode are
/// taken over; the binds are assembled by `binds_match`; an interactive job
/// gets a terminal and a plain holding shell as its entry command (the user
/// command is issued as a separate exec), a non-interactive one gets
/// neither.
pub open spec fn config_matches(
    c: ContainerConfig,
    args: DockerLaunchArgs,
    data_dir: Option<Seq<char>>,
) -> bool {
    &&& c.image@ == args.image@
    &&& c.env.deep_view() == args.env.deep_view()
    &&& c.privileged == args.privileged
    &&& c.network_mode@ == args.network_mode@
    &&& binds_match(c.binds.deep_view(), args.volumes@, data_dir)
    &&& (args.custom_cmd is Some ==> c.tty == true && (c.cmd matches Some(sh) && sh.deep_view()
        =~= seq!["sh"@]))
    &&& (args.custom_cmd is None ==> c.tty == false && c.cmd is None)
}

/// One upload request per collected file, in order, keyed by the file's
/// path relative to the data root.
pub open spec fn uploads_match(
    reqs: Seq<UploadRequest>,
    paths: Seq<Seq<char>>,
    root: Seq<char>,
    job_id: Seq<char>,
) -> bool {
    &&& reqs.len() == paths.len()
    &&& forall|i: int|
        0 <= i < paths.len() ==> (#[trigger] reqs[i]).local_path@ == paths[i] && reqs[i].key@
            == storage_key_fn(paths[i], root) && reqs[i].job_id@ == job_id
}

pub open spec fn outcome_is(o: RobotJobResult, job_id: Seq<char>, status: Seq<char>, logs: Seq<char>) -> bool {
    &&& o.job_id@ == job_id
    &&& o.status@ == status
    &&& o.logs@ == logs
}

/// The machine has reached its terminal phase with this outcome, and the
/// action reports exactly that outcome.
pub open spec fn finishes(
    pre: ExecMachine,
    post: ExecMachine,
    action: ExecAction,
    status: Seq<char>,
    logs: Seq<char>,
) -> bool {
    &&& (post.phase matches ExecPhase::Finished { outcome } && outcome_is(
        outcome,
        pre.job_id@,
        status,
        logs,
    ))
    &&& (action matches ExecAction::Report { outcome } && outcome_is(
        outcome,
        pre.job_id@,
        status,
        logs,
    ))
}

/// The transition relation of the lifecycle machine: what one event does to
/// the phase and which action it issues.  An event that does not belong to
/// the current phase changes nothing.
pub open spec fn step_rel(
    pre: ExecMachine,
    event: ExecEvent,
    post: ExecMachine,
    action: ExecAction,
) -> bool {
    &&& post.job_id == pre.job_id
    &&& post.args == pre.args
    &&& match (pre.phase, event) {
        (ExecPhase::Init, ExecEvent::Begin) => {
            &&& post.phase is Pulling
            &&& (action matches ExecAction::PullImage { image } && image@ == pre.args.image@)
        },
        (ExecPhase::Pulling, ExecEvent::PullOk) => {
            if pre.args.store_data == Some(true) {
                &&& post.phase is PreparingDir
                &&& (action matches ExecAction::PrepareDataDir { job_id } && job_id@
                    == pre.job_id@)
            } else {
                &&& post.phase is Creating
                &&& (action matches ExecAction::CreateContainer { name, config } && name@
                    == pre.args.container_name@ && config_matches(config, pre.args, None))
            }
        },
        (ExecPhase::Pulling, ExecEvent::PullFailed(e)) => finishes(
            pre,
            post,
            action,
            "error"@,
            e@,
        ),
        (ExecPhase::PreparingDir, ExecEvent::DataDirReady(d)) => {
            &&& post.phase is Creating
            &&& (action matches ExecAction::CreateContainer { name, config } && name@
                == pre.args.container_name@ && config_matches(config, pre.args, view_opt(d)))
        },
        (ExecPhase::Creating, ExecEvent::ContainerCreated(id)) => {
            &&& (post.phase matches ExecPhase::Starting { container_id } && container_id@ == id@)
            &&& (action matches ExecAction::StartContainer { container_id } && container_id@
                == id@)
        },
        (ExecPhase::Creating, ExecEvent::CreateFailed(e)) => finishes(
            pre,
            post,
            action,
            "error"@,
            e@,
        ),
        (ExecPhase::Starting { container_id }, ExecEvent::Started) => {
            if pre.args.custom_cmd is Some {
                &&& (post.phase matches ExecPhase::CreatingExec { container_id: c2 } && c2@
                    == container_id@)
                &&& (action matches ExecAction::CreateExec { container_id: c3, cmd, tty } && c3@
                    == container_id@ && cmd.deep_view() == split_fn(pre.args.custom_cmd.unwrap()@)
                    && tty == true)
            } else {
                &&& (post.phase matches ExecPhase::Streaming { container_id: c2, logs } && c2@
                    == container_id@ && logs@ == Seq::<char>::empty())
                &&& (action matches ExecAction::StreamLogs { container_id: c3 } && c3@
                    == container_id@)
            }
        },
        (ExecPhase::Starting { container_id }, ExecEvent::StartFailed(e)) => cleans_up(
            post,
            action,
            container_id@,
            Seq::<char>::empty(),
            Some(e@),
        ),
        (ExecPhase::CreatingExec { container_id }, ExecEvent::ExecCreated(x)) => {
            &&& (post.phase matches ExecPhase::StartingExec { container_id: c2, exec_id } && c2@
                == container_id@ && exec_id@ == x@)
            &&& (action matches ExecAction::StartExec { exec_id } && exec_id@ == x@)
        },
        (ExecPhase::CreatingExec { container_id }, ExecEvent::ExecCreateFailed(e)) => cleans_up(
            post,
            action,
            container_id@,
            Seq::<char>::empty(),
            Some(e@),
        ),
        (ExecPhase::StartingExec { container_id, exec_id }, ExecEvent::ExecStarted) => {
            &&& (post.phase matches ExecPhase::ResizingExec { container_id: c2, exec_id: x2 }
                && c2@ == container_id@ && x2@ == exec_id@)
            &&& (action matches ExecAction::ResizeExec { exec_id: x3, height, width } && x3@
                == exec_id@ && height == 35 && width == 100)
        },
        (ExecPhase::StartingExec { container_id, exec_id }, ExecEvent::ExecStartFailed(e)) => cleans_up(
            post,
            action,
            container_id@,
            Seq::<char>::empty(),
            Some(e@),
        ),
        (ExecPhase::ResizingExec { container_id, exec_id }, ExecEvent::Resized) => {
            &&& (post.phase matches ExecPhase::Interactive { container_id: c2 } && c2@
                == container_id@)
            &&& action is AwaitSession
        },
        (ExecPhase::ResizingExec { container_id, exec_id }, ExecEvent::ResizeFailed(e)) => cleans_up(
            post,
            action,
            container_id@,
            Seq::<char>::empty(),
            Some(e@),
        ),
        (ExecPhase::Interactive { container_id }, ExecEvent::OutputChunk(b)) => {
            &&& (post.phase matches ExecPhase::Interactive { container_id: c2 } && c2@
                == container_id@)
            &&& (action matches ExecAction::RelayOutput { chunk } && chunk@ == utf8_text_of(b@))
        },
        (ExecPhase::Interactive { container_id }, ExecEvent::SessionEnded) => cleans_up(
            post,
            action,
            container_id@,
            Seq::<char>::empty(),
            None,
        ),
        (ExecPhase::Streaming { container_id, logs }, ExecEvent::LogChunk(b)) => {
            &&& (post.phase matches ExecPhase::Streaming { container_id: c2, logs: l2 } && c2@
                == container_id@ && l2@ == logs@ + utf8_text_of(b@))
            &&& action is AwaitLogs
        },
        (ExecPhase::Streaming { container_id, logs }, ExecEvent::LogsEnded) => cleans_up(
            post,
            action,
            container_id@,
            logs@,
            None,
        ),
        (ExecPhase::Streaming { container_id, logs }, ExecEvent::LogsFailed(e)) => cleans_up(
            post,
            action,
            container_id@,
            logs@,
            Some(e@),
        ),
        (ExecPhase::Removing { container_id, logs, failure }, ExecEvent::Removed) => {
            match failure {
                Some(e) => finishes(pre, post, action, "error"@, e@),
                None => {
                    if pre.args.store_data == Some(true) {
                        &&& (post.phase matches ExecPhase::Collecting { logs: l2 } && l2@
                            == logs@)
                        &&& (action matches ExecAction::EnumerateFiles { job_id } && job_id@
                            == pre.job_id@)
                    } else {
                        finishes(pre, post, action, "done"@, logs@)
                    }
                },
            }
        },
        (ExecPhase::Removing { container_id, logs, failure }, ExecEvent::RemoveFailed(e)) => {
            match failure {
                Some(first) => finishes(pre, post, action, "error"@, first@),
                None => finishes(pre, post, action, "error"@, e@),
            }
        },
        (ExecPhase::Collecting { logs }, ExecEvent::FilesListed { data_root, paths }) => {
            match paths {
                Some(paths) => {
                    &&& (post.phase matches ExecPhase::Uploading { logs: l2 } && l2@ == logs@)
                    &&& (action matches ExecAction::Upload { requests } && uploads_match(
                        requests@,
                        paths.deep_view(),
                        data_root@,
                        pre.job_id@,
                    ))
                },
                None => finishes(pre, post, action, "done"@, logs@),
            }
        },
        (ExecPhase::Uploading { logs }, ExecEvent::UploadsDone) => finishes(
            pre,
            post,
            action,
            "done"@,
            logs@,
        ),
        (p, _) => {
            &&& post.phase == p
            &&& action is Idle
        },
    }
}

/// The machine turns to removing the container, carrying the collected
/// logs and the first failure, if one happened.
pub open spec fn cleans_up(
    post: ExecMachine,
    action: ExecAction,
    container_id: Seq<char>,
    logs: Seq<char>,
    failure: Option<Seq<char>>,
) -> bool {
    &&& (post.phase matches ExecPhase::Removing { container_id: c2, logs: l2, failure: f2 } && c2@
        == container_id && l2@ == logs && view_opt(f2) == failure)
    &&& (action matches ExecAction::RemoveContainer { container_id: c3 } && c3@ == container_id)
}

impl ExecMachine {
    /// The interactive phases belong to a job with a custom command, the
    /// log-collection phase to one without.
    pub open spec fn wf(&self) -> bool {
        match self.phase {
            ExecPhase::CreatingExec { .. } => self.args.custom_cmd is Some,
            ExecPhase::StartingExec { .. } => self.args.custom_cmd is Some,
            ExecPhase::ResizingExec { .. } => self.args.custom_cmd is Some,
            ExecPhase::Interactive { .. } => self.args.custom_cmd is Some,
            ExecPhase::Streaming { .. } => self.args.custom_cmd is None,
            _ => true,
        }
    }

    fn make_config(&self, data_dir: &Option<String>) -> (c: ContainerConfig)
        ensures
            config_matches(c, self.args, view_opt(*data_dir)),
    {
        let binds = build_binds(&self.args.volumes, data_dir);
        let mut env: Vec<String> = Vec::new();
        let mut i: usize = 0;
        while i < self.args.env.len()
            invariant
                i <= self.args.env@.len(),
                env@.len() == i as int,
                forall|a: int| 0 <= a < i ==> env@[a]@ == self.args.env@[a]@,
            decreases self.args.env@.len() - i,
        {
            env.push(self.args.env[i].clone());
            i = i + 1;
        }
        proof {
            assert(env.deep_view() =~= self.args.env.deep_view());
        }
        match &self.args.custom_cmd {
            Some(_) => {
                let mut sh: Vec<String> = Vec::new();
                sh.push("sh".to_owned());
                proof {
                    assert(sh.deep_view() =~= seq!["sh"@]);
                }
                ContainerConfig {
                    image: self.args.image.clone(),
                    env,
                    privileged: self.args.privileged,
                    network_mode: self.args.network_mode.clone(),
                    binds,
                    tty: true,
                    cmd: Some(sh),
                }
            }
            None => {
                ContainerConfig {
                    image: self.args.image.clone(),
                    env,
                    privileged: self.args.privileged,
                    network_mode: self.args.network_mode.clone(),
                    binds,
                    tty: false,
                    cmd: None,
                }
            }
        }
    }

    fn finish(&mut self, status: String, logs: String) -> (action: ExecAction)
        ensures
            final(self).job_id == old(self).job_id,
            final(self).args == old(self).args,
            final(self).phase matches ExecPhase::Finished { outcome } && outcome_is(
                outcome,
                old(self).job_id@,
                status@,
                logs@,
            ),
            action matches ExecAction::Report { outcome } && outcome_is(
                outcome,
                old(self).job_id@,
                status@,
                logs@,
            ),
    {
        let outcome = RobotJobResult { job_id: self.job_id.clone(), status, logs };
        self.phase = ExecPhase::Finished { outcome: outcome.clone() };
        ExecAction::Report { outcome }
    }

    /// Feed one event into the machine; the returned action is what the
    /// driver must do next.
    pub fn step(&mut self, event: ExecEvent) -> (action: ExecAction)
        requires
            old(self).wf(),
        ensures
            final(self).wf(),
            step_rel(*old(self), event, *final(self), action),
    {
        let mut ph = ExecPhase::Init;
        core::mem::swap(&mut ph, &mut self.phase);
        match (ph, event) {
            (ExecPhase::Init, ExecEvent::Begin) => {
                self.phase = ExecPhase::Pulling;
                ExecAction::PullImage { image: self.args.image.clone() }
            }
            (ExecPhase::Pulling, ExecEvent::PullOk) => {
                let store = match self.args.store_data {
                    Some(b) => b,
                    None => false,
                };
                if store {
                    self.phase = ExecPhase::PreparingDir;
                    ExecAction::PrepareDataDir { job_id: self.job_id.clone() }
                } else {
                    let config = self.make_config(&None);
                    self.phase = ExecPhase::Creating;
                    ExecAction::CreateContainer {
                        name: self.args.container_name.clone(),
                        config,
                    }
                }
            }
            (ExecPhase::Pulling, ExecEvent::PullFailed(e)) => {
                self.finish("error".to_owned(), e)
            }
            (ExecPhase::PreparingDir, ExecEvent::DataDirReady(d)) => {
                let config = self.make_config(&d);
                self.phase = ExecPhase::Creating;
                ExecAction::CreateContainer { name: self.args.container_name.clone(), config }
            }
            (ExecPhase::Creating, ExecEvent::ContainerCreated(id)) => {
                let action = ExecAction::StartContainer { container_id: id.clone() };
                self.phase = ExecPhase::Starting { container_id: id };
                action
            }
            (ExecPhase::Creating, ExecEvent::CreateFailed(e)) => {
                self.finish("error".to_owned(), e)
            }
            (ExecPhase::Starting { container_id }, ExecEvent::Started) => {
                match &self.args.custom_cmd {
                    Some(custom_cmd) => {
                        let cmd = split_spaces(custom_cmd.as_str());
                        let action = ExecAction::CreateExec {
                            container_id: container_id.clone(),
                            cmd,
                            tty: true,
                        };
                        self.phase = ExecPhase::CreatingExec { container_id };
                        action
                    }
                    None => {
                        let action = ExecAction::StreamLogs {
                            container_id: container_id.clone(),
                        };
                        self.phase = ExecPhase::Streaming { container_id, logs: String::new() };
                        action
                    }
                }
            }
            (ExecPhase::Starting { container_id }, ExecEvent::StartFailed(e)) => {
                self.clean_up(container_id, String::new(), Some(e))
            }
            (ExecPhase::CreatingExec { container_id }, ExecEvent::ExecCreated(x)) => {
                let action = ExecAction::StartExec { exec_id: x.clone() };
                self.phase = ExecPhase::StartingExec { container_id, exec_id: x };
                action
            }
            (ExecPhase::CreatingExec { container_id }, ExecEvent::ExecCreateFailed(e)) => {
                self.clean_up(container_id, String::new(), Some(e))
            }
            (ExecPhase::StartingExec { container_id, exec_id }, ExecEvent::ExecStarted) => {
                let action = ExecAction::ResizeExec {
                    exec_id: exec_id.clone(),
                    height: 35,
                    width: 100,
                };
                self.phase = ExecPhase::ResizingExec { container_id, exec_id };
                action
            }
            (ExecPhase::StartingExec { container_id, exec_id: _ }, ExecEvent::ExecStartFailed(e)) => {
                self.clean_up(container_id, String::new(), Some(e))
            }
            (ExecPhase::ResizingExec { container_id, exec_id: _ }, ExecEvent::Resized) => {
                self.phase = ExecPhase::Interactive { container_id };
                ExecAction::AwaitSession
            }
            (ExecPhase::ResizingExec { container_id, exec_id: _ }, ExecEvent::ResizeFailed(e)) => {
                self.clean_up(container_id, String::new(), Some(e))
            }
            (ExecPhase::Interactive { container_id }, ExecEvent::OutputChunk(b)) => {
                let chunk = utf8_lossy(&b);
                self.phase = ExecPhase::Interactive { container_id };
                ExecAction::RelayOutput { chunk }
            }
            (ExecPhase::Interactive { container_id }, ExecEvent::SessionEnded) => {
                self.clean_up(container_id, String::new(), None)
            }
            (ExecPhase::Streaming { container_id, logs }, ExecEvent::LogChunk(b)) => {
                let mut logs = logs;
                let chunk = utf8_lossy(&b);
                logs.append(chunk.as_str());
                self.phase = ExecPhase::Streaming { container_id, logs };
                ExecAction::AwaitLogs
            }
            (ExecPhase::Streaming { container_id, logs }, ExecEvent::LogsEnded) => {
                self.clean_up(container_id, logs, None)
            }
            (ExecPhase::Streaming { container_id, logs }, ExecEvent::LogsFailed(e)) => {
                self.clean_up(container_id, logs, Some(e))
            }
            (ExecPhase::Removing { container_id: _, logs, failure }, ExecEvent::Removed) => {
                match failure {
                    Some(e) => self.finish("error".to_owned(), e),
                    None => {
                        let store = match self.args.store_data {
                            Some(b) => b,
                            None => false,
                        };
                        if store {
                            let action = ExecAction::EnumerateFiles {
                                job_id: self.job_id.clone(),
                            };
                            self.phase = ExecPhase::Collecting { logs };
                            action
                        } else {
                            self.finish("done".to_owned(), logs)
                        }
                    }
                }
            }
            (ExecPhase::Removing { container_id: _, logs: _, failure }, ExecEvent::RemoveFailed(e)) => {
                match failure {
                    Some(first) => self.finish("error".to_owned(), first),
                    None => self.finish("error".to_owned(), e),
                }
            }
            (ExecPhase::Collecting { logs }, ExecEvent::FilesListed { data_root, paths }) => {
                match paths {
                    Some(paths) => {
                        let mut requests: Vec<UploadRequest> = Vec::new();
                        let mut i: usize = 0;
                        while i < paths.len()
                            invariant
                                i <= paths@.len(),
                                requests@.len() == i as int,
                                forall|a: int|
                                    0 <= a < i ==> (#[trigger] requests@[a]).local_path@
                                        == paths@[a]@ && requests@[a].key@ == storage_key_fn(
                                        paths@[a]@,
                                        data_root@,
                                    ) && requests@[a].job_id@ == self.job_id@,
                            decreases paths@.len() - i,
                        {
                            let key = storage_key(paths[i].as_str(), data_root.as_str());
                            requests.push(
                                UploadRequest {
                                    local_path: paths[i].clone(),
                                    key,
                                    job_id: self.job_id.clone(),
                                },
                            );
                            i = i + 1;
                        }
                        self.phase = ExecPhase::Uploading { logs };
                        ExecAction::Upload { requests }
                    }
                    None => self.finish("done".to_owned(), logs),
                }
            }
            (ExecPhase::Uploading { logs }, ExecEvent::UploadsDone) => {
                self.finish("done".to_owned(), logs)
            }
            (p, _) => {
                self.phase = p;
                ExecAction::Idle
            }
        }
    }

    fn clean_up(&mut self, container_id: String, logs: String, failure: Option<String>) -> (action: ExecAction)
        ensures
            final(self).job_id == old(self).job_id,
            final(self).args == old(self).args,
            cleans_up(*final(self), action, container_id@, logs@, view_opt(failure)),
    {
        let action = ExecAction::RemoveContainer { container_id: container_id.clone() };
        self.phase = ExecPhase::Removing { container_id, logs, failure };
        action
    }
}

/// Law: one event never moves the lifecycle backwards — the status goes
/// pending, then running, then completed, each left at most once — and a
/// completed machine never changes again.
pub proof fn lemma_status_monotone(
    pre: ExecMachine,
    event: ExecEvent,
    post: ExecMachine,
    action: ExecAction,
)
    requires
        step_rel(pre, event, post, action),
    ensures
        phase_rank(post.phase) >= phase_rank(pre.phase),
        pre.phase is Finished ==> post.phase == pre.phase && action is Idle,
{
}

/// The registry status that belongs to each phase: pending before the
/// container exists, running from creation to the last cleanup step,
/// completed once the outcome stands.
pub open spec fn phase_rank(p: ExecPhase) -> int {
    match p {
        ExecPhase::Init => 0,
        ExecPhase::Pulling => 0,
        ExecPhase::PreparingDir => 0,
        ExecPhase::Creating => 0,
        ExecPhase::Starting { .. } => 1,
        ExecPhase::CreatingExec { .. } => 1,
        ExecPhase::StartingExec { .. } => 1,
        ExecPhase::ResizingExec { .. } => 1,
        ExecPhase::Interactive { .. } => 1,
        ExecPhase::Streaming { .. } => 1,
        ExecPhase::Removing { .. } => 1,
        ExecPhase::Collecting { .. } => 1,
        ExecPhase::Uploading { .. } => 1,
        ExecPhase::Finished { .. } => 2,
    }
}

/// Law: when the image pull fails with error text `e`, the job completes at
/// once with status `"error"` and `e` as its logs, and no container is
/// created: the machine is terminal without ever having issued a create.
pub proof fn lemma_pull_failure_terminal(
    pre: ExecMachine,
    e: String,
    post: ExecMachine,
    action: ExecAction,
)
    requires
        pre.phase is Pulling,
        step_rel(pre, ExecEvent::PullFailed(e), post, action),
    ensures
        finishes(pre, post, action, "error"@, e@),
{
}

/// Law: a non-interactive job that reaches the end of its log stream with
/// collected logs `L`, and was not asked to persist result data, first
/// removes its container and then completes with status `"done"` and logs
/// exactly `L`.
pub proof fn lemma_log_branch_outcome(
    m0: ExecMachine,
    container_id: String,
    logs: String,
    post1: ExecMachine,
    a1: ExecAction,
    post2: ExecMachine,
    a2: ExecAction,
)
    requires
        m0.phase == (ExecPhase::Streaming { container_id, logs }),
        m0.args.store_data != Some(true),
        step_rel(m0, ExecEvent::LogsEnded, post1, a1),
        step_rel(post1, ExecEvent::Removed, post2, a2),
    ensures
        a1 matches ExecAction::RemoveContainer { container_id: c } && c@ == container_id@,
        finishes(post1, post2, a2, "done"@, logs@),
        post2.phase matches ExecPhase::Finished { outcome } && outcome_is(
            outcome,
            m0.job_id@,
            "done"@,
            logs@,
        ),
{
}

/// Law: result files are enumerated only right after the container has
/// been removed on a success path, and every collected file is uploaded
/// exactly once, keyed by its path relative to the data root.
pub proof fn lemma_uploads_after_removal(
    pre: ExecMachine,
    event: ExecEvent,
    post: ExecMachine,
    action: ExecAction,
)
    requires
        step_rel(pre, event, post, action),
    ensures
        action matches ExecAction::EnumerateFiles { .. } ==> pre.phase matches ExecPhase::Removing {
            failure: None,
            ..
        } && event is Removed,
        action matches ExecAction::Upload { requests } ==> (event matches ExecEvent::FilesListed {
            data_root,
            paths: Some(paths),
        } && uploads_match(requests@, paths.deep_view(), data_root@, pre.job_id@)),
{
}

} // verus!
