//! The devcontainer configuration model: plain data as the configuration
//! loader hands it over, plus the command values built from it.
//!
//! Parsing the configuration files is the caller's job; the types here hold
//! the parsed result, and the functions derive the argument vectors the
//! lifecycle machinery runs.

use vstd::prelude::*;

use crate::strutil::{concat_str, spec_has_prefix};
use crate::table::spec_join_tail;

verus! {

/// A command from configuration: either a shell text run through `/bin/sh`,
/// or an explicit argument vector.
#[derive(Debug)]
pub enum Cmd {
    Shell(String),
    Args(Vec<String>),
}

/// Mathematical view of a [`Cmd`].
#[verifier::ext_equal]
pub ghost enum CmdV {
    Shell(Seq<char>),
    Args(Seq<Seq<char>>),
}

impl DeepView for Cmd {
    type V = CmdV;

    open spec fn deep_view(&self) -> CmdV {
        match self {
            Cmd::Shell(s) => CmdV::Shell(s@),
            Cmd::Args(a) => CmdV::Args(a.deep_view()),
        }
    }
}

impl Clone for Cmd {
    fn clone(&self) -> (r: Self)
        ensures
            r.deep_view() == self.deep_view(),
    {
        match self {
            Cmd::Shell(s) => Cmd::Shell(s.clone()),
            Cmd::Args(a) => {
                let r = Cmd::Args(a.clone());
                proof {
                    assert(r.deep_view() =~~= self.deep_view());
                }
                r
            },
        }
    }
}

/// Well-formedness of a command: an argument-vector command names at least
/// the program to run.
pub open spec fn cmd_wf(c: Cmd) -> bool {
    match c {
        Cmd::Shell(_) => true,
        Cmd::Args(a) => a@.len() >= 1,
    }
}

/// The argument vector a command runs as: a shell command becomes
/// `/bin/sh -c <text>`, an argument vector stands as it is.
pub open spec fn spec_cmd_args(c: Cmd) -> Seq<Seq<char>> {
    match c {
        Cmd::Shell(prog) => seq!["/bin/sh"@, "-c"@, prog@],
        Cmd::Args(a) => a.deep_view(),
    }
}

/// The display text of a command: the shell text itself, or the argument
/// vector joined by spaces.
pub open spec fn spec_cmd_text(c: Cmd) -> Seq<char> {
    match c {
        Cmd::Shell(prog) => prog@,
        Cmd::Args(a) => {
            if a@.len() == 0 {
                Seq::empty()
            } else {
                a.deep_view()[0] + spec_join_tail(a.deep_view().skip(1))
            }
        },
    }
}

impl Cmd {
    /// The argument vector this command runs as. Callers hand in a
    /// well-formed command — an argument-vector command names at least the
    /// program — so the result always has something to run.
    pub fn as_args(&self) -> (r: Vec<String>)
        requires
            cmd_wf(*self),
        ensures
            r.deep_view() == spec_cmd_args(*self),
            r.deep_view().len() >= 1,
    {
        match self {
            Cmd::Shell(prog) => {
                let mut v: Vec<String> = Vec::new();
                v.push(String::from_str("/bin/sh"));
                v.push(String::from_str("-c"));
                v.push(prog.clone());
                proof {
                    assert(v.deep_view() =~= spec_cmd_args(*self));
                }
                v
            },
            Cmd::Args(args) => {
                let mut v: Vec<String> = Vec::new();
                let mut i: usize = 0;
                while i < args.len()
                    invariant
                        0 <= i <= args@.len(),
                        v.deep_view() == args.deep_view().take(i as int),
                    decreases args@.len() - i,
                {
                    proof {
                        assert(args.deep_view().take(i + 1).drop_last() =~= args.deep_view().take(
                            i as int,
                        ));
                        assert(args.deep_view().take(i + 1).last() == args.deep_view()[i as int]);
                    }
                    let ghost old_dv = v.deep_view();
                    v.push(args[i].clone());
                    proof {
                        assert(v.deep_view() =~= old_dv.push(args@[i as int]@));
                    }
                    i += 1;
                }
                proof {
                    assert(args.deep_view().take(args@.len() as int) =~= args.deep_view());
                }
                v
            },
        }
    }

    /// The display text of this command.
    #[verifier::loop_isolation(false)]
    pub fn command_text(&self) -> (r: String)
        ensures
            r@ == spec_cmd_text(*self),
    {
        match self {
            Cmd::Shell(prog) => prog.clone(),
            Cmd::Args(args) => {
                if args.len() == 0 {
                    return String::new();
                }
                let ghost adv = args.deep_view();
                let mut out = args[0].clone();
                let mut i: usize = 1;
                while i < args.len()
                    invariant
                        1 <= i <= adv.len(),
                        out@ == adv[0] + spec_join_tail(adv.skip(1).take(i - 1)),
                    decreases adv.len() - i,
                {
                    proof {
                        assert(adv.skip(1).take(i as int).drop_last() =~= adv.skip(1).take(i - 1));
                        assert(adv.skip(1).take(i as int).last() == adv[i as int]);
                    }
                    out.push(' ');
                    out.append(args[i].as_str());
                    i += 1;
                }
                proof {
                    assert(adv.skip(1).take(adv.len() - 1) =~= adv.skip(1));
                }
                out
            },
        }
    }
}

/// One argument of a `docker exec` environment: `key=value`, or the bare
/// key to pass the variable through.
pub open spec fn spec_env_arg(kv: (Seq<char>, Option<Seq<char>>)) -> Seq<char> {
    match kv.1 {
        Option::Some(v) => kv.0 + "="@ + v,
        Option::None => kv.0,
    }
}

/// The `-e` argument pairs for an environment listing, in order.
pub open spec fn spec_env_args(env: Seq<(Seq<char>, Option<Seq<char>>)>) -> Seq<Seq<char>>
    decreases env.len(),
{
    if env.len() == 0 {
        Seq::empty()
    } else {
        spec_env_args(env.drop_last()) + seq!["-e"@, spec_env_arg(env.last())]
    }
}

/// The full `docker` argument vector of an in-container exec:
/// `exec [-u user] [-w workdir] [-e k=v]... container <command args>`.
pub open spec fn spec_docker_exec_args(
    container: Seq<char>,
    cmd: Cmd,
    user: Option<Seq<char>>,
    workdir: Option<Seq<char>>,
    env: Seq<(Seq<char>, Option<Seq<char>>)>,
) -> Seq<Seq<char>> {
    seq!["exec"@] + (match user {
        Option::Some(u) => seq!["-u"@, u],
        Option::None => Seq::empty(),
    }) + (match workdir {
        Option::Some(w) => seq!["-w"@, w],
        Option::None => Seq::empty(),
    }) + spec_env_args(env) + seq![container] + spec_cmd_args(cmd)
}

/// Build the `docker` argument vector for an in-container exec; the
/// command must be well-formed.
#[verifier::loop_isolation(false)]
pub fn docker_exec_args(
    container: &str,
    cmd: &Cmd,
    user: &Option<String>,
    workdir: &Option<String>,
    env: &Vec<(String, Option<String>)>,
) -> (r: Vec<String>)
    requires
        cmd_wf(*cmd),
    ensures
        r.deep_view() == spec_docker_exec_args(
            container@,
            *cmd,
            user.deep_view(),
            workdir.deep_view(),
            env.deep_view(),
        ),
{
    let ghost expected_head = seq!["exec"@] + (match user.deep_view() {
        Option::Some(u) => seq!["-u"@, u],
        Option::None => Seq::<Seq<char>>::empty(),
    }) + (match workdir.deep_view() {
        Option::Some(w) => seq!["-w"@, w],
        Option::None => Seq::<Seq<char>>::empty(),
    });
    let mut args: Vec<String> = Vec::new();
    args.push(String::from_str("exec"));
    match user {
        Option::Some(u) => {
            args.push(String::from_str("-u"));
            args.push(u.clone());
        },
        Option::None => {},
    }
    match workdir {
        Option::Some(w) => {
            args.push(String::from_str("-w"));
            args.push(w.clone());
        },
        Option::None => {},
    }
    proof {
        assert(args.deep_view() =~= expected_head);
    }
    let edv: Ghost<Seq<(Seq<char>, Option<Seq<char>>)>> = Ghost(env.deep_view());
    let mut i: usize = 0;
    while i < env.len()
        invariant
            0 <= i <= env@.len(),
            edv@ == env.deep_view(),
            args.deep_view() == expected_head + spec_env_args(edv@.take(i as int)),
        decreases env@.len() - i,
    {
        proof {
            assert(edv@.take(i + 1).drop_last() =~= edv@.take(i as int));
            assert(edv@.take(i + 1).last() == edv@[i as int]);
        }
        let ghost dv0 = args.deep_view();
        args.push(String::from_str("-e"));
        proof {
            assert(args.deep_view() =~= dv0.push("-e"@));
        }
        let kv = match &env[i].1 {
            Option::Some(v) => {
                let mut s = env[i].0.clone();
                s.push('=');
                s.append(v.as_str());
                s
            },
            Option::None => env[i].0.clone(),
        };
        proof {
            reveal_strlit("=");
            assert(kv@ =~= spec_env_arg(edv@[i as int]));
        }
        let ghost dv1 = args.deep_view();
        let ghost kvv = kv@;
        args.push(kv);
        proof {
            assert(args.deep_view() =~= dv1.push(kvv));
            assert(spec_env_args(edv@.take(i + 1)) =~= spec_env_args(edv@.take(i as int)) + seq![
                "-e"@,
                spec_env_arg(edv@[i as int]),
            ]);
            assert(args.deep_view() =~= expected_head + spec_env_args(edv@.take(i + 1)));
        }
        i += 1;
    }
    proof {
        assert(edv@.take(env@.len() as int) =~= edv@);
    }
    args.push(String::from_str(container));
    let cmd_args = cmd.as_args();
    let mut rest = cmd_args;
    let ghost cargs = spec_cmd_args(*cmd);
    let ghost mut cdone: int = 0;
    proof {
        assert(rest.deep_view() =~= cargs.skip(0));
        assert(args.deep_view() =~= expected_head + spec_env_args(edv@) + seq![container@]
            + cargs.take(0));
    }
    while rest.len() > 0
        invariant
            0 <= cdone <= cargs.len(),
            rest.deep_view() == cargs.skip(cdone),
            args.deep_view() == expected_head + spec_env_args(edv@) + seq![container@]
                + cargs.take(cdone),
        decreases rest@.len(),
    {
        let ghost rest_before = rest@;
        let a = rest.remove(0);
        proof {
            assert(a == rest_before[0]);
            assert(rest_before[0].deep_view() == cargs.skip(cdone)[0]);
            assert(a@ == cargs[cdone]);
            assert forall|k: int| 0 <= k < rest@.len() implies rest.deep_view()[k] == cargs.skip(
                cdone + 1,
            )[k] by {
                assert(rest@[k] == rest_before[k + 1]);
                assert(rest_before[k + 1].deep_view() == cargs.skip(cdone)[k + 1]);
            }
            assert(rest.deep_view() =~= cargs.skip(cdone + 1));
        }
        let ghost av = a@;
        let ghost dvb = args.deep_view();
        args.push(a);
        proof {
            assert(args.deep_view() =~= dvb.push(av));
            assert(cargs.take(cdone + 1).drop_last() =~= cargs.take(cdone));
            assert(cargs.take(cdone + 1).last() == cargs[cdone]);
            assert(args.deep_view() =~= expected_head + spec_env_args(edv@) + seq![container@]
                + cargs.take(cdone + 1));
            cdone = cdone + 1;
        }
    }
    proof {
        assert(cargs.take(cargs.len() as int) =~= cargs);
        assert(args.deep_view() =~= spec_docker_exec_args(
            container@,
            *cmd,
            user.deep_view(),
            workdir.deep_view(),
            env.deep_view(),
        ));
    }
    args
}


/// The command an interactive exec runs: the user's explicit argument
/// vector when one was given, else the configured default, else a login
/// shell.
pub open spec fn spec_exec_cmd(cmd_args: Seq<Seq<char>>, default_exec: Option<CmdV>) -> CmdV {
    if cmd_args.len() > 0 {
        CmdV::Args(cmd_args)
    } else {
        match default_exec {
            Option::Some(c) => c,
            Option::None => CmdV::Shell("exec $SHELL"@),
        }
    }
}

/// Choose the command an interactive exec runs; with a well-formed
/// configured default, the choice is well-formed too.
pub fn choose_exec_cmd(cmd_args: Vec<String>, default_exec: Option<Cmd>) -> (r: Cmd)
    ensures
        r.deep_view() == spec_exec_cmd(cmd_args.deep_view(), default_exec.deep_view()),
        (match default_exec {
            Option::Some(c) => cmd_wf(c),
            Option::None => true,
        }) ==> cmd_wf(r),
{
    if cmd_args.len() > 0 {
        Cmd::Args(cmd_args)
    } else {
        match default_exec {
            Option::Some(c) => c,
            Option::None => Cmd::Shell(String::from_str("exec $SHELL")),
        }
    }
}

/// A command of the container lifecycle: one command, or a set of labeled
/// commands to run as a parallel batch.
#[derive(Debug)]
pub enum LifecycleCommand {
    Single(Cmd),
    Parallel(Vec<(String, Cmd)>),
}

/// Mathematical view of a [`LifecycleCommand`].
#[verifier::ext_equal]
pub ghost enum LifecycleCommandV {
    Single(CmdV),
    Parallel(Seq<(Seq<char>, CmdV)>),
}

impl DeepView for LifecycleCommand {
    type V = LifecycleCommandV;

    open spec fn deep_view(&self) -> LifecycleCommandV {
        match self {
            LifecycleCommand::Single(c) => LifecycleCommandV::Single(c.deep_view()),
            LifecycleCommand::Parallel(v) => LifecycleCommandV::Parallel(v.deep_view()),
        }
    }
}

impl Clone for LifecycleCommand {
    fn clone(&self) -> (r: Self)
        ensures
            r.deep_view() == self.deep_view(),
    {
        match self {
            LifecycleCommand::Single(c) => LifecycleCommand::Single(c.clone()),
            LifecycleCommand::Parallel(v) => {
                let mut out: Vec<(String, Cmd)> = Vec::new();
                let mut i: usize = 0;
                while i < v.len()
                    invariant
                        0 <= i <= v@.len(),
                        out.deep_view() == v.deep_view().take(i as int),
                    decreases v@.len() - i,
                {
                    proof {
                        assert(v.deep_view().take(i + 1).drop_last() =~= v.deep_view().take(
                            i as int,
                        ));
                        assert(v.deep_view().take(i + 1).last() == v.deep_view()[i as int]);
                    }
                    let ghost old_dv = out.deep_view();
                    let label = v[i].0.clone();
                    let cmd = v[i].1.clone();
                    let ghost pv = (label@, cmd.deep_view());
                    out.push((label, cmd));
                    proof {
                        assert(out.deep_view() =~= old_dv.push(pv));
                        assert(pv == v.deep_view()[i as int]);
                    }
                    i += 1;
                }
                proof {
                    assert(v.deep_view().take(v@.len() as int) =~= v.deep_view());
                }
                let r = LifecycleCommand::Parallel(out);
                proof {
                    assert(r.deep_view() =~~= self.deep_view());
                }
                r
            },
        }
    }
}

/// One optional lifecycle step, labeled.
pub open spec fn spec_lifecycle_step(
    label: Seq<char>,
    cmd: Option<LifecycleCommandV>,
) -> Seq<(Seq<char>, LifecycleCommandV)> {
    match cmd {
        Option::Some(c) => seq![(label, c)],
        Option::None => Seq::empty(),
    }
}

/// The in-container lifecycle steps of a configuration, in the order the
/// devcontainer specification runs them: `onCreateCommand`,
/// `updateContentCommand`, `postCreateCommand`, `postStartCommand` —
/// each present only when configured.
pub open spec fn spec_lifecycle_sequence(
    on_create: Option<LifecycleCommandV>,
    update_content: Option<LifecycleCommandV>,
    post_create: Option<LifecycleCommandV>,
    post_start: Option<LifecycleCommandV>,
) -> Seq<(Seq<char>, LifecycleCommandV)> {
    spec_lifecycle_step("onCreateCommand"@, on_create) + spec_lifecycle_step(
        "updateContentCommand"@,
        update_content,
    ) + spec_lifecycle_step("postCreateCommand"@, post_create) + spec_lifecycle_step(
        "postStartCommand"@,
        post_start,
    )
}

/// The labeled in-container lifecycle steps to run, in specification
/// order.
pub fn container_lifecycle_sequence(common: &Common) -> (r: Vec<(String, LifecycleCommand)>)
    ensures
        r.deep_view() == spec_lifecycle_sequence(
            common.on_create_command.deep_view(),
            common.update_content_command.deep_view(),
            common.post_create_command.deep_view(),
            common.post_start_command.deep_view(),
        ),
{
    let mut out: Vec<(String, LifecycleCommand)> = Vec::new();
    match &common.on_create_command {
        Option::Some(c) => {
            out.push((String::from_str("onCreateCommand"), c.clone()));
        },
        Option::None => {},
    }
    match &common.update_content_command {
        Option::Some(c) => {
            out.push((String::from_str("updateContentCommand"), c.clone()));
        },
        Option::None => {},
    }
    match &common.post_create_command {
        Option::Some(c) => {
            out.push((String::from_str("postCreateCommand"), c.clone()));
        },
        Option::None => {},
    }
    match &common.post_start_command {
        Option::Some(c) => {
            out.push((String::from_str("postStartCommand"), c.clone()));
        },
        Option::None => {},
    }
    proof {
        assert(out.deep_view() =~= spec_lifecycle_sequence(
            common.on_create_command.deep_view(),
            common.update_content_command.deep_view(),
            common.post_create_command.deep_view(),
            common.post_start_command.deep_view(),
        ));
    }
    out
}

/// Options specific to this tool, from the `customizations` table.
#[derive(Debug, Clone, Default)]
pub struct DcOptions {
    /// Default command for interactive exec.
    pub default_exec: Option<Cmd>,
    /// Directory worktrees are created in; `/tmp/` when unset, resolved
    /// against the project path when relative.
    pub worktree_folder: Option<String>,
    /// Host/container ports for port forwarding.
    pub ports: Option<Vec<crate::portmap::PortMap>>,
    /// Volumes copied by default between workspaces.
    pub default_copy_volumes: Option<Vec<String>>,
    /// Whether to mount the project's git directory into each workspace's
    /// container, so git keeps working inside worktrees.
    pub mount_git: bool,
}

/// Where workspaces of a project live: the configured worktree folder,
/// `/tmp/` when none is configured, resolved against the project path when
/// relative.
pub open spec fn spec_workspace_dir(opts: DcOptions, project_path: Seq<char>) -> Seq<char> {
    let dir = match opts.worktree_folder {
        Option::Some(d) => d@,
        Option::None => "/tmp/"@,
    };
    if spec_has_prefix(dir, "/"@) {
        dir
    } else {
        project_path + "/"@ + dir
    }
}

impl DcOptions {
    /// The directory this project's workspaces live in.
    pub fn workspace_dir(&self, project_path: &str) -> (r: String)
        ensures
            r@ == spec_workspace_dir(*self, project_path@),
    {
        let dir: String = match &self.worktree_folder {
            Option::Some(d) => d.clone(),
            Option::None => String::from_str("/tmp/"),
        };
        if crate::strutil::has_prefix(dir.as_str(), "/") {
            dir
        } else {
            let r = concat_str(concat_str(String::from_str(project_path), "/"), dir.as_str());
            r
        }
    }
}

/// The compose flavor of a devcontainer configuration.
#[derive(Debug, Clone, Default)]
pub struct Compose {
    /// The compose file(s) that start the services.
    pub docker_compose_file: Vec<String>,
    /// The primary service: the container the editor connects to.
    pub service: String,
    /// Services to start and stop, besides the primary one.
    pub run_services: Option<Vec<String>>,
    /// The workspace folder inside the container.
    pub workspace_folder: String,
    /// What to do with the compose services on disconnect.
    pub shutdown_action: ComposeShutdownAction,
    /// Whether to overwrite the command specified in the image.
    pub override_command: bool,
}

/// A fixed container image flavor of a devcontainer configuration.
#[derive(Debug, Clone, Default)]
pub struct Image {
    pub image: String,
    pub non_compose: NonComposeProperties,
}

/// A Dockerfile flavor of a devcontainer configuration.
#[derive(Debug, Clone, Default)]
pub struct Dockerfile {
    pub docker_file: Option<String>,
    pub context: Option<String>,
    pub build: Option<BuildOptions>,
    pub non_compose: NonComposeProperties,
}

/// Which flavor a devcontainer configuration is.
#[derive(Debug, Clone)]
pub enum Kind {
    Compose(Compose),
    Image(Image),
    Dockerfile(Box<Dockerfile>),
}

/// Image build options of a Dockerfile configuration.
#[derive(Debug, Clone, Default)]
pub struct BuildOptions {
    pub target: Option<String>,
    pub args: Vec<(String, String)>,
    pub cache_from: Vec<String>,
    pub options: Vec<String>,
}

/// Properties of the non-compose configuration flavors.
#[derive(Debug, Clone, Default)]
pub struct NonComposeProperties {
    /// Application ports exposed by the container.
    pub app_port: Vec<Port>,
    /// Extra arguments when starting the container.
    pub run_args: Vec<String>,
    /// What to do with the container on disconnect.
    pub shutdown_action: NonComposeShutdownAction,
    /// Whether to overwrite the command specified in the image.
    pub override_command: bool,
    /// The workspace folder inside the container.
    pub workspace_folder: Option<String>,
    /// The mount of the project folder.
    pub workspace_mount: Option<String>,
}

/// A port in configuration: a number, or a text passed through.
#[derive(Debug, Clone)]
pub enum Port {
    Number(u16),
    Text(String),
}

/// A mount entry: a text in the engine's own syntax, or a structured form.
#[derive(Debug, Clone)]
pub enum MountEntry {
    Text(String),
    Object(Mount),
}

/// A structured mount.
#[derive(Debug, Clone)]
pub struct Mount {
    pub ty: MountType,
    pub source: Option<String>,
    pub target: String,
}

/// The kind of a mount.
#[derive(Debug, Clone, Copy, PartialEq, Eq, Structural)]
pub enum MountType {
    Bind,
    Volume,
}

/// Attributes of a forwarded port.
#[derive(Debug, Clone)]
pub struct PortAttributes {
    pub on_auto_forward: OnAutoForward,
    pub elevate_if_needed: bool,
    pub label: String,
    pub protocol: Protocol,
    pub require_local_port: bool,
}

/// The protocol of a forwarded port.
#[derive(Debug, Clone, Copy, PartialEq, Eq, Structural, Default)]
pub enum Protocol {
    #[default]
    Http,
    Https,
}

/// What to do when a port is auto-forwarded.
#[derive(Debug, Clone, Copy, PartialEq, Eq, Structural, Default)]
pub enum OnAutoForward {
    #[default]
    Notify,
    OpenBrowser,
    OpenBrowserOnce,
    OpenPreview,
    Silent,
    Ignore,
}

/// Which shell to probe for user environment variables.
#[derive(Debug, Clone, Copy, PartialEq, Eq, Structural, Default)]
pub enum UserEnvProbe {
    NoProbe,
    LoginShell,
    #[default]
    LoginInteractiveShell,
    InteractiveShell,
}

/// Which lifecycle command to wait for before continuing in the background.
#[derive(Debug, Clone, Copy, PartialEq, Eq, Structural, Default)]
pub enum WaitFor {
    InitializeCommand,
    OnCreateCommand,
    #[default]
    UpdateContentCommand,
    PostCreateCommand,
    PostStartCommand,
}

/// What to do with compose services on disconnect.
#[derive(Debug, Clone, Copy, PartialEq, Eq, Structural, Default)]
pub enum ComposeShutdownAction {
    NoAction,
    #[default]
    StopCompose,
}

/// What to do with a single container on disconnect.
#[derive(Debug, Clone, Copy, PartialEq, Eq, Structural, Default)]
pub enum NonComposeShutdownAction {
    NoAction,
    #[default]
    StopContainer,
}

/// A GPU requirement of the host.
#[derive(Debug, Clone)]
pub enum GpuRequirement {
    Bool(bool),
    Text(GpuOptional),
    Object { cores: Option<u64>, memory: Option<String> },
}

/// The `optional` GPU requirement.
#[derive(Debug, Clone, Copy, PartialEq, Eq, Structural)]
pub enum GpuOptional {
    Optional,
}

impl Default for GpuRequirement {
    fn default() -> (r: Self)
        ensures
            r == GpuRequirement::Bool(false),
    {
        GpuRequirement::Bool(false)
    }
}

/// Host hardware requirements.
#[derive(Debug, Clone, Default)]
pub struct HostRequirements {
    pub cpus: u64,
    pub memory: Option<String>,
    pub storage: Option<String>,
    pub gpu: GpuRequirement,
}

/// Tool-specific configuration under `customizations`.
#[derive(Debug, Clone, Default)]
pub struct Customizations {
    pub dc: DcOptions,
}

/// Properties common to every devcontainer flavor.
#[derive(Debug, Clone, Default)]
pub struct Common {
    /// Display name of the dev container.
    pub name: Option<String>,
    /// Ports to forward.
    pub forward_ports: Vec<Port>,
    /// Attributes per forwarded port.
    pub ports_attributes: Vec<(String, PortAttributes)>,
    /// Default attributes for other ports.
    pub other_ports_attributes: Option<PortAttributes>,
    /// Whether to map the container user onto the local user's ids.
    pub update_remote_user_uid: Option<bool>,
    /// Container environment variables, in configuration order.
    pub container_env: Vec<(String, String)>,
    /// The user the container starts as.
    pub container_user: Option<String>,
    /// Mounts to add.
    pub mounts: Vec<MountEntry>,
    /// Whether to pass `--init` when creating the container.
    pub init: Option<bool>,
    /// Whether to pass `--privileged` when creating the container.
    pub privileged: Option<bool>,
    /// Capabilities to add.
    pub cap_add: Vec<String>,
    /// Security options to add.
    pub security_opt: Vec<String>,
    /// Environment for spawned processes, in configuration order; a `None`
    /// value passes the variable through.
    pub remote_env: Vec<(String, Option<String>)>,
    /// The user spawned processes run as.
    pub remote_user: Option<String>,
    /// Runs on the host before anything else.
    pub initialize_command: Option<LifecycleCommand>,
    /// Runs when creating the container, before `updateContentCommand`.
    pub on_create_command: Option<LifecycleCommand>,
    /// Runs after `onCreateCommand`, before `postCreateCommand`.
    pub update_content_command: Option<LifecycleCommand>,
    /// Runs after `updateContentCommand`, before `postStartCommand`.
    pub post_create_command: Option<LifecycleCommand>,
    /// Runs after starting the container.
    pub post_start_command: Option<LifecycleCommand>,
    /// Runs when attaching to the container.
    pub post_attach_command: Option<LifecycleCommand>,
    /// Which lifecycle command to wait for.
    pub wait_for: WaitFor,
    /// Which shell to probe for user environment variables.
    pub user_env_probe: UserEnvProbe,
    /// Host hardware requirements.
    pub host_requirements: Option<HostRequirements>,
    /// Tool-specific configuration.
    pub customizations: Customizations,
}

/// A parsed devcontainer configuration.
#[derive(Debug, Clone)]
pub struct DevContainer {
    pub common: Common,
    pub kind: Kind,
}

} // verus!
