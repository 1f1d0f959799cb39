//! Process sandboxing: the policy each kind of browser process runs under
//! and the layers (namespaces, Landlock, capabilities, seccomp) it turns on.

use vstd::prelude::*;
use crate::text::{decimal, push_decimal, joined_path, join_path};

verus! {

/// How tightly a process is confined.
#[derive(Debug, Clone, Copy, PartialEq, Eq, Structural)]
pub enum SandboxLevel {
    /// seccomp, namespaces, Landlock and dropped capabilities.
    Maximum,
    /// seccomp and dropped capabilities.
    Standard,
    /// Dropped capabilities only.
    Minimal,
    /// No confinement.
    Disabled,
}

/// The kinds of browser process.
#[derive(Debug, Clone, Copy, PartialEq, Eq, Structural)]
pub enum ProcessType {
    /// The main interface process.
    Browser,
    /// Tab content rendering.
    Renderer,
    /// Network requests.
    Network,
    /// Browser extensions.
    Extension,
    /// Downloads and their scanning.
    Download,
}

/// What one process may do.
#[derive(Debug, Clone)]
pub struct SandboxPolicy {
    pub level: SandboxLevel,
    /// Paths it may read.
    pub fs_read: Vec<String>,
    /// Paths it may write.
    pub fs_write: Vec<String>,
    pub allow_network: bool,
    pub allowed_ports: Vec<u16>,
    pub allow_gpu: bool,
    pub allow_audio: bool,
    pub allow_camera: bool,
    pub allow_microphone: bool,
    pub allow_clipboard: bool,
    /// Memory limit in bytes.
    pub memory_limit: u64,
    /// CPU time limit in seconds.
    pub cpu_limit: u64,
    /// Open file descriptors.
    pub fd_limit: u64,
    /// Child processes.
    pub process_limit: u64,
}

/// A `SandboxPolicy` as plain values.
pub struct SandboxPolicyView {
    pub level: SandboxLevel,
    pub fs_read: Seq<Seq<char>>,
    pub fs_write: Seq<Seq<char>>,
    pub allow_network: bool,
    pub allowed_ports: Seq<u16>,
    pub allow_gpu: bool,
    pub allow_audio: bool,
    pub allow_camera: bool,
    pub allow_microphone: bool,
    pub allow_clipboard: bool,
    pub memory_limit: u64,
    pub cpu_limit: u64,
    pub fd_limit: u64,
    pub process_limit: u64,
}

/// The texts of a list of strings.
pub open spec fn texts(v: Seq<String>) -> Seq<Seq<char>> {
    v.map_values(|s: String| s@)
}

impl View for SandboxPolicy {
    type V = SandboxPolicyView;

    open spec fn view(&self) -> SandboxPolicyView {
        SandboxPolicyView {
            level: self.level,
            fs_read: texts(self.fs_read@),
            fs_write: texts(self.fs_write@),
            allow_network: self.allow_network,
            allowed_ports: self.allowed_ports@,
            allow_gpu: self.allow_gpu,
            allow_audio: self.allow_audio,
            allow_camera: self.allow_camera,
            allow_microphone: self.allow_microphone,
            allow_clipboard: self.allow_clipboard,
            memory_limit: self.memory_limit,
            cpu_limit: self.cpu_limit,
            fd_limit: self.fd_limit,
            process_limit: self.process_limit,
        }
    }
}

/// What the host gives the policies: the system font and certificate
/// paths that exist, and the user's download, configuration and cache
/// directories where they are known.
pub struct HostDirs {
    pub system_read: Vec<String>,
    pub download: Option<String>,
    pub config: Option<String>,
    pub cache: Option<String>,
}

/// Bytes in a mebibyte.
pub const MIB: u64 = 1024 * 1024;

/// The default policy, reading `read`: maximum confinement, network on
/// ports 80, 443 and 9150, GPU, audio and clipboard but no camera or
/// microphone, 512 MiB, 300 s of CPU, 128 descriptors, 4 processes.
pub open spec fn base_policy(read: Seq<Seq<char>>) -> SandboxPolicyView {
    SandboxPolicyView {
        level: SandboxLevel::Maximum,
        fs_read: read,
        fs_write: seq![],
        allow_network: true,
        allowed_ports: seq![80u16, 443u16, 9150u16],
        allow_gpu: true,
        allow_audio: true,
        allow_camera: false,
        allow_microphone: false,
        allow_clipboard: true,
        memory_limit: (512 * MIB) as u64,
        cpu_limit: 300,
        fd_limit: 128,
        process_limit: 4,
    }
}

/// A known directory's text, or `default`.
pub open spec fn dir_or(d: Option<String>, default: Seq<char>) -> Seq<char> {
    match d {
        Some(s) => s@,
        None => default,
    }
}

/// The policy of each kind of process on a host.
pub open spec fn spec_policy_for(pt: ProcessType, host: HostDirs) -> SandboxPolicyView {
    let base = base_policy(texts(host.system_read@));
    match pt {
        ProcessType::Renderer => SandboxPolicyView {
            level: SandboxLevel::Maximum,
            allow_network: false,
            allow_gpu: true,
            allow_camera: false,
            allow_microphone: false,
            memory_limit: (512 * MIB) as u64,
            ..base
        },
        ProcessType::Network => SandboxPolicyView {
            level: SandboxLevel::Maximum,
            allow_network: true,
            allow_gpu: false,
            allow_audio: false,
            fs_write: seq![],
            memory_limit: (256 * MIB) as u64,
            ..base
        },
        ProcessType::Extension => SandboxPolicyView {
            level: SandboxLevel::Maximum,
            allow_network: false,
            allow_gpu: false,
            allow_audio: false,
            memory_limit: (128 * MIB) as u64,
            process_limit: 1,
            ..base
        },
        ProcessType::Download => SandboxPolicyView {
            level: SandboxLevel::Standard,
            allow_network: true,
            allow_gpu: false,
            allow_audio: false,
            fs_write: seq![dir_or(host.download, "/tmp"@)],
            memory_limit: (1024 * MIB) as u64,
            ..base
        },
        ProcessType::Browser => SandboxPolicyView {
            level: SandboxLevel::Standard,
            allow_network: true,
            allow_gpu: true,
            allow_audio: true,
            allow_clipboard: true,
            fs_read: seq!["/usr"@, "/etc"@],
            fs_write: seq![
                joined_path(dir_or(host.config, Seq::empty()), "voidweb"@),
                joined_path(dir_or(host.cache, Seq::empty()), "voidweb"@),
            ],
            memory_limit: (2048 * MIB) as u64,
            ..base
        },
    }
}

/// A copy of a list of strings.
fn copy_strings(v: &Vec<String>) -> (r: Vec<String>)
    ensures
        texts(r@) == texts(v@),
{
    let mut r: Vec<String> = Vec::new();
    let mut i: usize = 0;
    while i < v.len()
        invariant
            i <= v@.len(),
            texts(r@) == texts(v@.take(i as int)),
        decreases v@.len() - i,
    {
        let ghost before = r@;
        r.push(v[i].clone());
        proof {
            assert(texts(r@) =~= texts(before).push(v@[i as int]@));
            assert(texts(v@.take(i + 1)) =~= texts(v@.take(i as int)).push(v@[i as int]@));
        }
        i = i + 1;
    }
    proof {
        assert(v@.take(v@.len() as int) =~= v@);
    }
    r
}

/// A list holding the text of one directory, or of `default`.
fn dir_list(d: &Option<String>, default: &str) -> (r: Vec<String>)
    ensures
        texts(r@) == seq![dir_or(*d, default@)],
{
    let mut r: Vec<String> = Vec::new();
    match d {
        Some(s) => r.push(s.clone()),
        None => r.push(String::from_str(default)),
    }
    proof {
        assert(texts(r@) =~= seq![dir_or(*d, default@)]);
    }
    r
}

impl SandboxPolicy {
    /// The default policy, reading `fs_read`.
    pub fn base(fs_read: Vec<String>) -> (r: Self)
        ensures
            r@ == base_policy(texts(fs_read@)),
    {
        let mut ports: Vec<u16> = Vec::new();
        ports.push(80);
        ports.push(443);
        ports.push(9150);
        let r = SandboxPolicy {
            level: SandboxLevel::Maximum,
            fs_read,
            fs_write: Vec::new(),
            allow_network: true,
            allowed_ports: ports,
            allow_gpu: true,
            allow_audio: true,
            allow_camera: false,
            allow_microphone: false,
            allow_clipboard: true,
            memory_limit: 512 * MIB,
            cpu_limit: 300,
            fd_limit: 128,
            process_limit: 4,
        };
        proof {
            assert(r@.allowed_ports =~= seq![80u16, 443u16, 9150u16]);
            assert(r@.fs_write =~= seq![]);
        }
        r
    }
}

/// The policy a process of type `process_type` runs under on `host`.
pub fn policy_for_process(process_type: ProcessType, host: &HostDirs) -> (r: SandboxPolicy)
    ensures
        r@ == spec_policy_for(process_type, *host),
{
    let base = SandboxPolicy::base(copy_strings(&host.system_read));
    match process_type {
        ProcessType::Renderer => SandboxPolicy {
            level: SandboxLevel::Maximum,
            allow_network: false,
            allow_gpu: true,
            allow_camera: false,
            allow_microphone: false,
            memory_limit: 512 * MIB,
            ..base
        },
        ProcessType::Network => {
            let r = SandboxPolicy {
                level: SandboxLevel::Maximum,
                allow_network: true,
                allow_gpu: false,
                allow_audio: false,
                fs_write: Vec::new(),
                memory_limit: 256 * MIB,
                ..base
            };
            proof {
                assert(r@.fs_write =~= seq![]);
            }
            r
        },
        ProcessType::Extension => SandboxPolicy {
            level: SandboxLevel::Maximum,
            allow_network: false,
            allow_gpu: false,
            allow_audio: false,
            memory_limit: 128 * MIB,
            process_limit: 1,
            ..base
        },
        ProcessType::Download => SandboxPolicy {
            level: SandboxLevel::Standard,
            allow_network: true,
            allow_gpu: false,
            allow_audio: false,
            fs_write: dir_list(&host.download, "/tmp"),
            memory_limit: 1024 * MIB,
            ..base
        },
        ProcessType::Browser => {
            let mut read: Vec<String> = Vec::new();
            read.push(String::from_str("/usr"));
            read.push(String::from_str("/etc"));
            let config = match &host.config {
                Some(c) => join_path(c.as_str(), "voidweb"),
                None => join_path("", "voidweb"),
            };
            let cache = match &host.cache {
                Some(c) => join_path(c.as_str(), "voidweb"),
                None => join_path("", "voidweb"),
            };
            let mut write: Vec<String> = Vec::new();
            write.push(config);
            write.push(cache);
            proof {
                reveal_strlit("");
                assert(texts(read@) =~= seq!["/usr"@, "/etc"@]);
                assert(texts(write@) =~= seq![
                    joined_path(dir_or(host.config, Seq::empty()), "voidweb"@),
                    joined_path(dir_or(host.cache, Seq::empty()), "voidweb"@),
                ]);
            }
            SandboxPolicy {
                level: SandboxLevel::Standard,
                allow_network: true,
                allow_gpu: true,
                allow_audio: true,
                allow_clipboard: true,
                fs_read: read,
                fs_write: write,
                memory_limit: 2048 * MIB,
                ..base
            }
        },
    }
}

/// The log line of the seccomp layer, none when the sandbox is disabled.
pub open spec fn seccomp_line(p: SandboxPolicyView) -> Option<Seq<char>> {
    if p.level == SandboxLevel::Disabled {
        None
    } else {
        Some("[sandbox] seccomp-BPF filter applied ("@ + (if p.level == SandboxLevel::Maximum {
            "renderer"@
        } else {
            "standard"@
        }) + " syscalls allowed)"@)
    }
}

/// The log line of the Landlock layer, none at minimal confinement or
/// below.
pub open spec fn landlock_line(p: SandboxPolicyView) -> Option<Seq<char>> {
    if p.level == SandboxLevel::Disabled || p.level == SandboxLevel::Minimal {
        None
    } else {
        Some("[sandbox] Landlock filesystem restrictions applied (read: "@ + decimal(p.fs_read.len())
            + ", write: "@ + decimal(p.fs_write.len()) + ")"@)
    }
}

/// The log line of dropping capabilities and setting limits, none when
/// the sandbox is disabled.
pub open spec fn caps_line(p: SandboxPolicyView) -> Option<Seq<char>> {
    if p.level == SandboxLevel::Disabled {
        None
    } else {
        Some("[sandbox] Capabilities dropped, resource limits set (mem: "@ + decimal(
            (p.memory_limit / MIB) as nat,
        ) + "MB, fds: "@ + decimal(p.fd_limit as nat) + ", procs: "@ + decimal(p.process_limit as nat)
            + ")"@)
    }
}

/// The log line of namespace isolation, only at maximum confinement; the
/// network namespace is added when the process has no network.
pub open spec fn namespaces_line(p: SandboxPolicyView) -> Option<Seq<char>> {
    if p.level != SandboxLevel::Maximum {
        None
    } else {
        Some("[sandbox] Namespace isolation applied (user, pid, mount, ipc"@ + (if !p.allow_network {
            ", net"@
        } else {
            Seq::empty()
        }) + ")"@)
    }
}

/// The seccomp layer for `policy`: the line it logs when applied, none
/// when the sandbox is disabled.
pub fn apply_seccomp(policy: &SandboxPolicy) -> (r: Option<String>)
    ensures
        match r {
            Some(s) => seccomp_line(policy@) == Some(s@),
            None => seccomp_line(policy@) is None,
        },
{
    if policy.level == SandboxLevel::Disabled {
        return None;
    }
    let mut s = String::from_str("[sandbox] seccomp-BPF filter applied (");
    if policy.level == SandboxLevel::Maximum {
        s.append("renderer");
    } else {
        s.append("standard");
    }
    s.append(" syscalls allowed)");
    Some(s)
}

/// The Landlock layer for `policy`: the line it logs when applied, none at
/// minimal confinement or below.
pub fn apply_landlock(policy: &SandboxPolicy) -> (r: Option<String>)
    ensures
        match r {
            Some(s) => landlock_line(policy@) == Some(s@),
            None => landlock_line(policy@) is None,
        },
{
    if policy.level == SandboxLevel::Disabled || policy.level == SandboxLevel::Minimal {
        return None;
    }
    let mut s = String::from_str("[sandbox] Landlock filesystem restrictions applied (read: ");
    push_decimal(&mut s, policy.fs_read.len() as u64);
    s.append(", write: ");
    push_decimal(&mut s, policy.fs_write.len() as u64);
    s.append(")");
    Some(s)
}

/// Dropping capabilities and setting limits for `policy`: the line it logs
/// when applied, none when the sandbox is disabled.
pub fn apply_caps_and_limits(policy: &SandboxPolicy) -> (r: Option<String>)
    ensures
        match r {
            Some(s) => caps_line(policy@) == Some(s@),
            None => caps_line(policy@) is None,
        },
{
    if policy.level == SandboxLevel::Disabled {
        return None;
    }
    let mut s = String::from_str("[sandbox] Capabilities dropped, resource limits set (mem: ");
    push_decimal(&mut s, policy.memory_limit / MIB);
    s.append("MB, fds: ");
    push_decimal(&mut s, policy.fd_limit);
    s.append(", procs: ");
    push_decimal(&mut s, policy.process_limit);
    s.append(")");
    Some(s)
}

/// Namespace isolation for `policy`: the line it logs when applied, only
/// at maximum confinement.
pub fn apply_namespaces(policy: &SandboxPolicy) -> (r: Option<String>)
    ensures
        match r {
            Some(s) => namespaces_line(policy@) == Some(s@),
            None => namespaces_line(policy@) is None,
        },
{
    if policy.level != SandboxLevel::Maximum {
        return None;
    }
    let mut s = String::from_str("[sandbox] Namespace isolation applied (user, pid, mount, ipc");
    if !policy.allow_network {
        s.append(", net");
    }
    s.append(")");
    proof {
        assert(s@ =~= namespaces_line(policy@)->0);
    }
    Some(s)
}


/// A line as a list of none or one.
pub open spec fn line_list(l: Option<Seq<char>>) -> Seq<Seq<char>> {
    match l {
        Some(x) => seq![x],
        None => seq![],
    }
}

/// What setting up the sandbox logs, in order: a warning alone when it is
/// disabled, else the lines of namespaces, Landlock, capabilities and
/// seccomp that apply (the most restrictive layer last).
pub open spec fn sandbox_lines(p: SandboxPolicyView) -> Seq<Seq<char>> {
    if p.level == SandboxLevel::Disabled {
        seq!["[sandbox] WARNING: Sandbox disabled!"@]
    } else {
        line_list(namespaces_line(p)) + line_list(landlock_line(p)) + line_list(caps_line(p))
            + line_list(seccomp_line(p))
    }
}

/// Append a line if there is one.
fn push_line(v: &mut Vec<String>, l: Option<String>)
    ensures
        texts(final(v)@) == texts(old(v)@) + (match l {
            Some(x) => seq![x@],
            None => Seq::<Seq<char>>::empty(),
        }),
{
    let ghost before = v@;
    match l {
        Some(x) => {
            v.push(x);
            proof {
                assert(texts(v@) =~= texts(before) + seq![x@]);
            }
        },
        None => {
            proof {
                assert(texts(v@) =~= texts(before) + Seq::<Seq<char>>::empty());
            }
        },
    }
}

/// The layers of the sandbox for `policy`, as the lines they log.
pub fn sandbox_steps(policy: &SandboxPolicy) -> (r: Vec<String>)
    ensures
        texts(r@) == sandbox_lines(policy@),
{
    let mut v: Vec<String> = Vec::new();
    if policy.level == SandboxLevel::Disabled {
        v.push(String::from_str("[sandbox] WARNING: Sandbox disabled!"));
        proof {
            assert(texts(v@) =~= sandbox_lines(policy@));
        }
        return v;
    }
    push_line(&mut v, apply_namespaces(policy));
    push_line(&mut v, apply_landlock(policy));
    push_line(&mut v, apply_caps_and_limits(policy));
    push_line(&mut v, apply_seccomp(policy));
    proof {
        assert(texts(v@) =~= sandbox_lines(policy@));
    }
    v
}


/// No process may use the camera or the microphone.
pub proof fn no_process_gets_camera_or_microphone(pt: ProcessType, host: HostDirs)
    ensures
        !spec_policy_for(pt, host).allow_camera,
        !spec_policy_for(pt, host).allow_microphone,
{
}

/// Renderers and extensions never reach the network themselves.
pub proof fn renderers_and_extensions_are_offline(host: HostDirs)
    ensures
        !spec_policy_for(ProcessType::Renderer, host).allow_network,
        !spec_policy_for(ProcessType::Extension, host).allow_network,
{
}

/// No policy disables the sandbox, and every process but the browser and
/// the downloader runs at maximum confinement.
pub proof fn every_process_is_confined(pt: ProcessType, host: HostDirs)
    ensures
        spec_policy_for(pt, host).level != SandboxLevel::Disabled,
        pt != ProcessType::Browser && pt != ProcessType::Download ==> spec_policy_for(pt, host).level
            == SandboxLevel::Maximum,
{
}

/// When the sandbox is on, seccomp is the last layer set up.
pub proof fn seccomp_is_applied_last(p: SandboxPolicyView)
    requires
        p.level != SandboxLevel::Disabled,
    ensures
        sandbox_lines(p).len() > 0,
        seccomp_line(p) is Some,
        sandbox_lines(p).last() == seccomp_line(p)->0,
{
}


/// The system calls the renderer filter lets through, by x86-64 number.
pub open spec fn renderer_syscall_numbers() -> Seq<i64> {
    seq![
        0i64, 1, 3, 5, 9, 10, 11, 12, 13, 14, 16, 17, 20, 28, 35, 39, 60, 72, 79, 89, 96, 102, 158, 202, 218,
        228, 231, 233, 257, 262, 302, 318, 332, 334,
    ]
}

/// The system calls the renderer's seccomp filter lets through: the basic
/// I/O, memory, signal, time and futex calls, `ioctl` for the GPU, `openat`
/// (filtered by Landlock) and `rseq` for glibc.
pub fn renderer_syscalls() -> (r: Vec<i64>)
    ensures
        r@ == renderer_syscall_numbers(),
{
    let nums: [i64; 34] = [
        0, 1, 3, 5, 9, 10, 11, 12, 13, 14, 16, 17, 20, 28, 35, 39, 60, 72, 79, 89, 96, 102, 158, 202, 218, 228,
        231, 233, 257, 262, 302, 318, 332, 334,
    ];
    let mut r: Vec<i64> = Vec::new();
    let mut i: usize = 0;
    while i < 34
        invariant
            i <= 34,
            nums@ == renderer_syscall_numbers(),
            r@ == nums@.take(i as int),
        decreases 34 - i,
    {
        r.push(nums[i]);
        proof {
            assert(r@ =~= nums@.take(i + 1));
        }
        i = i + 1;
    }
    proof {
        assert(nums@.take(34) =~= nums@);
    }
    r
}

} // verus!
