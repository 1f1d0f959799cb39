use voidweb::sandbox::{
    apply_caps_and_limits, apply_landlock, apply_namespaces, apply_seccomp, policy_for_process,
    sandbox_steps, HostDirs, ProcessType, SandboxLevel, SandboxPolicy,
};

fn host() -> HostDirs {
    HostDirs {
        system_read: vec!["/usr/share/fonts".to_string(), "/etc/ssl/certs".to_string()],
        download: Some("/home/u/Downloads".to_string()),
        config: Some("/home/u/.config".to_string()),
        cache: None,
    }
}

const MIB: u64 = 1024 * 1024;

#[test]
fn base_policy_defaults() {
    let p = SandboxPolicy::base(vec!["/r".to_string()]);
    assert_eq!(p.level, SandboxLevel::Maximum);
    assert_eq!(p.fs_read, vec!["/r".to_string()]);
    assert!(p.fs_write.is_empty());
    assert!(p.allow_network && p.allow_gpu && p.allow_audio && p.allow_clipboard);
    assert!(!p.allow_camera && !p.allow_microphone);
    assert_eq!(p.allowed_ports, vec![80, 443, 9150]);
    assert_eq!(p.memory_limit, 512 * MIB);
    assert_eq!(p.cpu_limit, 300);
    assert_eq!(p.fd_limit, 128);
    assert_eq!(p.process_limit, 4);
}

#[test]
fn renderer_policy() {
    let p = policy_for_process(ProcessType::Renderer, &host());
    assert_eq!(p.level, SandboxLevel::Maximum);
    assert!(!p.allow_network);
    assert!(p.allow_gpu && p.allow_audio);
    assert!(!p.allow_camera && !p.allow_microphone);
    assert_eq!(p.memory_limit, 512 * MIB);
    assert_eq!(p.fs_read, host().system_read);
    assert!(p.fs_write.is_empty());
}

#[test]
fn network_and_extension_policies() {
    let n = policy_for_process(ProcessType::Network, &host());
    assert_eq!(n.level, SandboxLevel::Maximum);
    assert!(n.allow_network && !n.allow_gpu && !n.allow_audio);
    assert_eq!(n.memory_limit, 256 * MIB);
    assert_eq!(n.process_limit, 4);
    let e = policy_for_process(ProcessType::Extension, &host());
    assert!(!e.allow_network && !e.allow_gpu && !e.allow_audio);
    assert_eq!(e.memory_limit, 128 * MIB);
    assert_eq!(e.process_limit, 1);
}

#[test]
fn download_policy_writes_to_downloads() {
    let d = policy_for_process(ProcessType::Download, &host());
    assert_eq!(d.level, SandboxLevel::Standard);
    assert_eq!(d.fs_write, vec!["/home/u/Downloads".to_string()]);
    assert_eq!(d.memory_limit, 1024 * MIB);
    let mut h = host();
    h.download = None;
    assert_eq!(policy_for_process(ProcessType::Download, &h).fs_write, vec!["/tmp".to_string()]);
}

#[test]
fn browser_policy_reads_system_and_writes_its_dirs() {
    let b = policy_for_process(ProcessType::Browser, &host());
    assert_eq!(b.level, SandboxLevel::Standard);
    assert_eq!(b.fs_read, vec!["/usr".to_string(), "/etc".to_string()]);
    assert_eq!(b.fs_write, vec!["/home/u/.config/voidweb".to_string(), "voidweb".to_string()]);
    assert_eq!(b.memory_limit, 2048 * MIB);
    assert!(b.allow_network && b.allow_gpu && b.allow_audio && b.allow_clipboard);
}

#[test]
fn layer_messages() {
    let r = policy_for_process(ProcessType::Renderer, &host());
    assert_eq!(apply_seccomp(&r), Some("[sandbox] seccomp-BPF filter applied (renderer syscalls allowed)".to_string()));
    assert_eq!(apply_landlock(&r), Some("[sandbox] Landlock filesystem restrictions applied (read: 2, write: 0)".to_string()));
    assert_eq!(
        apply_caps_and_limits(&r),
        Some("[sandbox] Capabilities dropped, resource limits set (mem: 512MB, fds: 128, procs: 4)".to_string())
    );
    assert_eq!(apply_namespaces(&r), Some("[sandbox] Namespace isolation applied (user, pid, mount, ipc, net)".to_string()));
    let n = policy_for_process(ProcessType::Network, &host());
    assert_eq!(apply_namespaces(&n), Some("[sandbox] Namespace isolation applied (user, pid, mount, ipc)".to_string()));
    let d = policy_for_process(ProcessType::Download, &host());
    assert_eq!(apply_seccomp(&d), Some("[sandbox] seccomp-BPF filter applied (standard syscalls allowed)".to_string()));
    assert_eq!(apply_namespaces(&d), None);
}

#[test]
fn weaker_levels_skip_layers() {
    let mut p = SandboxPolicy::base(vec![]);
    p.level = SandboxLevel::Minimal;
    assert_eq!(apply_landlock(&p), None);
    assert!(apply_seccomp(&p).is_some());
    assert!(apply_caps_and_limits(&p).is_some());
    p.level = SandboxLevel::Disabled;
    assert_eq!(apply_seccomp(&p), None);
    assert_eq!(apply_landlock(&p), None);
    assert_eq!(apply_caps_and_limits(&p), None);
    assert_eq!(apply_namespaces(&p), None);
    assert_eq!(sandbox_steps(&p), vec!["[sandbox] WARNING: Sandbox disabled!".to_string()]);
}

#[test]
fn sandbox_steps_in_order() {
    let r = policy_for_process(ProcessType::Renderer, &host());
    let steps = sandbox_steps(&r);
    assert_eq!(steps.len(), 4);
    assert!(steps[0].starts_with("[sandbox] Namespace"));
    assert!(steps[1].starts_with("[sandbox] Landlock"));
    assert!(steps[2].starts_with("[sandbox] Capabilities"));
    assert!(steps[3].starts_with("[sandbox] seccomp"));
    let b = policy_for_process(ProcessType::Browser, &host());
    assert_eq!(sandbox_steps(&b).len(), 3);
}

#[test]
fn renderer_syscall_list() {
    let v = voidweb::sandbox::renderer_syscalls();
    assert_eq!(v.len(), 34);
    assert_eq!(v[0], 0);
    assert_eq!(v[16], 60);
    assert_eq!(v[33], 334);
}
