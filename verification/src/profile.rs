//! The Seatbelt profile (SBPL, Sandbox Profile Language) of a configuration.

use crate::config::{Mount, NetworkMode, Permission, SandboxConfig};
use crate::executor::MacOSExecutor;
use crate::text;
use vstd::prelude::*;

verus! {

/// The rules of every profile: everything is denied, then what any command
/// needs is allowed, reading everywhere included.
pub open spec fn preamble() -> Seq<char> {
    // Version and default deny
    "(version 1)\n"@ + "(deny default)\n"@
    // Basic process operations
     + "(allow process-fork)\n"@ + "(allow process-exec)\n"@
        + "(allow process-exec-interpreter)\n"@ + "(allow signal)\n"@
    // sysctl operations
     + "(allow sysctl-read)\n"@ + "(allow sysctl-write)\n"@
    // mach operations
     + "(allow mach-lookup)\n"@ + "(allow mach-register)\n"@ + "(allow mach-priv-host-port)\n"@
        + "(allow mach-priv-task-port)\n"@ + "(allow mach-task-name)\n"@
    // IPC operations
     + "(allow ipc-posix-shm-read-data)\n"@ + "(allow ipc-posix-shm-write-data)\n"@
        + "(allow ipc-posix-shm-read-metadata)\n"@ + "(allow ipc-posix-shm-write-create)\n"@
        + "(allow ipc-posix-sem)\n"@
    // iokit and pseudo-tty
     + "(allow iokit-open)\n"@ + "(allow pseudo-tty)\n"@
    // Process info
     + "(allow process-info-pidinfo)\n"@ + "(allow process-info-setcontrol)\n"@
        + "(allow process-info-dirtycontrol)\n"@ + "(allow process-info-codesignature)\n"@
    // Reading from anywhere
     + "(allow file-read* (subpath \"/\"))\n"@
    // Writing to the system's scratch directories
     + "(allow file-write* (subpath \"/tmp\"))\n"@
        + "(allow file-write* (subpath \"/private/tmp\"))\n"@
        + "(allow file-write* (subpath \"/private/var/folders\"))\n"@
        + "(allow file-write* (subpath \"/dev\"))\n"@
}

/// The rule that allows writing below `path`.
pub open spec fn write_rule(path: Seq<char>) -> Seq<char> {
    "(allow file-write* (subpath \""@ + path + "\"))\n"@
}

/// One write rule for each path, in order.
pub open spec fn write_rules(paths: Seq<Seq<char>>) -> Seq<char>
    decreases paths.len(),
{
    if paths.len() == 0 {
        Seq::empty()
    } else {
        write_rules(paths.drop_last()) + write_rule(paths.last())
    }
}

/// The sources of the mounts that may be written to.
pub open spec fn writable_sources(mounts: Seq<Mount>) -> Seq<Seq<char>> {
    mounts.filter(|mount: Mount| mount.permission == Permission::ReadWrite).map_values(
        |mount: Mount| text::path_text(mount.source@),
    )
}

/// The paths of the in-memory file systems.
pub open spec fn tmpfs_paths(mounts: Seq<(Vec<u8>, u64)>) -> Seq<Seq<char>> {
    mounts.map_values(|mount: (Vec<u8>, u64)| text::path_text(mount.0@))
}

/// The root file system, where there is one.
pub open spec fn rootfs_paths(rootfs: Option<Vec<u8>>) -> Seq<Seq<char>> {
    match rootfs {
        Some(path) => seq![text::path_text(path@)],
        None => Seq::empty(),
    }
}

/// The paths that a configuration makes writable, in the order of their rules.
pub open spec fn granted_paths(config: SandboxConfig) -> Seq<Seq<char>> {
    seq![text::path_text(config.working_dir@)] + writable_sources(config.mounts@) + tmpfs_paths(
        config.tmpfs_mounts@,
    ) + rootfs_paths(config.rootfs)
}

/// The network rule. Proxied access is narrowed by the proxy, not by a rule.
pub open spec fn network_rule(mode: NetworkMode) -> Seq<char> {
    match mode {
        NetworkMode::Denied => Seq::empty(),
        NetworkMode::Host => "(allow network*)\n"@,
        NetworkMode::Proxied { allowed_domains } => "(allow network*)\n"@,
    }
}

/// The whole profile.
pub open spec fn profile_text(config: SandboxConfig) -> Seq<char> {
    preamble() + write_rules(granted_paths(config)) + network_rule(config.network_mode)
}

fn push_write_rule(profile: &mut String, path: &Vec<u8>)
    ensures
        final(profile)@ == old(profile)@ + write_rule(text::path_text(path@)),
{
    let ghost before = profile@;
    let path_text = text::lossy_path(path.as_slice());
    profile.append("(allow file-write* (subpath \"");
    profile.append(path_text.as_str());
    profile.append("\"))\n");
    assert(profile@ == before + write_rule(path_text@));
}

fn start_profile() -> (profile: String)
    ensures
        profile@ == preamble(),
{
    // Version and default deny
    let mut profile = "(version 1)\n".to_owned();
    profile.append("(deny default)\n");

    // Allow basic process operations
    profile.append("(allow process-fork)\n");
    profile.append("(allow process-exec)\n");
    profile.append("(allow process-exec-interpreter)\n");
    profile.append("(allow signal)\n");

    // Allow sysctl operations
    profile.append("(allow sysctl-read)\n");
    profile.append("(allow sysctl-write)\n");

    // Allow mach operations
    profile.append("(allow mach-lookup)\n");
    profile.append("(allow mach-register)\n");
    profile.append("(allow mach-priv-host-port)\n");
    profile.append("(allow mach-priv-task-port)\n");
    profile.append("(allow mach-task-name)\n");

    // Allow IPC operations
    profile.append("(allow ipc-posix-shm-read-data)\n");
    profile.append("(allow ipc-posix-shm-write-data)\n");
    profile.append("(allow ipc-posix-shm-read-metadata)\n");
    profile.append("(allow ipc-posix-shm-write-create)\n");
    profile.append("(allow ipc-posix-sem)\n");

    // Allow iokit and pseudo-tty
    profile.append("(allow iokit-open)\n");
    profile.append("(allow pseudo-tty)\n");

    // Allow process info
    profile.append("(allow process-info-pidinfo)\n");
    profile.append("(allow process-info-setcontrol)\n");
    profile.append("(allow process-info-dirtycontrol)\n");
    profile.append("(allow process-info-codesignature)\n");

    // Allow reading from anywhere (simplifies profile)
    profile.append("(allow file-read* (subpath \"/\"))\n");

    // Allow writes to specific directories
    profile.append("(allow file-write* (subpath \"/tmp\"))\n");
    profile.append("(allow file-write* (subpath \"/private/tmp\"))\n");
    profile.append("(allow file-write* (subpath \"/private/var/folders\"))\n");
    profile.append("(allow file-write* (subpath \"/dev\"))\n");
    profile
}

impl MacOSExecutor {
    /// Generate SBPL (Sandbox Profile Language) profile
    pub fn generate_profile(&self, config: &SandboxConfig) -> (profile: String)
        ensures
            profile@ == profile_text(*config),
            // the fixed rules, then those of the configuration
            ({
                let fixed = "(version 1)\n"@ + "(deny default)\n"@ + "(allow process-fork)\n"@
                    + "(allow process-exec)\n"@ + "(allow process-exec-interpreter)\n"@
                    + "(allow signal)\n"@ + "(allow sysctl-read)\n"@ + "(allow sysctl-write)\n"@
                    + "(allow mach-lookup)\n"@ + "(allow mach-register)\n"@
                    + "(allow mach-priv-host-port)\n"@ + "(allow mach-priv-task-port)\n"@
                    + "(allow mach-task-name)\n"@ + "(allow ipc-posix-shm-read-data)\n"@
                    + "(allow ipc-posix-shm-write-data)\n"@
                    + "(allow ipc-posix-shm-read-metadata)\n"@
                    + "(allow ipc-posix-shm-write-create)\n"@ + "(allow ipc-posix-sem)\n"@
                    + "(allow iokit-open)\n"@ + "(allow pseudo-tty)\n"@
                    + "(allow process-info-pidinfo)\n"@ + "(allow process-info-setcontrol)\n"@
                    + "(allow process-info-dirtycontrol)\n"@
                    + "(allow process-info-codesignature)\n"@
                    + "(allow file-read* (subpath \"/\"))\n"@
                    + "(allow file-write* (subpath \"/tmp\"))\n"@
                    + "(allow file-write* (subpath \"/private/tmp\"))\n"@
                    + "(allow file-write* (subpath \"/private/var/folders\"))\n"@
                    + "(allow file-write* (subpath \"/dev\"))\n"@;
                let granted = seq![text::path_text(config.working_dir@)] + config.mounts@.filter(
                    |mount: Mount| mount.permission == Permission::ReadWrite,
                ).map_values(|mount: Mount| text::path_text(mount.source@))
                    + config.tmpfs_mounts@.map_values(
                    |mount: (Vec<u8>, u64)| text::path_text(mount.0@),
                ) + (match config.rootfs {
                    Some(path) => seq![text::path_text(path@)],
                    None => Seq::empty(),
                });
                profile@ == fixed + write_rules(granted) + (if config.network_mode is Denied {
                    ""@
                } else {
                    "(allow network*)\n"@
                })
            }),
    {
        proof {
            reveal_strlit("");
            assert(""@ =~= Seq::<char>::empty());
        }
        let mut profile = start_profile();
        let ghost mut paths: Seq<Seq<char>> = Seq::empty();

        // Working directory write access
        push_write_rule(&mut profile, &config.working_dir);
        proof {
            lemma_rule_appended(preamble(), paths, text::path_text(config.working_dir@));
            paths = paths.push(text::path_text(config.working_dir@));
        }
        let ghost working = paths;

        // Custom mount write access
        let mut i: usize = 0;
        assert(writable_sources(config.mounts@.take(0)) =~= Seq::empty());
        assert(paths == working + writable_sources(config.mounts@.take(0)));
        while i < config.mounts.len()
            invariant
                i <= config.mounts.len(),
                paths == working + writable_sources(config.mounts@.take(i as int)),
                profile@ == preamble() + write_rules(paths),
            decreases config.mounts.len() - i,
        {
            proof {
                lemma_writable_sources_step(config.mounts@, i as int);
            }
            if config.mounts[i].permission == Permission::ReadWrite {
                push_write_rule(&mut profile, &config.mounts[i].source);
                proof {
                    let path = text::path_text(config.mounts[i as int].source@);
                    lemma_rule_appended(preamble(), paths, path);
                    paths = paths.push(path);
                }
            }
            assert(paths == working + writable_sources(config.mounts@.take(i + 1)));
            i += 1;
        }
        assert(config.mounts@.take(i as int) == config.mounts@);
        let ghost mounted = paths;

        // tmpfs mount write access
        let mut k: usize = 0;
        assert(paths == mounted + tmpfs_paths(config.tmpfs_mounts@.take(0)));
        while k < config.tmpfs_mounts.len()
            invariant
                k <= config.tmpfs_mounts.len(),
                paths == mounted + tmpfs_paths(config.tmpfs_mounts@.take(k as int)),
                profile@ == preamble() + write_rules(paths),
            decreases config.tmpfs_mounts.len() - k,
        {
            push_write_rule(&mut profile, &config.tmpfs_mounts[k].0);
            proof {
                let path = text::path_text(config.tmpfs_mounts[k as int].0@);
                lemma_rule_appended(preamble(), paths, path);
                paths = paths.push(path);
            }
            assert(paths == mounted + tmpfs_paths(config.tmpfs_mounts@.take(k + 1)));
            k += 1;
        }
        assert(config.tmpfs_mounts@.take(k as int) == config.tmpfs_mounts@);

        // Rootfs write access if specified
        if let Some(rootfs) = &config.rootfs {
            push_write_rule(&mut profile, rootfs);
            proof {
                lemma_rule_appended(preamble(), paths, text::path_text(rootfs@));
                paths = paths.push(text::path_text(rootfs@));
            }
        }
        assert(paths == granted_paths(*config));

        // Network rules
        match &config.network_mode {
            NetworkMode::Denied => {
                // No network rules - default deny applies
            },
            NetworkMode::Host | NetworkMode::Proxied { .. } => {
                profile.append("(allow network*)\n");
            },
        }
        profile
    }
}

proof fn lemma_rule_appended(before: Seq<char>, paths: Seq<Seq<char>>, path: Seq<char>)
    ensures
        before + write_rules(paths) + write_rule(path) == before + write_rules(paths.push(path)),
{
    assert(paths.push(path).drop_last() == paths);
    assert(before + write_rules(paths) + write_rule(path) == before + (write_rules(paths)
        + write_rule(path)));
}

proof fn lemma_writable_sources_step(mounts: Seq<Mount>, i: int)
    requires
        0 <= i < mounts.len(),
    ensures
        writable_sources(mounts.take(i + 1)) == if mounts[i].permission == Permission::ReadWrite {
            writable_sources(mounts.take(i)).push(text::path_text(mounts[i].source@))
        } else {
            writable_sources(mounts.take(i))
        },
{
    let writable = |mount: Mount| mount.permission == Permission::ReadWrite;
    assert(mounts.take(i + 1) == mounts.take(i).push(mounts[i]));
    mounts.take(i).lemma_filter_push(mounts[i], writable);
}

/// Every profile begins by denying what no later rule allows.
pub proof fn law_default_deny(config: SandboxConfig)
    ensures
        ("(version 1)\n"@ + "(deny default)\n"@).is_prefix_of(profile_text(config)),
{
    let head = "(version 1)\n"@ + "(deny default)\n"@;
    assert(profile_text(config).subrange(0, head.len() as int) =~= head);
}

/// Turning the network on, in full or through a proxy, adds the network rule at
/// the end of the profile and changes nothing else.
pub proof fn law_network_rule_is_last(offline: SandboxConfig, online: SandboxConfig)
    requires
        granted_paths(offline) == granted_paths(online),
        offline.network_mode is Denied,
        !(online.network_mode is Denied),
    ensures
        profile_text(online) == profile_text(offline) + "(allow network*)\n"@,
{
    assert(profile_text(offline) == preamble() + write_rules(granted_paths(offline)));
}

/// A mount that may only be read leaves the profile as it is.
pub proof fn law_read_only_mount_grants_nothing(
    config: SandboxConfig,
    mount: Mount,
    i: int,
    extended: SandboxConfig,
)
    requires
        0 <= i <= config.mounts@.len(),
        mount.permission == Permission::ReadOnly,
        extended.mounts@ == config.mounts@.insert(i, mount),
        extended.working_dir == config.working_dir,
        extended.tmpfs_mounts == config.tmpfs_mounts,
        extended.rootfs == config.rootfs,
        extended.network_mode == config.network_mode,
    ensures
        profile_text(extended) == profile_text(config),
{
    let writable = |mount: Mount| mount.permission == Permission::ReadWrite;
    let head = config.mounts@.take(i);
    let tail = config.mounts@.skip(i);
    assert(config.mounts@ == head + tail);
    assert(extended.mounts@ == head.push(mount) + tail);
    head.lemma_filter_push(mount, writable);
    Seq::filter_distributes_over_add(head, tail, writable);
    Seq::filter_distributes_over_add(head.push(mount), tail, writable);
}

/// The paths made writable are the working directory, the sources of the
/// writable mounts, the in-memory file systems and the root file system, and no
/// others.
pub proof fn law_granted_paths(config: SandboxConfig, path: Seq<char>)
    ensures
        granted_paths(config).contains(path) <==> {
            ||| path == text::path_text(config.working_dir@)
            ||| exists|i: int|
                #![trigger config.mounts@[i]]
                0 <= i < config.mounts@.len() && config.mounts@[i].permission
                    == Permission::ReadWrite && path == text::path_text(config.mounts@[i].source@)
            ||| exists|i: int|
                #![trigger config.tmpfs_mounts@[i]]
                0 <= i < config.tmpfs_mounts@.len() && path == text::path_text(
                    config.tmpfs_mounts@[i].0@,
                )
            ||| config.rootfs matches Some(rootfs) && path == text::path_text(rootfs@)
        },
{
    let working = seq![text::path_text(config.working_dir@)];
    let sources = writable_sources(config.mounts@);
    let tmpfs = tmpfs_paths(config.tmpfs_mounts@);
    let rootfs = rootfs_paths(config.rootfs);
    let granted = granted_paths(config);
    assert(granted == working + sources + tmpfs + rootfs);
    let writable = |mount: Mount| mount.permission == Permission::ReadWrite;
    let kept = config.mounts@.filter(writable);
    if granted.contains(path) {
        let k = granted.index_of(path);
        if 1 <= k < 1 + sources.len() {
            assert(path == text::path_text(kept[k - 1].source@));
            config.mounts@.lemma_filter_pred(writable, k - 1);
            config.mounts@.lemma_filter_contains_rev(writable, kept[k - 1]);
            let i = config.mounts@.index_of(kept[k - 1]);
            assert(config.mounts@[i] == kept[k - 1]);
        } else if 1 + sources.len() <= k < 1 + sources.len() + tmpfs.len() {
            let i = k - 1 - sources.len();
            assert(path == text::path_text(config.tmpfs_mounts@[i].0@));
        }
    }
    if path == text::path_text(config.working_dir@) {
        assert(granted[0] == path);
    }
    if exists|i: int|
        #![trigger config.mounts@[i]]
        0 <= i < config.mounts@.len() && config.mounts@[i].permission == Permission::ReadWrite
            && path == text::path_text(config.mounts@[i].source@) {
        let i = choose|i: int|
            #![trigger config.mounts@[i]]
            0 <= i < config.mounts@.len() && config.mounts@[i].permission == Permission::ReadWrite
                && path == text::path_text(config.mounts@[i].source@);
        config.mounts@.lemma_filter_contains(writable, i);
        let k = kept.index_of(config.mounts@[i]);
        assert(sources[k] == path);
        assert(granted[1 + k] == path);
    }
    if exists|i: int|
        #![trigger config.tmpfs_mounts@[i]]
        0 <= i < config.tmpfs_mounts@.len() && path == text::path_text(
            config.tmpfs_mounts@[i].0@,
        ) {
        let i = choose|i: int|
            #![trigger config.tmpfs_mounts@[i]]
            0 <= i < config.tmpfs_mounts@.len() && path == text::path_text(
                config.tmpfs_mounts@[i].0@,
            );
        assert(tmpfs[i] == path);
        assert(granted[1 + sources.len() + i] == path);
    }
    if config.rootfs matches Some(rootfs) && path == text::path_text(rootfs@) {
        assert(granted[(1 + sources.len() + tmpfs.len()) as int] == path);
    }
}

proof fn lemma_rule_occurs(paths: Seq<Seq<char>>, k: int)
    requires
        0 <= k < paths.len(),
    ensures
        text::occurs_in(write_rule(paths[k]), write_rules(paths)),
    decreases paths.len(),
{
    let rest = paths.drop_last();
    let rule = write_rule(paths[k]);
    if k == rest.len() {
        assert(write_rules(paths) == write_rules(rest) + rule + Seq::empty());
    } else {
        lemma_rule_occurs(rest, k);
        let (before, after) = choose|before: Seq<char>, after: Seq<char>|
            write_rules(rest) == #[trigger] (before + rule + after);
        let last = write_rule(paths.last());
        assert(write_rules(paths) == before + rule + (after + last));
    }
}

/// Each path that a configuration makes writable has its rule in the profile.
pub proof fn law_granted_path_has_rule(config: SandboxConfig, path: Seq<char>)
    requires
        granted_paths(config).contains(path),
    ensures
        text::occurs_in(write_rule(path), profile_text(config)),
        text::occurs_in(
            "(allow file-write* (subpath \""@ + path + "\"))\n"@,
            profile_text(config),
        ),
{
    let paths = granted_paths(config);
    let rule = write_rule(path);
    lemma_rule_occurs(paths, paths.index_of(path));
    let (before, after) = choose|before: Seq<char>, after: Seq<char>|
        write_rules(paths) == #[trigger] (before + rule + after);
    let network = network_rule(config.network_mode);
    assert(profile_text(config) == (preamble() + before) + rule + (after + network));
}

/// Each path has its own rule, which allows writing below that path, and the
/// rules of two lists of paths stand one list after the other.
pub proof fn law_write_rules(left: Seq<Seq<char>>, right: Seq<Seq<char>>, path: Seq<char>)
    ensures
        write_rules(Seq::empty()) == Seq::<char>::empty(),
        write_rules(seq![path]) == "(allow file-write* (subpath \""@ + path + "\"))\n"@,
        write_rules(left + right) == write_rules(left) + write_rules(right),
    decreases right.len(),
{
    let one = seq![path];
    assert(one.drop_last() == Seq::<Seq<char>>::empty());
    reveal_with_fuel(write_rules, 2);
    assert(write_rules(one) == write_rules(Seq::empty()) + write_rule(path));
    assert(write_rules(one) =~= write_rule(path));
    if right.len() == 0 {
        assert(left + right == left);
        assert(write_rules(left) + write_rules(right) =~= write_rules(left));
    } else {
        let rest = right.drop_last();
        law_write_rules(left, rest, path);
        assert((left + right).drop_last() == left + rest);
        assert(write_rules(left) + (write_rules(rest) + write_rule(right.last()))
            =~= write_rules(left) + write_rules(rest) + write_rule(right.last()));
    }
}

/// The sources that may be written to, mount by mount: a writable mount adds
/// its source at the end, a read-only one adds nothing.
pub proof fn law_writable_sources(mounts: Seq<Mount>, mount: Mount)
    ensures
        writable_sources(Seq::empty()) == Seq::<Seq<char>>::empty(),
        mount.permission is ReadWrite ==> writable_sources(mounts.push(mount)) == writable_sources(
            mounts,
        ).push(text::path_text(mount.source@)),
        mount.permission is ReadOnly ==> writable_sources(mounts.push(mount)) == writable_sources(
            mounts,
        ),
{
    let writable = |mount: Mount| mount.permission == Permission::ReadWrite;
    assert(Seq::<Mount>::empty().filter(writable) =~= Seq::empty());
    mounts.lemma_filter_push(mount, writable);
}

/// The rules of a configuration stand in a fixed order: the working directory,
/// the writable mounts, each in-memory file system, the root file system.
pub proof fn law_granted_paths_in_order(config: SandboxConfig)
    ensures
        ({
            let granted = granted_paths(config);
            let sources = writable_sources(config.mounts@);
            let tmpfs = config.tmpfs_mounts@;
            &&& granted.len() == 1 + sources.len() + tmpfs.len() + (if config.rootfs is Some {
                1int
            } else {
                0
            })
            &&& granted[0] == text::path_text(config.working_dir@)
            &&& forall|i: int|
                #![trigger sources[i]]
                0 <= i < sources.len() ==> granted[1 + i] == sources[i]
            &&& forall|i: int|
                #![trigger tmpfs[i]]
                0 <= i < tmpfs.len() ==> granted[1 + sources.len() + i] == text::path_text(
                    tmpfs[i].0@,
                )
            &&& config.rootfs matches Some(rootfs) ==> granted.last() == text::path_text(rootfs@)
        }),
{
}

/// Besides the rules of the paths and of the network, a profile has exactly the
/// fixed rules: deny by default, what any command needs, reading everywhere and
/// writing to the system's scratch directories.
pub proof fn law_fixed_rules(config: SandboxConfig)
    requires
        config.network_mode is Denied,
    ensures
        profile_text(config) == "(version 1)\n"@ + "(deny default)\n"@ + "(allow process-fork)\n"@
            + "(allow process-exec)\n"@ + "(allow process-exec-interpreter)\n"@
            + "(allow signal)\n"@ + "(allow sysctl-read)\n"@ + "(allow sysctl-write)\n"@
            + "(allow mach-lookup)\n"@ + "(allow mach-register)\n"@
            + "(allow mach-priv-host-port)\n"@ + "(allow mach-priv-task-port)\n"@
            + "(allow mach-task-name)\n"@ + "(allow ipc-posix-shm-read-data)\n"@
            + "(allow ipc-posix-shm-write-data)\n"@ + "(allow ipc-posix-shm-read-metadata)\n"@
            + "(allow ipc-posix-shm-write-create)\n"@ + "(allow ipc-posix-sem)\n"@
            + "(allow iokit-open)\n"@ + "(allow pseudo-tty)\n"@
            + "(allow process-info-pidinfo)\n"@ + "(allow process-info-setcontrol)\n"@
            + "(allow process-info-dirtycontrol)\n"@ + "(allow process-info-codesignature)\n"@
            + "(allow file-read* (subpath \"/\"))\n"@
            + "(allow file-write* (subpath \"/tmp\"))\n"@
            + "(allow file-write* (subpath \"/private/tmp\"))\n"@
            + "(allow file-write* (subpath \"/private/var/folders\"))\n"@
            + "(allow file-write* (subpath \"/dev\"))\n"@
            + write_rules(granted_paths(config)),
{
    let rules = preamble() + write_rules(granted_paths(config));
    assert(profile_text(config) =~= rules);
}

} // verus!
