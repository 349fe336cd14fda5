//! What a profile says about the network: the grant stands in it where the
//! network is on, and otherwise only inside a path that spells it out.

use crate::config::SandboxConfig;
use crate::profile;
use crate::text;
use vstd::prelude::*;

verus! {

/// The network rule without its line end.
pub open spec fn network_grant() -> Seq<char> {
    "(allow network*)"@
}

/// `whole` does not hold the character `c` from position `i` on.
spec fn lacks_from(whole: Seq<char>, c: char, i: int) -> bool
    decreases whole.len() - i,
{
    i >= whole.len() || whole[i] != c && lacks_from(whole, c, i + 1)
}

/// `whole` does not hold the character `c`.
spec fn lacks(whole: Seq<char>, c: char) -> bool {
    lacks_from(whole, c, 0)
}

spec fn is_line(line: Seq<char>) -> bool {
    line.len() > 0 && line.last() == '\n'
}

/// Whole lines without a network grant.
#[verifier::opaque]
spec fn is_quiet(lines: Seq<char>) -> bool {
    is_line(lines) && !text::occurs_in(network_grant(), lines)
}

proof fn lemma_network_grant_chars()
    ensures
        network_grant().len() == 16,
        network_grant()[13] == 'k',
        network_grant()[14] == '*',
        !network_grant().contains('\n'),
        !network_grant().contains('"'),
{
    reveal_strlit("(allow network*)");
    reveal_with_fuel(lacks_from, 17);
    lemma_lacks_contains(network_grant(), '\n');
    lemma_lacks_contains(network_grant(), '"');
}

proof fn lemma_lacks_from(whole: Seq<char>, c: char, i: int, k: int)
    requires
        lacks_from(whole, c, i),
        i <= k < whole.len(),
    ensures
        whole[k] != c,
    decreases whole.len() - i,
{
    if i < k {
        lemma_lacks_from(whole, c, i + 1, k);
    }
}

proof fn lemma_lacks_contains(whole: Seq<char>, c: char)
    requires
        lacks(whole, c),
    ensures
        !whole.contains(c),
{
    assert forall|k: int| 0 <= k < whole.len() implies whole[k] != c by {
        lemma_lacks_from(whole, c, 0, k);
    }
}

/// Text without one of the characters of the network grant does not hold it.
proof fn lemma_lacks(whole: Seq<char>, c: char)
    requires
        lacks(whole, c),
        c == 'k' || c == '*',
    ensures
        !text::occurs_in(network_grant(), whole),
{
    lemma_network_grant_chars();
    lemma_lacks_contains(whole, c);
    if text::occurs_in(network_grant(), whole) {
        let (before, after) = choose|before: Seq<char>, after: Seq<char>|
            whole == #[trigger] (before + network_grant() + after);
        let start = before.len() as int;
        assert(whole[start + 13] == 'k');
        assert(whole[start + 14] == '*');
    }
}

/// Where two texts meet at a character that is not in `part`, `part` occurs in
/// them together only where it occurs in one of them.
proof fn lemma_occurs_in_one(part: Seq<char>, left: Seq<char>, right: Seq<char>, c: char)
    requires
        !part.contains(c),
        left.len() > 0 && left.last() == c || right.len() > 0 && right.first() == c,
        text::occurs_in(part, left + right),
    ensures
        text::occurs_in(part, left) || text::occurs_in(part, right),
{
    let (before, after) = choose|before: Seq<char>, after: Seq<char>|
        left + right == #[trigger] (before + part + after);
    let whole = left + right;
    let start = before.len() as int;
    let end = start + part.len();
    if end <= left.len() {
        assert(left == before + part + left.skip(end)) by {
            assert forall|i: int| 0 <= i < left.len() implies left[i] == (before + part
                + left.skip(end))[i] by {
                assert(left[i] == whole[i]);
            }
        }
    } else if start >= left.len() {
        let cut = left.len() as int;
        assert(right == whole.skip(cut));
        assert((before + part + after).skip(cut) == before.skip(cut) + part + after);
    } else {
        let seam = left.len() as int;
        assert(part[seam - start] == whole[seam]);
        if left.len() > 0 && left.last() == c {
            assert(part[seam - 1 - start] == whole[seam - 1]);
        }
    }
}

proof fn lemma_occurs_in_whole(part: Seq<char>, left: Seq<char>, right: Seq<char>)
    ensures
        text::occurs_in(part, left) ==> text::occurs_in(part, left + right),
        text::occurs_in(part, right) ==> text::occurs_in(part, left + right),
{
    if text::occurs_in(part, left) {
        let (before, after) = choose|before: Seq<char>, after: Seq<char>|
            left == #[trigger] (before + part + after);
        assert(left + right == before + part + (after + right));
    }
    if text::occurs_in(part, right) {
        let (before, after) = choose|before: Seq<char>, after: Seq<char>|
            right == #[trigger] (before + part + after);
        assert(left + right == (left + before) + part + after);
    }
}

proof fn lemma_quiet_line(lines: Seq<char>, line: Seq<char>, missing: char)
    requires
        is_quiet(lines),
        is_line(line),
        lacks(line, missing),
        missing == 'k' || missing == '*',
    ensures
        is_quiet(lines + line),
{
    reveal(is_quiet);
    lemma_network_grant_chars();
    lemma_lacks(line, missing);
    if text::occurs_in(network_grant(), lines + line) {
        lemma_occurs_in_one(network_grant(), lines, line, '\n');
    }
}

proof fn lemma_process_rules_are_quiet(lines: Seq<char>)
    requires
        is_quiet(lines),
    ensures
        is_quiet(
            lines + "(allow process-fork)\n"@ + "(allow process-exec)\n"@
                + "(allow process-exec-interpreter)\n"@ + "(allow signal)\n"@
        ),
{
    let line = "(allow process-fork)\n"@;
    assert(is_line(line) && lacks(line, '*')) by {
        reveal_strlit("(allow process-fork)\n");
        reveal_with_fuel(lacks_from, 22);
    }
    lemma_quiet_line(lines, line, '*');
    let lines = lines + line;
    let line = "(allow process-exec)\n"@;
    assert(is_line(line) && lacks(line, '*')) by {
        reveal_strlit("(allow process-exec)\n");
        reveal_with_fuel(lacks_from, 22);
    }
    lemma_quiet_line(lines, line, '*');
    let lines = lines + line;
    let line = "(allow process-exec-interpreter)\n"@;
    assert(is_line(line) && lacks(line, '*')) by {
        reveal_strlit("(allow process-exec-interpreter)\n");
        reveal_with_fuel(lacks_from, 34);
    }
    lemma_quiet_line(lines, line, '*');
    let lines = lines + line;
    let line = "(allow signal)\n"@;
    assert(is_line(line) && lacks(line, '*')) by {
        reveal_strlit("(allow signal)\n");
        reveal_with_fuel(lacks_from, 16);
    }
    lemma_quiet_line(lines, line, '*');
}

proof fn lemma_sysctl_rules_are_quiet(lines: Seq<char>)
    requires
        is_quiet(lines),
    ensures
        is_quiet(lines + "(allow sysctl-read)\n"@ + "(allow sysctl-write)\n"@),
{
    let line = "(allow sysctl-read)\n"@;
    assert(is_line(line) && lacks(line, '*')) by {
        reveal_strlit("(allow sysctl-read)\n");
        reveal_with_fuel(lacks_from, 21);
    }
    lemma_quiet_line(lines, line, '*');
    let lines = lines + line;
    let line = "(allow sysctl-write)\n"@;
    assert(is_line(line) && lacks(line, '*')) by {
        reveal_strlit("(allow sysctl-write)\n");
        reveal_with_fuel(lacks_from, 22);
    }
    lemma_quiet_line(lines, line, '*');
}

proof fn lemma_mach_rules_are_quiet(lines: Seq<char>)
    requires
        is_quiet(lines),
    ensures
        is_quiet(
            lines + "(allow mach-lookup)\n"@ + "(allow mach-register)\n"@
                + "(allow mach-priv-host-port)\n"@ + "(allow mach-priv-task-port)\n"@
                + "(allow mach-task-name)\n"@
        ),
{
    let line = "(allow mach-lookup)\n"@;
    assert(is_line(line) && lacks(line, '*')) by {
        reveal_strlit("(allow mach-lookup)\n");
        reveal_with_fuel(lacks_from, 21);
    }
    lemma_quiet_line(lines, line, '*');
    let lines = lines + line;
    let line = "(allow mach-register)\n"@;
    assert(is_line(line) && lacks(line, '*')) by {
        reveal_strlit("(allow mach-register)\n");
        reveal_with_fuel(lacks_from, 23);
    }
    lemma_quiet_line(lines, line, '*');
    let lines = lines + line;
    let line = "(allow mach-priv-host-port)\n"@;
    assert(is_line(line) && lacks(line, '*')) by {
        reveal_strlit("(allow mach-priv-host-port)\n");
        reveal_with_fuel(lacks_from, 29);
    }
    lemma_quiet_line(lines, line, '*');
    let lines = lines + line;
    let line = "(allow mach-priv-task-port)\n"@;
    assert(is_line(line) && lacks(line, '*')) by {
        reveal_strlit("(allow mach-priv-task-port)\n");
        reveal_with_fuel(lacks_from, 29);
    }
    lemma_quiet_line(lines, line, '*');
    let lines = lines + line;
    let line = "(allow mach-task-name)\n"@;
    assert(is_line(line) && lacks(line, '*')) by {
        reveal_strlit("(allow mach-task-name)\n");
        reveal_with_fuel(lacks_from, 24);
    }
    lemma_quiet_line(lines, line, '*');
}

proof fn lemma_ipc_rules_are_quiet(lines: Seq<char>)
    requires
        is_quiet(lines),
    ensures
        is_quiet(
            lines + "(allow ipc-posix-shm-read-data)\n"@ + "(allow ipc-posix-shm-write-data)\n"@
                + "(allow ipc-posix-shm-read-metadata)\n"@
                + "(allow ipc-posix-shm-write-create)\n"@ + "(allow ipc-posix-sem)\n"@
        ),
{
    let line = "(allow ipc-posix-shm-read-data)\n"@;
    assert(is_line(line) && lacks(line, '*')) by {
        reveal_strlit("(allow ipc-posix-shm-read-data)\n");
        reveal_with_fuel(lacks_from, 33);
    }
    lemma_quiet_line(lines, line, '*');
    let lines = lines + line;
    let line = "(allow ipc-posix-shm-write-data)\n"@;
    assert(is_line(line) && lacks(line, '*')) by {
        reveal_strlit("(allow ipc-posix-shm-write-data)\n");
        reveal_with_fuel(lacks_from, 34);
    }
    lemma_quiet_line(lines, line, '*');
    let lines = lines + line;
    let line = "(allow ipc-posix-shm-read-metadata)\n"@;
    assert(is_line(line) && lacks(line, '*')) by {
        reveal_strlit("(allow ipc-posix-shm-read-metadata)\n");
        reveal_with_fuel(lacks_from, 37);
    }
    lemma_quiet_line(lines, line, '*');
    let lines = lines + line;
    let line = "(allow ipc-posix-shm-write-create)\n"@;
    assert(is_line(line) && lacks(line, '*')) by {
        reveal_strlit("(allow ipc-posix-shm-write-create)\n");
        reveal_with_fuel(lacks_from, 36);
    }
    lemma_quiet_line(lines, line, '*');
    let lines = lines + line;
    let line = "(allow ipc-posix-sem)\n"@;
    assert(is_line(line) && lacks(line, '*')) by {
        reveal_strlit("(allow ipc-posix-sem)\n");
        reveal_with_fuel(lacks_from, 23);
    }
    lemma_quiet_line(lines, line, '*');
}

proof fn lemma_device_rules_are_quiet(lines: Seq<char>)
    requires
        is_quiet(lines),
    ensures
        is_quiet(lines + "(allow iokit-open)\n"@ + "(allow pseudo-tty)\n"@),
{
    let line = "(allow iokit-open)\n"@;
    assert(is_line(line) && lacks(line, '*')) by {
        reveal_strlit("(allow iokit-open)\n");
        reveal_with_fuel(lacks_from, 20);
    }
    lemma_quiet_line(lines, line, '*');
    let lines = lines + line;
    let line = "(allow pseudo-tty)\n"@;
    assert(is_line(line) && lacks(line, '*')) by {
        reveal_strlit("(allow pseudo-tty)\n");
        reveal_with_fuel(lacks_from, 20);
    }
    lemma_quiet_line(lines, line, '*');
}

proof fn lemma_process_info_rules_are_quiet(lines: Seq<char>)
    requires
        is_quiet(lines),
    ensures
        is_quiet(
            lines + "(allow process-info-pidinfo)\n"@ + "(allow process-info-setcontrol)\n"@
                + "(allow process-info-dirtycontrol)\n"@ + "(allow process-info-codesignature)\n"@
        ),
{
    let line = "(allow process-info-pidinfo)\n"@;
    assert(is_line(line) && lacks(line, '*')) by {
        reveal_strlit("(allow process-info-pidinfo)\n");
        reveal_with_fuel(lacks_from, 30);
    }
    lemma_quiet_line(lines, line, '*');
    let lines = lines + line;
    let line = "(allow process-info-setcontrol)\n"@;
    assert(is_line(line) && lacks(line, '*')) by {
        reveal_strlit("(allow process-info-setcontrol)\n");
        reveal_with_fuel(lacks_from, 33);
    }
    lemma_quiet_line(lines, line, '*');
    let lines = lines + line;
    let line = "(allow process-info-dirtycontrol)\n"@;
    assert(is_line(line) && lacks(line, '*')) by {
        reveal_strlit("(allow process-info-dirtycontrol)\n");
        reveal_with_fuel(lacks_from, 35);
    }
    lemma_quiet_line(lines, line, '*');
    let lines = lines + line;
    let line = "(allow process-info-codesignature)\n"@;
    assert(is_line(line) && lacks(line, '*')) by {
        reveal_strlit("(allow process-info-codesignature)\n");
        reveal_with_fuel(lacks_from, 36);
    }
    lemma_quiet_line(lines, line, '*');
}

proof fn lemma_file_rules_are_quiet(lines: Seq<char>)
    requires
        is_quiet(lines),
    ensures
        is_quiet(
            lines + "(allow file-read* (subpath \"/\"))\n"@
                + "(allow file-write* (subpath \"/tmp\"))\n"@
                + "(allow file-write* (subpath \"/private/tmp\"))\n"@
                + "(allow file-write* (subpath \"/private/var/folders\"))\n"@
                + "(allow file-write* (subpath \"/dev\"))\n"@
        ),
{
    let line = "(allow file-read* (subpath \"/\"))\n"@;
    assert(is_line(line) && lacks(line, 'k')) by {
        reveal_strlit("(allow file-read* (subpath \"/\"))\n");
        reveal_with_fuel(lacks_from, 34);
    }
    lemma_quiet_line(lines, line, 'k');
    let lines = lines + line;
    let line = "(allow file-write* (subpath \"/tmp\"))\n"@;
    assert(is_line(line) && lacks(line, 'k')) by {
        reveal_strlit("(allow file-write* (subpath \"/tmp\"))\n");
        reveal_with_fuel(lacks_from, 38);
    }
    lemma_quiet_line(lines, line, 'k');
    let lines = lines + line;
    let line = "(allow file-write* (subpath \"/private/tmp\"))\n"@;
    assert(is_line(line) && lacks(line, 'k')) by {
        reveal_strlit("(allow file-write* (subpath \"/private/tmp\"))\n");
        reveal_with_fuel(lacks_from, 46);
    }
    lemma_quiet_line(lines, line, 'k');
    let lines = lines + line;
    let line = "(allow file-write* (subpath \"/private/var/folders\"))\n"@;
    assert(is_line(line) && lacks(line, 'k')) by {
        reveal_strlit("(allow file-write* (subpath \"/private/var/folders\"))\n");
        reveal_with_fuel(lacks_from, 54);
    }
    lemma_quiet_line(lines, line, 'k');
    let lines = lines + line;
    let line = "(allow file-write* (subpath \"/dev\"))\n"@;
    assert(is_line(line) && lacks(line, 'k')) by {
        reveal_strlit("(allow file-write* (subpath \"/dev\"))\n");
        reveal_with_fuel(lacks_from, 38);
    }
    lemma_quiet_line(lines, line, 'k');
}

proof fn lemma_preamble_is_quiet()
    ensures
        is_quiet(profile::preamble()),
{
    let line = "(version 1)\n"@;
    assert(is_line(line) && lacks(line, '*')) by {
        reveal_strlit("(version 1)\n");
        reveal_with_fuel(lacks_from, 13);
    }
    assert(is_quiet(line)) by {
        reveal(is_quiet);
        lemma_lacks(line, '*');
    }
    let lines = line;
    let line = "(deny default)\n"@;
    assert(is_line(line) && lacks(line, '*')) by {
        reveal_strlit("(deny default)\n");
        reveal_with_fuel(lacks_from, 16);
    }
    lemma_quiet_line(lines, line, '*');
    let lines = lines + line;
    lemma_process_rules_are_quiet(lines);
    let lines = lines + "(allow process-fork)\n"@ + "(allow process-exec)\n"@
        + "(allow process-exec-interpreter)\n"@ + "(allow signal)\n"@;
    lemma_sysctl_rules_are_quiet(lines);
    let lines = lines + "(allow sysctl-read)\n"@ + "(allow sysctl-write)\n"@;
    lemma_mach_rules_are_quiet(lines);
    let lines = lines + "(allow mach-lookup)\n"@ + "(allow mach-register)\n"@
        + "(allow mach-priv-host-port)\n"@ + "(allow mach-priv-task-port)\n"@
        + "(allow mach-task-name)\n"@;
    lemma_ipc_rules_are_quiet(lines);
    let lines = lines + "(allow ipc-posix-shm-read-data)\n"@ + "(allow ipc-posix-shm-write-data)\n"@
        + "(allow ipc-posix-shm-read-metadata)\n"@ + "(allow ipc-posix-shm-write-create)\n"@
        + "(allow ipc-posix-sem)\n"@;
    lemma_device_rules_are_quiet(lines);
    let lines = lines + "(allow iokit-open)\n"@ + "(allow pseudo-tty)\n"@;
    lemma_process_info_rules_are_quiet(lines);
    let lines = lines + "(allow process-info-pidinfo)\n"@ + "(allow process-info-setcontrol)\n"@
        + "(allow process-info-dirtycontrol)\n"@ + "(allow process-info-codesignature)\n"@;
    lemma_file_rules_are_quiet(lines);
}

proof fn lemma_write_rule_grants(path: Seq<char>)
    ensures
        is_line(profile::write_rule(path)),
        text::occurs_in(network_grant(), profile::write_rule(path)) <==> text::occurs_in(network_grant(), path),
{
    let opening = "(allow file-write* (subpath \""@;
    let closing = "\"))\n"@;
    lemma_network_grant_chars();
    assert(lacks(opening, 'k') && opening.len() > 0 && opening.last() == '"') by {
        reveal_strlit("(allow file-write* (subpath \"");
        reveal_with_fuel(lacks_from, 30);
    }
    assert(lacks(closing, 'k') && is_line(closing) && closing.first() == '"') by {
        reveal_strlit("\"))\n");
        reveal_with_fuel(lacks_from, 5);
    }
    lemma_lacks(opening, 'k');
    lemma_lacks(closing, 'k');
    lemma_occurs_in_whole(network_grant(), opening, path);
    lemma_occurs_in_whole(network_grant(), opening + path, closing);
    if text::occurs_in(network_grant(), profile::write_rule(path)) {
        lemma_occurs_in_one(network_grant(), opening + path, closing, '"');
        lemma_occurs_in_one(network_grant(), opening, path, '"');
    }
}

proof fn lemma_rules_grant(lines: Seq<char>, paths: Seq<Seq<char>>)
    requires
        is_quiet(lines),
    ensures
        is_line(lines + profile::write_rules(paths)),
        text::occurs_in(network_grant(), lines + profile::write_rules(paths)) <==> exists|k: int|
            0 <= k < paths.len() && text::occurs_in(network_grant(), #[trigger] paths[k]),
    decreases paths.len(),
{
    reveal(is_quiet);
    lemma_network_grant_chars();
    if paths.len() == 0 {
        assert(lines + profile::write_rules(paths) == lines);
    } else {
        let rest = paths.drop_last();
        let head = lines + profile::write_rules(rest);
        let rule = profile::write_rule(paths.last());
        lemma_rules_grant(lines, rest);
        lemma_write_rule_grants(paths.last());
        assert(lines + profile::write_rules(paths) == head + rule);
        lemma_occurs_in_whole(network_grant(), head, rule);
        if text::occurs_in(network_grant(), head + rule) {
            lemma_occurs_in_one(network_grant(), head, rule, '\n');
            if text::occurs_in(network_grant(), head) {
                let k = choose|k: int|
                    0 <= k < rest.len() && text::occurs_in(network_grant(), #[trigger] rest[k]);
                assert(paths[k] == rest[k]);
            } else {
                assert(text::occurs_in(network_grant(), paths[paths.len() - 1]));
            }
        }
        if exists|k: int| 0 <= k < paths.len() && text::occurs_in(network_grant(), #[trigger] paths[k]) {
            let k = choose|k: int|
                0 <= k < paths.len() && text::occurs_in(network_grant(), #[trigger] paths[k]);
            if k < rest.len() {
                assert(rest[k] == paths[k]);
            }
        }
    }
}

/// The profile grants the network where the network is on. Where it is off, the
/// text of the grant occurs only inside a path that holds it itself.
pub proof fn law_network_grant(config: SandboxConfig)
    ensures
        !(config.network_mode is Denied) ==> text::occurs_in(
            "(allow network*)"@,
            profile::profile_text(config),
        ),
        config.network_mode is Denied ==> (text::occurs_in(
            "(allow network*)"@,
            profile::profile_text(config),
        ) <==> exists|k: int|
            0 <= k < profile::granted_paths(config).len() && text::occurs_in(
                "(allow network*)"@,
                #[trigger] profile::granted_paths(config)[k],
            )),
{
    let rules = profile::preamble() + profile::write_rules(profile::granted_paths(config));
    if config.network_mode is Denied {
        lemma_preamble_is_quiet();
        lemma_rules_grant(profile::preamble(), profile::granted_paths(config));
        assert(profile::profile_text(config) == rules);
    } else {
        reveal_strlit("(allow network*)");
        reveal_strlit("(allow network*)\n");
        reveal_strlit("\n");
        assert("(allow network*)\n"@ == network_grant() + "\n"@);
        assert(profile::profile_text(config) == rules + network_grant() + "\n"@);
    }
}

} // verus!
