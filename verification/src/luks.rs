//! Opening, closing and inspecting LUKS container files.
//!
//! The decisions of the three sub-commands are a state machine
//! ([`LuksSession`]): the caller performs each [`Step`] (a question about the
//! system, a line to print, a command to run) and feeds back what happened as
//! an [`Event`]. Argument checks, naming and the reading of `/proc/mounts` and
//! `df` output are plain functions.

use vstd::prelude::*;
use crate::paths::{
    dot, dot_dot, file_name, file_name_range, is_plain_name, join, join_path,
    lemma_file_name_of_join,
};
use crate::text::{
    ends_with, fields, find_char, lead, non_ws_pred, other_than, push_str, range_ends_with,
    range_eq, skip_non_ws, skip_ws, split_on, string_of, to_chars, trim, trim_range, trim_start,
    ws_pred,
};

verus! {

/// How privileged commands are started.
#[derive(Clone, Copy, Debug, PartialEq, Eq, Structural)]
pub enum PrivilegeRunner {
    Sudo,
    Run0,
    /// No escalation tool: commands run as they are.
    Direct,
}

/// The escalation tool to use: `sudo` when present, else `run0`, else none.
pub fn detect_privilege_runner(sudo_available: bool, run0_available: bool) -> (r: PrivilegeRunner)
    ensures
        r == (if sudo_available {
            PrivilegeRunner::Sudo
        } else if run0_available {
            PrivilegeRunner::Run0
        } else {
            PrivilegeRunner::Direct
        }),
{
    if sudo_available {
        PrivilegeRunner::Sudo
    } else if run0_available {
        PrivilegeRunner::Run0
    } else {
        PrivilegeRunner::Direct
    }
}

/// The character sequences of a list of strings.
pub open spec fn argv_view(v: Seq<String>) -> Seq<Seq<char>> {
    v.map_values(|s: String| s@)
}

/// Command line prefix that runs `program` through `runner`.
pub open spec fn privileged_argv(runner: PrivilegeRunner, program: Seq<char>) -> Seq<Seq<char>> {
    match runner {
        PrivilegeRunner::Sudo => seq!["sudo"@, program],
        PrivilegeRunner::Run0 => seq!["run0"@, program],
        PrivilegeRunner::Direct => seq![program],
    }
}

/// Appends a string slice as a new argument.
pub fn push_arg(argv: &mut Vec<String>, a: &str)
    ensures
        argv_view(final(argv)@) == argv_view(old(argv)@).push(a@),
{
    let mut s = String::new();
    push_str(&mut s, a);
    argv.push(s);
    assert(argv_view(argv@) =~= argv_view(old(argv)@).push(a@));
}

/// The start of a command line that runs `program` with the given privileges.
pub fn privileged_command(privilege_runner: &PrivilegeRunner, program: &str) -> (argv: Vec<String>)
    ensures
        argv_view(argv@) == privileged_argv(*privilege_runner, program@),
{
    let mut argv: Vec<String> = Vec::new();
    match privilege_runner {
        PrivilegeRunner::Sudo => push_arg(&mut argv, "sudo"),
        PrivilegeRunner::Run0 => push_arg(&mut argv, "run0"),
        PrivilegeRunner::Direct => {},
    }
    push_arg(&mut argv, program);
    assert(argv_view(argv@) =~= privileged_argv(*privilege_runner, program@));
    argv
}

/// Why a LUKS sub-command stopped.
#[derive(Debug)]
pub enum LuksError {
    MissingFile { path: String },
    NoName,
    NoHome,
    AlreadyMounted { name: String, mount: String },
    NotLuks { path: String },
    OpenFailed,
    MountPointFailed { mount: String, reason: String },
    MountFailed,
    UnmountFailed,
    CloseFailed,
    /// A command could not be started; the system's description.
    Io { reason: String },
}

impl LuksError {
    /// The message shown for the error.
    pub open spec fn text(&self) -> Seq<char> {
        match self {
            LuksError::MissingFile { path } => "LUKS file '"@ + path@ + "' does not exist"@,
            LuksError::NoName => "Unable to derive LUKS name from file path"@,
            LuksError::NoHome => "Failed to locate home directory"@,
            LuksError::AlreadyMounted { name, mount } => "LUKS device '"@ + name@
                + "' is already open and mounted at '"@ + mount@ + "'"@,
            LuksError::NotLuks { path } => "File '"@ + path@ + "' is not a valid LUKS container"@,
            LuksError::OpenFailed => "Failed to open LUKS device. Check password and try again."@,
            LuksError::MountPointFailed { mount, reason } => "Failed to create mount point '"@
                + mount@ + "': "@ + reason@,
            LuksError::MountFailed => "Failed to mount filesystem. Device may be corrupted."@,
            LuksError::UnmountFailed => "Failed to unmount filesystem. Files may be in use."@,
            LuksError::CloseFailed => "Failed to close LUKS device."@,
            LuksError::Io { reason } => reason@,
        }
    }

    /// The message shown for the error.
    pub fn message(&self) -> (s: String)
        ensures
            s@ == self.text(),
    {
        let mut s = String::new();
        match self {
            LuksError::MissingFile { path } => {
                push_str(&mut s, "LUKS file '");
                push_str(&mut s, path.as_str());
                push_str(&mut s, "' does not exist");
            },
            LuksError::NoName => push_str(&mut s, "Unable to derive LUKS name from file path"),
            LuksError::NoHome => push_str(&mut s, "Failed to locate home directory"),
            LuksError::AlreadyMounted { name, mount } => {
                push_str(&mut s, "LUKS device '");
                push_str(&mut s, name.as_str());
                push_str(&mut s, "' is already open and mounted at '");
                push_str(&mut s, mount.as_str());
                push_str(&mut s, "'");
            },
            LuksError::NotLuks { path } => {
                push_str(&mut s, "File '");
                push_str(&mut s, path.as_str());
                push_str(&mut s, "' is not a valid LUKS container");
            },
            LuksError::OpenFailed => push_str(
                &mut s,
                "Failed to open LUKS device. Check password and try again.",
            ),
            LuksError::MountPointFailed { mount, reason } => {
                push_str(&mut s, "Failed to create mount point '");
                push_str(&mut s, mount.as_str());
                push_str(&mut s, "': ");
                push_str(&mut s, reason.as_str());
            },
            LuksError::MountFailed => push_str(
                &mut s,
                "Failed to mount filesystem. Device may be corrupted.",
            ),
            LuksError::UnmountFailed => push_str(
                &mut s,
                "Failed to unmount filesystem. Files may be in use.",
            ),
            LuksError::CloseFailed => push_str(&mut s, "Failed to close LUKS device."),
            LuksError::Io { reason } => push_str(&mut s, reason.as_str()),
        }
        assert(s@ =~= self.text());
        s
    }
}

/// Refuses a container path that is not a regular file.
pub fn ensure_luks_file_exists(luks_file: &str, is_file: bool) -> (r: Result<(), LuksError>)
    ensures
        is_file ==> r is Ok,
        !is_file ==> (r matches Err(LuksError::MissingFile { path }) && path@ == luks_file@),
{
    if !is_file {
        let mut path = String::new();
        push_str(&mut path, luks_file);
        return Err(LuksError::MissingFile { path });
    }
    Ok(())
}

/// The device name for a container file: its file name without a `.luks` suffix.
pub open spec fn luks_name(p: Seq<char>) -> Option<Seq<char>> {
    match file_name(p) {
        Some(n) => Some(
            if ends_with(n, ".luks"@) {
                n.take(n.len() - 5)
            } else {
                n
            },
        ),
        None => None,
    }
}

/// Naming: a container `<name>.luks` in any directory is named `<name>`,
/// and a plain file name without the suffix is its own name.
pub proof fn lemma_luks_name_of_file(dir: Seq<char>, name: Seq<char>)
    requires
        forall|i: int| 0 <= i < name.len() ==> #[trigger] name[i] != '/',
    ensures
        luks_name(join(dir, name + ".luks"@)) == Some(name),
        (is_plain_name(name) && !ends_with(name, ".luks"@)) ==> luks_name(join(dir, name))
            == Some(name),
{
    reveal_strlit(".luks");
    let file = name + ".luks"@;
    assert forall|i: int| 0 <= i < file.len() implies #[trigger] file[i] != '/' by {
        if i >= name.len() {
            assert(file[i] == ".luks"@[i - name.len()]);
        }
    }
    assert(file[file.len() - 1] == 's');
    assert(file != dot() && file != dot_dot()) by {
        if file == dot() || file == dot_dot() {
            assert(file.len() <= 2);
        }
    }
    lemma_file_name_of_join(dir, file);
    assert(file.skip(file.len() - 5) =~= ".luks"@);
    assert(file.take(file.len() - 5) =~= name);
    if is_plain_name(name) && !ends_with(name, ".luks"@) {
        lemma_file_name_of_join(dir, name);
    }
}

/// The device-mapper name derived from a container path.
pub fn luks_name_from_path(luks_file: &str) -> (r: Result<String, LuksError>)
    ensures
        match r {
            Ok(name) => luks_name(luks_file@) == Some(name@),
            Err(e) => luks_name(luks_file@) is None && e is NoName,
        },
{
    let v = to_chars(luks_file);
    match file_name_range(&v) {
        Some((lo, hi)) => {
            let suffix = to_chars(".luks");
            proof { reveal_strlit(".luks"); }
            if range_ends_with(&v, lo, hi, &suffix) {
                let r = string_of(&v, lo, hi - 5);
                assert(r@ =~= v@.subrange(lo as int, hi as int).take(hi - lo - 5));
                Ok(r)
            } else {
                Ok(string_of(&v, lo, hi))
            }
        },
        None => Err(LuksError::NoName),
    }
}

/// Where the container gets mounted: the given mount point, else `~/<name>`.
pub fn resolve_mount_point(luks_name: &str, mount_point: Option<String>, home: Option<String>) -> (r:
    Result<String, LuksError>)
    ensures
        match mount_point {
            Some(m) => r == Ok::<String, LuksError>(m),
            None => match home {
                Some(h) => r matches Ok(p) && p@ == join(h@, luks_name@),
                None => r matches Err(LuksError::NoHome),
            },
        },
{
    match mount_point {
        Some(m) => Ok(m),
        None => match home {
            Some(h) => Ok(join_path(h.as_str(), luks_name)),
            None => Err(LuksError::NoHome),
        },
    }
}

/// The device-mapper node of an opened container.
pub open spec fn device_path(name: Seq<char>) -> Seq<char> {
    join("/dev/mapper"@, name)
}

/// Whether the container's device-mapper node exists, asking `path_exists`
/// about `/dev/mapper/<name>`.
pub fn is_device_open<F: Fn(&str) -> bool>(luks_name: &str, path_exists: F) -> (r: bool)
    requires
        forall|p: &str| path_exists.requires((p,)),
    ensures
        exists|p: &str| p@ == device_path(luks_name@) && path_exists.ensures((p,), r),
{
    let p = join_path("/dev/mapper", luks_name);
    let ps = p.as_str();
    let r = path_exists(ps);
    assert(ps@ == device_path(luks_name@));
    r
}

/// `line` lists `mount_point` as its second whitespace-separated field.
pub open spec fn lists_mount_point(line: Seq<char>, mount_point: Seq<char>) -> bool {
    fields(line).len() >= 2 && fields(line)[1] == mount_point
}

/// Some line of the mount table lists `mount_point` as its mount target.
pub open spec fn mount_listed(table: Seq<char>, mount_point: Seq<char>) -> bool {
    exists|i: int|
        0 <= i < split_on(table, '\n').len() && lists_mount_point(
            #[trigger] split_on(table, '\n')[i],
            mount_point,
        )
}

/// How `fields` takes its first field off `v[lo..hi]`.
proof fn lemma_fields_step(v: Seq<char>, lo: int, a: int, b: int, hi: int)
    requires
        0 <= lo <= a <= b <= hi <= v.len(),
        a - lo == lead(v.subrange(lo, hi), ws_pred()),
        b - a == lead(v.subrange(a, hi), non_ws_pred()),
    ensures
        a == hi ==> fields(v.subrange(lo, hi)) == Seq::<Seq<char>>::empty(),
        a < hi ==> fields(v.subrange(lo, hi)) == seq![v.subrange(a, b)] + fields(v.subrange(b, hi)),
{
    let s = v.subrange(lo, hi);
    assert(trim_start(s) =~= v.subrange(a, hi));
    if a < hi {
        let t = trim_start(s);
        assert(t.take(b - a) =~= v.subrange(a, b));
        assert(t.skip(b - a) =~= v.subrange(b, hi));
    }
}

/// Whether `v[lo..hi]` lists `m` as its second field.
fn line_lists(v: &Vec<char>, lo: usize, hi: usize, m: &Vec<char>) -> (r: bool)
    requires
        lo <= hi <= v@.len(),
    ensures
        r == lists_mount_point(v@.subrange(lo as int, hi as int), m@),
{
    let a = skip_ws(v, lo, hi);
    let b = skip_non_ws(v, a, hi);
    proof { lemma_fields_step(v@, lo as int, a as int, b as int, hi as int); }
    if a == hi {
        return false;
    }
    let c = skip_ws(v, b, hi);
    let d = skip_non_ws(v, c, hi);
    proof { lemma_fields_step(v@, b as int, c as int, d as int, hi as int); }
    if c == hi {
        return false;
    }
    range_eq(v, c, d, m)
}

/// How `split_on` takes its first piece off `v[lo..n]`.
pub proof fn lemma_split_on_step(v: Seq<char>, lo: int, e: int, c: char)
    requires
        0 <= lo <= e <= v.len(),
        e - lo == lead(v.subrange(lo, v.len() as int), other_than(c)),
    ensures
        e == v.len() ==> split_on(v.subrange(lo, v.len() as int), c) == seq![v.subrange(lo, e)],
        e < v.len() ==> split_on(v.subrange(lo, v.len() as int), c) == seq![v.subrange(lo, e)]
            + split_on(v.subrange(e + 1, v.len() as int), c),
{
    let s = v.subrange(lo, v.len() as int);
    if e < v.len() {
        assert(s.take(e - lo) =~= v.subrange(lo, e));
        assert(s.skip(e - lo + 1) =~= v.subrange(e + 1, v.len() as int));
    } else {
        assert(s =~= v.subrange(lo, e));
    }
}

/// Whether the mount table text lists `mount_point` (`None`: the table could
/// not be read).
pub fn is_mounted(mounts: Option<&str>, mount_point: &str) -> (r: bool)
    ensures
        r == match mounts {
            Some(t) => mount_listed(t@, mount_point@),
            None => false,
        },
{
    let table = match mounts {
        Some(t) => t,
        None => return false,
    };
    let v = to_chars(table);
    let m = to_chars(mount_point);
    let n = v.len();
    let ghost lines = split_on(v@, '\n');
    let mut lo: usize = 0;
    let ghost mut seen: Seq<Seq<char>> = seq![];
    assert(v@.subrange(0, n as int) =~= v@);
    loop
        invariant
            lo <= n == v@.len(),
            lines == split_on(v@, '\n'),
            lines =~= seen + split_on(v@.subrange(lo as int, n as int), '\n'),
            forall|i: int| 0 <= i < seen.len() ==> !lists_mount_point(#[trigger] seen[i], m@),
            v@ == table@,
            m@ == mount_point@,
            mounts == Some(table),
        decreases n - lo,
    {
        let e = find_char(&v, lo, n, '\n');
        proof { lemma_split_on_step(v@, lo as int, e as int, '\n'); }
        if line_lists(&v, lo, e, &m) {
            proof {
                assert(lines[seen.len() as int] == v@.subrange(lo as int, e as int));
                assert(lists_mount_point(split_on(v@, '\n')[seen.len() as int], m@));
            }
            return true;
        }
        proof {
            seen = seen.push(v@.subrange(lo as int, e as int));
        }
        if e == n {
            assert(lines =~= seen);
            assert forall|i: int| 0 <= i < split_on(v@, '\n').len() implies !lists_mount_point(
                #[trigger] split_on(v@, '\n')[i],
                m@,
            ) by {
                assert(lines[i] == seen[i]);
            }
            return false;
        }
        lo = e + 1;
    }
}

/// The last line of `s` that is not blank, trimmed.
pub open spec fn last_nonblank(lines: Seq<Seq<char>>) -> Option<Seq<char>>
    decreases lines.len(),
{
    if lines.len() == 0 {
        None
    } else if trim(lines.last()).len() > 0 {
        Some(trim(lines.last()))
    } else {
        last_nonblank(lines.drop_last())
    }
}

/// The last non-blank line of `df` output, trimmed; nothing when `df` failed.
pub fn df_last_line(success: bool, output: &str) -> (r: Option<String>)
    ensures
        !success ==> r is None,
        success ==> match r {
            Some(l) => last_nonblank(split_on(output@, '\n')) == Some(l@),
            None => last_nonblank(split_on(output@, '\n')) is None,
        },
{
    if !success {
        return None;
    }
    let v = to_chars(output);
    let n = v.len();
    let ghost lines = split_on(v@, '\n');
    let mut lo: usize = 0;
    let mut best: Option<(usize, usize)> = None;
    let ghost mut seen: Seq<Seq<char>> = seq![];
    assert(v@.subrange(0, n as int) =~= v@);
    loop
        invariant
            lo <= n == v@.len(),
            lines == split_on(v@, '\n'),
            lines =~= seen + split_on(v@.subrange(lo as int, n as int), '\n'),
            v@ == output@,
            success,
            match best {
                Some((a, b)) => a <= b <= n && last_nonblank(seen) == Some(
                    v@.subrange(a as int, b as int),
                ),
                None => last_nonblank(seen) is None,
            },
        decreases n - lo,
    {
        let e = find_char(&v, lo, n, '\n');
        proof { lemma_split_on_step(v@, lo as int, e as int, '\n'); }
        let (a, b) = trim_range(&v, lo, e);
        let ghost line = v@.subrange(lo as int, e as int);
        proof {
            let old_seen = seen;
            seen = seen.push(line);
            assert(seen.drop_last() =~= old_seen);
            assert(seen.last() == line);
        }
        if a < b {
            best = Some((a, b));
        }
        if e == n {
            assert(lines =~= seen);
            return match best {
                Some((a, b)) => Some(string_of(&v, a, b)),
                None => None,
            };
        }
        lo = e + 1;
    }
}

} // verus!
