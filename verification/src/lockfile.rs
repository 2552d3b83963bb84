//! A file with the number of the process that holds a lock, so that only one of its kind runs.

use vstd::prelude::*;
use vstd::string::*;

use crate::number::{law_decimal_reads_back, parse_unsigned, unsigned};
use crate::text::{decimal, decimal_text, trim, trim_end, trim_start, trimmed, white_space};

verus! {

/// Why a lock could not be taken.
#[derive(Debug, PartialEq, Eq)]
pub enum LockError {
    /// A live process holds it.
    HeldBy { pid: u32, path: String },
    /// An error of the operating system, as its text.
    Io(String),
}

impl LockError {
    /// The text that is shown to people.
    pub open spec fn shown(self) -> Seq<char> {
        match self {
            LockError::HeldBy { pid, path } => "pidfile "@ + path@ + " held by live process "@
                + decimal(pid as nat),
            LockError::Io(e) => "pidfile io: "@ + e@,
        }
    }

    /// The text that is shown to people.
    pub fn message(&self) -> (r: String)
        ensures
            r@ == self.shown(),
    {
        match self {
            LockError::HeldBy { pid, path } => {
                let mut out: String = "pidfile ".to_string();
                out.append(path.as_str());
                out.append(" held by live process ");
                let n = decimal_text(*pid as u64);
                out.append(n.as_str());
                out
            },
            LockError::Io(e) => "pidfile io: ".to_string().concat(e.as_str()),
        }
    }
}

/// A lock that is held.
#[derive(Debug, PartialEq, Eq)]
pub struct PidFile {
    path: String,
    pid: u32,
}

/// The process whose number a file holds.
pub open spec fn owner(raw: Seq<char>) -> Option<u32> {
    match unsigned(trim(raw)) {
        Some(n) => if n <= u32::MAX {
            Some(n as u32)
        } else {
            None
        },
        None => None,
    }
}

/// The process whose number a file holds; a file that is not there holds none.
pub open spec fn owner_of(contents: Option<&str>) -> Option<u32> {
    match contents {
        Some(raw) => owner(raw@),
        None => None,
    }
}

/// The process whose number the file with the given contents holds, if it is there and can
/// be read.
pub fn read_pidfile(contents: Option<&str>) -> (r: Option<u32>)
    ensures
        r == owner_of(contents),
{
    match contents {
        None => None,
        Some(raw) => {
            let t = trimmed(raw);
            match parse_unsigned(t.as_str(), u32::MAX as u128) {
                Some(n) => Some(n as u32),
                None => None,
            }
        },
    }
}

/// What the operating system says to a signal that only asks whether a process is there.
#[derive(Clone, Copy, Debug, PartialEq, Eq, Structural)]
pub enum Probe {
    Delivered,
    /// The process belongs to someone else.
    NotPermitted,
    Failed,
}

/// The largest number that a process can have.
pub const MAX_PID: u32 = 0x7fff_ffff;

/// The process `pid` is running, when the operating system said `probe`.
pub open spec fn runs(pid: u32, probe: Probe) -> bool {
    0 < pid <= MAX_PID && probe != Probe::Failed
}

/// Whether the process `pid` is running, when the operating system said `probe`. There is no
/// process with the number zero, and none with a number that is too large.
pub fn is_process_alive(pid: u32, probe: Probe) -> (r: bool)
    ensures
        r == runs(pid, probe),
{
    if pid == 0 || pid > MAX_PID {
        return false;
    }
    match probe {
        Probe::Delivered => true,
        Probe::NotPermitted => true,
        Probe::Failed => false,
    }
}

/// What the file of a process holds.
pub open spec fn file_text(pid: u32) -> Seq<char> {
    decimal(pid as nat) + "\n"@
}

/// The lock is held by another process.
pub open spec fn taken(contents: Option<&str>, alive: bool, own: u32) -> bool {
    owner_of(contents) matches Some(pid) && alive && pid != own
}

impl PidFile {
    /// The file of the lock.
    pub closed spec fn spec_path(self) -> Seq<char> {
        self.path@
    }

    /// The process that holds the lock.
    pub closed spec fn spec_pid(self) -> u32 {
        self.pid
    }

    /// Takes the lock for the process `own`, where the file has the given contents and
    /// `alive` tells whether the process that it names is running. A file that names a
    /// process that is gone, or that cannot be read, does not count.
    pub fn acquire(path: String, contents: Option<&str>, alive: bool, own: u32) -> (r: Result<
        PidFile,
        LockError,
    >)
        ensures
            match r {
                Ok(lock) => !taken(contents, alive, own) && lock.spec_path() == path@
                    && lock.spec_pid() == own,
                Err(LockError::HeldBy { pid, path: p }) => taken(contents, alive, own)
                    && owner_of(contents) == Some(pid) && p == path,
                Err(LockError::Io(_)) => false,
            },
    {
        if let Some(existing) = read_pidfile(contents) {
            if alive && existing != own {
                return Err(LockError::HeldBy { pid: existing, path });
            }
        }
        Ok(PidFile { path, pid: own })
    }

    /// The file of the lock.
    pub fn path(&self) -> (r: &str)
        ensures
            r@ == self.spec_path(),
    {
        self.path.as_str()
    }

    /// The process that holds the lock.
    pub fn pid(&self) -> (r: u32)
        ensures
            r == self.spec_pid(),
    {
        self.pid
    }

    /// What the file of the lock holds while the lock is held.
    pub fn contents(&self) -> (r: String)
        ensures
            r@ == file_text(self.spec_pid()),
    {
        let mut out = decimal_text(self.pid as u64);
        out.append("\n");
        out
    }

    /// Gives the lock up, where its file has the given contents by now. The result is whether
    /// the file is to be removed: one that names another process belongs to that process.
    pub fn release(self, contents: Option<&str>) -> (r: bool)
        ensures
            r == (owner_of(contents) == Some(self.spec_pid())),
    {
        match read_pidfile(contents) {
            Some(pid) => pid == self.pid,
            None => false,
        }
    }
}

proof fn lemma_trim_number(pid: u32)
    ensures
        owner(file_text(pid)) == Some(pid),
{
    let d = decimal(pid as nat);
    law_decimal_reads_back(pid as nat);
    reveal_strlit("\n");
    let s = file_text(pid);
    assert(s =~= d.push('\n'));
    assert(crate::number::is_digit(d[0]));
    assert(s[0] == d[0]);
    assert(!white_space(s[0]));
    assert(trim_start(s) == s);
    assert(s.last() == '\n');
    assert(s.drop_last() =~= d);
    assert(crate::number::is_digit(d[d.len() - 1]));
    assert(trim_end(d) == d);
    assert(trim(s) == d);
}

/// Whoever holds the lock is the one that its file names: it gives the lock up by removing
/// the file, another process does not, and as long as the holder lives no other process can
/// take the lock.
pub proof fn law_file_names_its_holder(pid: u32, other: u32, file: &str)
    requires
        file@ == file_text(pid),
    ensures
        owner_of(Some(file)) == Some(pid),
        !taken(Some(file), true, pid),
        other != pid ==> taken(Some(file), true, other),
        !taken(Some(file), false, other),
{
    lemma_trim_number(pid);
}

/// A process is running if it can be signalled, or if it only may not be: it belongs to someone else
/// then. Whatever is said of it, there is no process with the number zero, and none whose number
/// takes more than thirty-one bits.
pub proof fn law_running_processes_are_alive(pid: u32, probe: Probe)
    ensures
        0 < pid < 0x8000_0000 ==> runs(pid, Probe::Delivered) && runs(pid, Probe::NotPermitted)
            && !runs(pid, Probe::Failed),
        pid == 0 || pid >= 0x8000_0000 ==> !runs(pid, probe),
{
}

/// A lock is refused only where its file names another process that is alive. A file that names
/// nobody, or that is not there, stands in nobody's way.
pub proof fn law_dead_owners_hold_nothing(file: &str, alive: bool, own: u32)
    ensures
        !taken(None, alive, own),
        owner(file@) is None ==> !taken(Some(file), alive, own),
        owner(file@) == Some(own) ==> !taken(Some(file), alive, own),
        owner(file@) is Some && owner(file@) != Some(own) ==> (taken(Some(file), alive, own)
            <==> alive),
{
}

} // verus!
