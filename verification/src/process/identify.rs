//! The identity of a calling process and its ancestors.
use crate::path::{
    byte_strings, file_name, from_utf8_lossy, joined, opt_path, split_bytes, text_of_bytes,
    FilePath, SEPARATOR,
};
use crate::text::{
    chars_of, copy_range, decimal, decimal_string, has_prefix, is_text,
    law_texts_are_split_at_separators, opt_text, split_on, starts_with,
};
use vstd::prelude::*;
use vstd::string::*;

verus! {

/// A calling process.
#[derive(Debug)]
pub struct ProcessInfo {
    pub pid: u32,
    /// Start time in nanoseconds; with the pid it names one process instance.
    pub start_time: u64,
    pub binary_path: FilePath,
    pub binary_name: String,
    /// For an interpreter, the script that it runs.
    pub script: Option<FilePath>,
    pub parent_chain: Vec<ParentProcess>,
    pub code_signature: Option<String>,
}

/// What the policy knows of a calling process.
pub ghost struct Caller {
    pub pid: u32,
    pub start_time: u64,
    pub binary: Seq<u8>,
    pub script: Option<Seq<u8>>,
    pub signature: Option<Seq<char>>,
}

impl View for ProcessInfo {
    type V = Caller;

    open spec fn view(&self) -> Caller {
        Caller {
            pid: self.pid,
            start_time: self.start_time,
            binary: self.binary_path@,
            script: opt_path(self.script),
            signature: opt_text(self.code_signature),
        }
    }
}

/// An ancestor of a calling process.
#[derive(Debug)]
pub struct ParentProcess {
    pub pid: u32,
    pub name: String,
    pub binary_path: Option<FilePath>,
}

/// The contents of a [`ParentProcess`].
pub ghost struct ParentView {
    pub pid: u32,
    pub name: Seq<char>,
    pub binary_path: Option<Seq<u8>>,
}

impl View for ParentProcess {
    type V = ParentView;

    open spec fn view(&self) -> ParentView {
        ParentView { pid: self.pid, name: self.name@, binary_path: opt_path(self.binary_path) }
    }
}

/// The contents of a chain of ancestors.
pub open spec fn parent_views(chain: Seq<ParentProcess>) -> Seq<ParentView> {
    chain.map_values(|p: ParentProcess| p@)
}

/// The name that a process is shown under: its binary's file name, or its pid
/// where the path names no file.
pub open spec fn display_name(binary: Seq<u8>, pid: u32) -> Seq<char> {
    match file_name(binary) {
        Some(name) => text_of_bytes(name),
        None => "pid:"@ + decimal(pid as nat),
    }
}

/// Identify the process `pid` from what the system reports of it. The binary
/// and the start time are needed, and the first that is missing is the error.
pub fn identify<E>(
    pid: u32,
    binary_path: Result<FilePath, E>,
    start_time: Result<u64, E>,
    script: Option<FilePath>,
    parent_chain: Vec<ParentProcess>,
    code_signature: Option<String>,
) -> (r: Result<ProcessInfo, E>)
    ensures
        match (binary_path, start_time) {
            (Err(e), _) => r == Err::<ProcessInfo, E>(e),
            (Ok(_), Err(e)) => r == Err::<ProcessInfo, E>(e),
            (Ok(binary), Ok(time)) => r matches Ok(info) && {
                &&& info.pid == pid
                &&& info.start_time == time
                &&& info.binary_path == binary
                &&& info.binary_name@ == display_name(binary@, pid)
                &&& info.script == script
                &&& info.parent_chain == parent_chain
                &&& info.code_signature == code_signature
            },
        },
{
    let binary_path = match binary_path {
        Ok(p) => p,
        Err(e) => return Err(e),
    };
    let binary_name = match binary_path.file_name() {
        Some(n) => from_utf8_lossy(n.as_slice()),
        None => "pid:".to_string().concat(decimal_string(pid as u64).as_str()),
    };
    let start_time = match start_time {
        Ok(t) => t,
        Err(e) => return Err(e),
    };
    Ok(
        ProcessInfo {
            pid,
            start_time,
            binary_path,
            binary_name,
            script,
            parent_chain,
            code_signature,
        },
    )
}

/// Whether a binary of this name runs scripts.
pub open spec fn is_interpreter(name: Seq<char>) -> bool {
    ||| starts_with(name, "python"@)
    ||| name == "node"@
    ||| name == "ruby"@
    ||| name == "perl"@
    ||| name == "bash"@
    ||| name == "sh"@
}

/// The script that a process runs: for an interpreter, its first argument,
/// relative to its working directory. It is undetermined where that argument is
/// an option, or relative to an unknown directory.
pub open spec fn running_script(
    binary: Seq<u8>,
    cmdline: Seq<u8>,
    cwd: Option<Seq<u8>>,
) -> Option<Seq<u8>> {
    let args = split_on(cmdline, 0u8);
    if file_name(binary) is None || !is_interpreter(text_of_bytes(file_name(binary)->0)) {
        None
    } else if args.len() <= 1 || args[1].len() == 0 || args[1][0] == 0x2d {
        None
    } else if cwd is Some {
        Some(joined(cwd->0, args[1]))
    } else if args[1][0] == SEPARATOR {
        Some(args[1])
    } else {
        None
    }
}

/// The script that a process with this binary runs, given its command line (its
/// arguments, each ended by a zero byte) and its working directory.
pub fn script_of(binary: &FilePath, cmdline: &[u8], cwd: &Option<FilePath>) -> (r: Option<FilePath>)
    ensures
        opt_path(r) == running_script(binary@, cmdline@, opt_path(*cwd)),
{
    let name = match binary.file_name() {
        Some(n) => chars_of(from_utf8_lossy(n.as_slice()).as_str()),
        None => return None,
    };
    if !(has_prefix(&name, "python") || is_text(&name, "node") || is_text(&name, "ruby") || is_text(
        &name,
        "perl",
    ) || is_text(&name, "bash") || is_text(&name, "sh")) {
        return None;
    }
    let args = split_bytes(cmdline, 0);
    if args.len() <= 1 {
        assert(byte_strings(args@).len() <= 1);
        return None;
    }
    assert(byte_strings(args@)[1] == args@[1]@);
    if args[1].len() == 0 || args[1][0] == 0x2d {
        return None;
    }
    let script = FilePath::from_bytes(copy_range(&args[1], 0, args[1].len()));
    assert(script@ =~= args@[1]@);
    match cwd {
        Some(dir) => Some(dir.join(&script)),
        None => {
            if args[1][0] == SEPARATOR {
                Some(script)
            } else {
                None
            }
        },
    }
}

/// A process in a snapshot of the process table.
#[derive(Debug)]
pub struct ProcessEntry {
    pub pid: u32,
    pub parent: Option<u32>,
    pub name: String,
    pub exe: Option<FilePath>,
}

/// The longest chain of ancestors that is reported.
pub const MAX_PARENTS: usize = 16;

/// Position of the first entry for `pid` in the table, or the table's length.
pub open spec fn entry_index(table: Seq<ProcessEntry>, pid: u32) -> int
    decreases table.len(),
{
    if table.len() == 0 || table[0].pid == pid {
        0
    } else {
        1 + entry_index(table.skip(1), pid)
    }
}

/// The table's entry for `pid`.
pub open spec fn process(table: Seq<ProcessEntry>, pid: u32) -> Option<ProcessEntry> {
    let i = entry_index(table, pid);
    if 0 <= i < table.len() {
        Some(table[i])
    } else {
        None
    }
}

/// What the table shows of the process `pid` as an ancestor.
pub open spec fn parent_view(table: Seq<ProcessEntry>, pid: u32) -> ParentView {
    match process(table, pid) {
        Some(e) => ParentView { pid, name: e.name@, binary_path: opt_path(e.exe) },
        None => ParentView { pid, name: Seq::empty(), binary_path: None },
    }
}

/// The parent of `pid` in the table, unless it has none or its parent is pid 0.
pub open spec fn parent_of(table: Seq<ProcessEntry>, pid: u32) -> Option<u32> {
    match process(table, pid) {
        Some(e) => if e.parent is Some && e.parent->0 != 0 {
            e.parent
        } else {
            None
        },
        None => None,
    }
}

/// The ancestors of `pid`, nearest first, at most `limit` of them.
pub open spec fn ancestors(table: Seq<ProcessEntry>, pid: u32, limit: nat) -> Seq<ParentView>
    decreases limit,
{
    match parent_of(table, pid) {
        Some(parent) => if limit > 0 {
            seq![parent_view(table, parent)] + ancestors(table, parent, (limit - 1) as nat)
        } else {
            Seq::empty()
        },
        None => Seq::empty(),
    }
}

proof fn lemma_entry_index(table: Seq<ProcessEntry>, pid: u32, k: int)
    requires
        0 <= k <= table.len(),
        forall|j: int| 0 <= j < k ==> (#[trigger] table[j]).pid != pid,
        k < table.len() ==> table[k].pid == pid,
    ensures
        entry_index(table, pid) == k,
    decreases table.len(),
{
    if table.len() > 0 && k > 0 {
        assert(table[0].pid != pid);
        assert forall|j: int| 0 <= j < k - 1 implies (#[trigger] table.skip(1)[j]).pid != pid by {
            assert(table.skip(1)[j] == table[j + 1]);
        }
        lemma_entry_index(table.skip(1), pid, k - 1);
    }
}

fn find_process(table: &Vec<ProcessEntry>, pid: u32) -> (r: Option<usize>)
    ensures
        match r {
            Some(i) => i < table@.len() && process(table@, pid) == Some(table@[i as int]),
            None => process(table@, pid) is None,
        },
{
    let mut i: usize = 0;
    while i < table.len()
        invariant
            i <= table@.len(),
            forall|j: int| 0 <= j < i ==> (#[trigger] table@[j]).pid != pid,
        decreases table@.len() - i,
    {
        if table[i].pid == pid {
            proof {
                lemma_entry_index(table@, pid, i as int);
            }
            return Some(i);
        }
        i = i + 1;
    }
    proof {
        lemma_entry_index(table@, pid, i as int);
    }
    None
}

/// Walk the parent PID chain up to the first process, in a snapshot of the
/// process table.
pub fn parent_chain(table: &Vec<ProcessEntry>, pid: u32) -> (chain: Vec<ParentProcess>)
    ensures
        parent_views(chain@) == ancestors(table@, pid, MAX_PARENTS as nat),
        parent_views(chain@) == ancestors(table@, pid, 16),
{
    let mut chain: Vec<ParentProcess> = Vec::new();
    let mut current: u32 = pid;
    let mut left: usize = MAX_PARENTS;
    let ghost all = ancestors(table@, pid, MAX_PARENTS as nat);
    assert(parent_views(chain@) =~= Seq::<ParentView>::empty());
    assert(all =~= parent_views(chain@) + ancestors(table@, current, left as nat));
    while left > 0
        invariant
            all == ancestors(table@, pid, MAX_PARENTS as nat),
            all == parent_views(chain@) + ancestors(table@, current, left as nat),
        decreases left,
    {
        let ppid: u32 = match find_process(table, current) {
            Some(i) => match table[i].parent {
                Some(p) => p,
                None => 0,
            },
            None => 0,
        };
        if ppid == 0 {
            assert(ancestors(table@, current, left as nat) =~= Seq::<ParentView>::empty());
            assert(all =~= parent_views(chain@));
            return chain;
        }
        let parent = match find_process(table, ppid) {
            Some(i) => ParentProcess {
                pid: ppid,
                name: table[i].name.clone(),
                binary_path: crate::path::copy_opt_path(&table[i].exe),
            },
            None => ParentProcess { pid: ppid, name: String::new(), binary_path: None },
        };
        let ghost before = chain@;
        assert(parent@ == parent_view(table@, ppid));
        chain.push(parent);
        assert(parent_views(chain@) =~= parent_views(before).push(parent@));
        assert(parent_views(before) + (seq![parent@] + ancestors(table@, ppid, (left - 1) as nat))
            =~= parent_views(chain@) + ancestors(table@, ppid, (left - 1) as nat));
        current = ppid;
        left = left - 1;
    }
    assert(ancestors(table@, current, 0) =~= Seq::<ParentView>::empty());
    assert(all =~= parent_views(chain@));
    chain
}

/// Whether entry `i` of a chain of ancestors of `pid` is the recorded parent of
/// the process before it, and not pid 0.
pub open spec fn is_linked(
    table: Seq<ProcessEntry>,
    pid: u32,
    chain: Seq<ParentView>,
    i: int,
) -> bool {
    &&& chain[i].pid != 0
    &&& parent_of(
        table,
        if i == 0 {
            pid
        } else {
            chain[i - 1].pid
        },
    ) == Some(chain[i].pid)
}

/// A chain of ancestors never exceeds its limit and never lists pid 0, and each
/// ancestor is the recorded parent of the process before it.
pub proof fn law_ancestors_are_linked(table: Seq<ProcessEntry>, pid: u32, limit: nat)
    ensures
        ancestors(table, pid, limit).len() <= limit,
        forall|i: int|
            0 <= i < ancestors(table, pid, limit).len() ==> #[trigger] is_linked(
                table,
                pid,
                ancestors(table, pid, limit),
                i,
            ),
    decreases limit,
{
    if let Some(parent) = parent_of(table, pid) {
        if limit > 0 {
            law_ancestors_are_linked(table, parent, (limit - 1) as nat);
            let chain = ancestors(table, pid, limit);
            let rest = ancestors(table, parent, (limit - 1) as nat);
            assert forall|i: int| 0 <= i < chain.len() implies #[trigger] is_linked(
                table,
                pid,
                chain,
                i,
            ) by {
                if i > 0 {
                    assert(is_linked(table, parent, rest, i - 1));
                    assert(chain[i] == rest[i - 1]);
                    if i > 1 {
                        assert(chain[i - 1] == rest[i - 2]);
                    }
                }
            }
        }
    }
}

/// A process is shown under its binary's file name, and under its pid only where
/// there is none.
pub proof fn law_processes_are_shown_by_name(binary: Seq<u8>, pid: u32)
    ensures
        file_name(binary) matches Some(name) ==> display_name(binary, pid) == text_of_bytes(name),
        file_name(binary) is None ==> display_name(binary, pid) == "pid:"@ + decimal(pid as nat),
{
}

/// Every binary whose name begins with `python` runs scripts, and of the others
/// only those with one of five names.
pub proof fn law_interpreters_are_known_by_name(name: Seq<char>, version: Seq<char>)
    ensures
        is_interpreter("python"@ + version),
        is_interpreter("node"@),
        is_interpreter("ruby"@),
        is_interpreter("perl"@),
        is_interpreter("bash"@),
        is_interpreter("sh"@),
        is_interpreter(name) ==> "python"@.is_prefix_of(name) || name == "node"@ || name == "ruby"@
            || name == "perl"@ || name == "bash"@ || name == "sh"@,
{
    assert("python"@.is_prefix_of("python"@ + version));
}

/// The script of an interpreter is its first argument, taken relative to its
/// working directory. There is none for other binaries, without that argument, or
/// where it is an option, and it is unknown where it is relative to a directory
/// that is not known.
pub proof fn law_the_script_is_the_first_argument(
    binary: Seq<u8>,
    command: Seq<u8>,
    argument: Seq<u8>,
    more: Seq<u8>,
    cwd: Option<Seq<u8>>,
)
    requires
        !command.contains(0u8),
        !argument.contains(0u8),
    ensures
        ({
            let cmdline = command + seq![0u8] + (argument + seq![0u8] + more);
            let runs_scripts = file_name(binary) is Some && is_interpreter(
                text_of_bytes(file_name(binary)->0),
            );
            let script = running_script(binary, cmdline, cwd);
            &&& !runs_scripts ==> script is None
            &&& argument.len() == 0 || argument[0] == 0x2d ==> script is None
            &&& runs_scripts && argument.len() > 0 && argument[0] != 0x2d ==> {
                &&& cwd matches Some(dir) ==> script == Some(joined(dir, argument))
                &&& cwd is None && argument[0] == 0x2f ==> script == Some(argument)
                &&& cwd is None && argument[0] != 0x2f ==> script is None
            }
            &&& running_script(binary, command, cwd) is None
            &&& running_script(binary, command + seq![0u8] + argument, cwd) == script
        }),
{
    law_texts_are_split_at_separators(command, 0u8, argument + seq![0u8] + more);
    law_texts_are_split_at_separators(command, 0u8, argument);
    law_texts_are_split_at_separators(argument, 0u8, more);
    let long = split_on(command + seq![0u8] + (argument + seq![0u8] + more), 0u8);
    let short = split_on(command + seq![0u8] + argument, 0u8);
    assert(long[1] == argument);
    assert(short[1] == argument);
    assert(long.len() > 1 && short.len() == 2);
}

/// A process is looked up by its pid, and the first entry with that pid counts.
pub proof fn law_the_first_entry_counts(first: ProcessEntry, rest: Seq<ProcessEntry>, pid: u32)
    ensures
        process(Seq::empty(), pid) is None,
        first.pid == pid ==> process(seq![first] + rest, pid) == Some(first),
        first.pid != pid ==> process(seq![first] + rest, pid) == process(rest, pid),
{
    let table = seq![first] + rest;
    assert(table[0] == first);
    assert(table.skip(1) =~= rest);
    lemma_entry_index_bound(rest, pid);
    if first.pid != pid && entry_index(rest, pid) < rest.len() {
        assert(table[1 + entry_index(rest, pid)] == rest[entry_index(rest, pid)]);
    }
}

proof fn lemma_entry_index_bound(table: Seq<ProcessEntry>, pid: u32)
    ensures
        0 <= entry_index(table, pid) <= table.len(),
    decreases table.len(),
{
    if table.len() > 0 && table[0].pid != pid {
        lemma_entry_index_bound(table.skip(1), pid);
    }
}

/// The chain of ancestors goes from parent to parent as the table records them,
/// each as the table shows it, and ends only at its limit, at a process that is
/// not in the table, or at one without a parent other than pid 0.
pub proof fn law_chains_go_from_parent_to_parent(
    table: Seq<ProcessEntry>,
    pid: u32,
    limit: nat,
    entry: ProcessEntry,
    parent: u32,
)
    ensures
        ancestors(table, pid, 0).len() == 0,
        process(table, pid) is None ==> ancestors(table, pid, limit).len() == 0,
        process(table, pid) == Some(entry) && (entry.parent is None || entry.parent == Some(0u32))
            ==> ancestors(table, pid, limit).len() == 0,
        process(table, pid) == Some(entry) && entry.parent == Some(parent) && parent != 0 && limit
            > 0 ==> {
            let chain = ancestors(table, pid, limit);
            &&& chain.len() > 0
            &&& chain.skip(1) == ancestors(table, parent, (limit - 1) as nat)
            &&& chain[0].pid == parent
            &&& process(table, parent) matches Some(e) ==> chain[0].name == e.name@
                && chain[0].binary_path == opt_path(e.exe)
            &&& process(table, parent) is None ==> chain[0].name.len() == 0
                && chain[0].binary_path is None
        },
{
    if process(table, pid) == Some(entry) && entry.parent == Some(parent) && parent != 0 && limit
        > 0 {
        assert(ancestors(table, pid, limit).skip(1) =~= ancestors(
            table,
            parent,
            (limit - 1) as nat,
        ));
    }
}

/// What the policy sees of a process is what was reported of it.
pub proof fn law_callers_are_seen_as_reported(info: ProcessInfo, chain: Seq<ParentProcess>, i: int)
    ensures
        info@.pid == info.pid,
        info@.start_time == info.start_time,
        info@.binary == info.binary_path@,
        info@.script == opt_path(info.script),
        info@.signature == opt_text(info.code_signature),
        parent_views(chain).len() == chain.len(),
        0 <= i < chain.len() ==> parent_views(chain)[i].pid == chain[i].pid
            && parent_views(chain)[i].name == chain[i].name@ && parent_views(chain)[i].binary_path
            == opt_path(chain[i].binary_path),
{
}

} // verus!
