//! Execution dispatch: select exactly one execution strategy per launch and
//! resolve script paths, including directory-style invocation.

use vstd::prelude::*;
use crate::settings::{argv_spec, seq_views, CliArgs};

verus! {

/// The execution strategy of one launch: exactly one is selected, with the
/// fixed precedence command > module > script > interactive.
pub enum ExecutionMode {
    /// Run the given text as a program.
    Command(String),
    /// Run a library module as a script.
    Module(String),
    /// Run a script file, or a directory holding the entry-point file.
    Script(String),
    /// Start the interactive session.
    Interactive,
}

/// Which mode a command line selects.
pub open spec fn mode_spec(cli: CliArgs) -> ExecutionMode {
    if cli.command is Some {
        ExecutionMode::Command(cli.command->0[0])
    } else if cli.module is Some {
        ExecutionMode::Module(cli.module->0[0])
    } else if cli.script is Some {
        ExecutionMode::Script(cli.script->0[0])
    } else {
        ExecutionMode::Interactive
    }
}

/// Select the execution mode for this command line.
pub fn select_mode(cli: &CliArgs) -> (m: ExecutionMode)
    requires
        cli.wf(),
    ensures
        m == mode_spec(*cli),
{
    if let Some(vals) = &cli.command {
        ExecutionMode::Command(vals[0].clone())
    } else if let Some(vals) = &cli.module {
        ExecutionMode::Module(vals[0].clone())
    } else if let Some(vals) = &cli.script {
        ExecutionMode::Script(vals[0].clone())
    } else {
        ExecutionMode::Interactive
    }
}

/// A fatal launch failure; each variant keeps its own distinct report.
#[derive(Clone, Copy, PartialEq, Eq, Structural, Debug)]
pub enum LaunchError {
    /// The script path names neither a file nor a directory.
    NoSuchFile,
    /// The script path names a directory without the entry-point file.
    NoEntryPoint,
}

/// The entry-point file a directory-style invocation executes: the
/// entry-point name under the directory, with no separator doubled when the
/// directory already ends in one.
pub open spec fn entry_point_in(dir: Seq<char>) -> Seq<char> {
    if dir.len() > 0 && dir.last() == '/' {
        dir + "__main__.py"@
    } else {
        dir + "/__main__.py"@
    }
}

/// How a script path resolves, given what the filesystem says of it: a file
/// is taken as it is; a directory is entered through its entry-point file or
/// refused; anything else does not exist.
pub open spec fn resolve_script_spec(
    path: Seq<char>,
    is_file: bool,
    is_dir: bool,
    dir_has_entry: bool,
) -> Result<Seq<char>, LaunchError> {
    if is_file {
        Ok(path)
    } else if is_dir && dir_has_entry {
        Ok(entry_point_in(path))
    } else if is_dir {
        Err(LaunchError::NoEntryPoint)
    } else {
        Err(LaunchError::NoSuchFile)
    }
}

/// Resolve the script path to the file to execute, or to the distinct fatal
/// error. The caller reports what the filesystem says of the path: whether
/// it names a file, a directory, and whether the entry-point file inside it
/// names a file.
pub fn resolve_script(
    path: &str,
    is_file: bool,
    is_dir: bool,
    dir_has_entry: bool,
) -> (r: Result<String, LaunchError>)
    ensures
        r is Ok <==> resolve_script_spec(path@, is_file, is_dir, dir_has_entry) is Ok,
        r is Ok ==> r->Ok_0@ == resolve_script_spec(path@, is_file, is_dir, dir_has_entry)->Ok_0,
        r is Err ==> r->Err_0 == resolve_script_spec(path@, is_file, is_dir, dir_has_entry)->Err_0,
{
    if is_file {
        Ok(String::from_str(path))
    } else if is_dir && dir_has_entry {
        let n = path.unicode_len();
        let mut joined = String::from_str(path);
        if n > 0 && path.get_char(n - 1) == '/' {
            joined.append("__main__.py");
        } else {
            joined.append("/__main__.py");
        }
        Ok(joined)
    } else if is_dir {
        Err(LaunchError::NoEntryPoint)
    } else {
        Err(LaunchError::NoSuchFile)
    }
}

/// The fatal report for each launch error.
pub open spec fn launch_error_message(e: LaunchError, path: Seq<char>) -> Seq<char> {
    match e {
        LaunchError::NoEntryPoint => "can't find '__main__' module in '"@ + path + "'"@,
        LaunchError::NoSuchFile => "can't open file '"@ + path + "': No such file or directory"@,
    }
}

impl LaunchError {
    /// Render this error's report for the offending path.
    pub fn message(&self, path: &str) -> (m: String)
        ensures
            m@ == launch_error_message(*self, path@),
    {
        match self {
            LaunchError::NoEntryPoint => {
                let mut m = String::from_str("can't find '__main__' module in '");
                m.append(path);
                m.append("'");
                m
            },
            LaunchError::NoSuchFile => {
                let mut m = String::from_str("can't open file '");
                m.append(path);
                m.append("': No such file or directory");
                m
            },
        }
    }
}

/// The process exit status an outcome decides: 0 for success, 1 for any
/// fatal condition.
pub fn exit_status(success: bool) -> (code: i32)
    ensures
        success ==> code == 0,
        !success ==> code == 1,
{
    if success {
        0
    } else {
        1
    }
}

/// The two fatal script errors stay distinguishable whatever paths they
/// report: their rendered messages are never the same text.
pub proof fn lemma_launch_error_messages_distinct(p1: Seq<char>, p2: Seq<char>)
    ensures
        launch_error_message(LaunchError::NoEntryPoint, p1) != launch_error_message(
            LaunchError::NoSuchFile,
            p2,
        ),
{
    reveal_strlit("can't find '__main__' module in '");
    reveal_strlit("can't open file '");
    let a = launch_error_message(LaunchError::NoEntryPoint, p1);
    let b = launch_error_message(LaunchError::NoSuchFile, p2);
    assert(a[6] == 'f');
    assert(b[6] == 'o');
    assert(a != b) by {
        if a == b {
            assert(a[6] == b[6]);
        }
    }
}

/// The resolved argument vector opens with the selected mode's token — the
/// command-flag literal, the module placeholder, or the script's own name —
/// and stays empty for an interactive launch.
pub proof fn lemma_argv_matches_mode(cli: CliArgs)
    requires
        cli.wf(),
    ensures
        mode_spec(cli) is Command ==> argv_spec(cli).len() > 0
            && argv_spec(cli)[0] == "-c"@,
        mode_spec(cli) is Module ==> argv_spec(cli).len() > 0
            && argv_spec(cli)[0] == "PLACEHOLDER"@,
        mode_spec(cli) is Script ==> argv_spec(cli).len() > 0
            && argv_spec(cli)[0] == mode_spec(cli)->Script_0@,
        mode_spec(cli) is Interactive ==> argv_spec(cli).len() == 0,
{
    if cli.command is None && cli.module is None && cli.script is Some {
        assert(seq_views(cli.script->0@)[0] == cli.script->0@[0]@);
    }
}

/// The text up to the last separator: the containing directory of a path,
/// with a lone leading root separator kept.
pub open spec fn parent_of(s: Seq<char>) -> Seq<char>
    decreases s.len(),
{
    if s.len() == 0 {
        Seq::<char>::empty()
    } else if s.last() == '/' {
        if s.len() == 1 {
            s
        } else {
            s.drop_last()
        }
    } else {
        parent_of(s.drop_last())
    }
}

/// The containing directory of the resolved script, prepended to the module
/// search path before the script runs.
pub fn parent_dir(path: &str) -> (d: String)
    ensures
        d@ == parent_of(path@),
{
    let n = path.unicode_len();
    let mut j: usize = n;
    let mut found = false;
    proof {
        assert(path@.subrange(0, n as int) =~= path@);
    }
    while !found && j > 0
        invariant
            j <= n,
            n == path@.len(),
            !found ==> parent_of(path@) == parent_of(path@.subrange(0, j as int)),
            found ==> j > 0 && path@[j - 1] == '/' && parent_of(path@) == parent_of(
                path@.subrange(0, j as int),
            ),
        decreases j + if found { 0int } else { 1int },
    {
        if path.get_char(j - 1) == '/' {
            found = true;
        } else {
            proof {
                assert(path@.subrange(0, j as int).drop_last() =~= path@.subrange(0, j - 1 as int));
            }
            j = j - 1;
        }
    }
    if !found {
        proof {
            assert(path@.subrange(0, 0) =~= Seq::<char>::empty());
        }
        String::new()
    } else if j == 1 {
        let d = String::from_str(path.substring_char(0, 1));
        proof {
            assert(path@.subrange(0, 1).last() == '/');
        }
        d
    } else {
        let d = String::from_str(path.substring_char(0, j - 1));
        proof {
            assert(path@.subrange(0, j as int).last() == '/');
            assert(path@.subrange(0, j as int).drop_last() =~= path@.subrange(0, j - 1 as int));
        }
        d
    }
}

/// Put the resolved script's containing directory at the front of the
/// module search path. This happens exactly once per launch and is never
/// reverted.
pub fn prepend_search_path(paths: &mut Vec<String>, dir: String)
    ensures
        final(paths)@ == seq![dir] + old(paths)@,
{
    paths.insert(0, dir);
    proof {
        assert(old(paths)@.insert(0, dir) =~= seq![dir] + old(paths)@);
    }
}

proof fn lemma_parent_append_no_separator(s: Seq<char>, t: Seq<char>)
    requires
        forall|i: int| 0 <= i < t.len() ==> t[i] != '/',
    ensures
        parent_of(s + t) == parent_of(s),
    decreases t.len(),
{
    if t.len() == 0 {
        assert(s + t =~= s);
    } else {
        assert((s + t).last() == t.last());
        assert((s + t).drop_last() =~= s + t.drop_last());
        lemma_parent_append_no_separator(s, t.drop_last());
    }
}

/// Dispatching a directory that holds the entry-point file behaves as
/// dispatching that file directly: both resolve to the same file, so the
/// same source runs, the same path is bound as the current file, and the
/// same containing directory — the directory itself, a trailing separator
/// dropped — is prepended to the module search path.
pub proof fn lemma_directory_matches_direct(dir: Seq<char>)
    requires
        dir.len() > 0,
    ensures
        resolve_script_spec(dir, false, true, true) == Ok::<Seq<char>, LaunchError>(
            entry_point_in(dir),
        ),
        resolve_script_spec(entry_point_in(dir), true, false, false) == Ok::<
            Seq<char>,
            LaunchError,
        >(entry_point_in(dir)),
        dir.last() != '/' ==> parent_of(entry_point_in(dir)) == dir,
        dir.last() == '/' ==> parent_of(entry_point_in(dir)) == parent_of(dir),
{
    if dir.last() == '/' {
        reveal_strlit("__main__.py");
        let name = "__main__.py"@;
        assert(name.len() == 11);
        assert(forall|i: int| 0 <= i < name.len() ==> name[i] != '/');
        lemma_parent_append_no_separator(dir, name);
    } else {
        reveal_strlit("/__main__.py");
        let lit = "/__main__.py"@;
        assert(lit.len() == 12);
        let name = lit.subrange(1, 12);
        assert(forall|i: int| 0 <= i < name.len() ==> name[i] != '/');
        let head = dir + seq!['/'];
        assert(dir + lit =~= head + name);
        lemma_parent_append_no_separator(head, name);
        assert(head.last() == '/');
        assert(head.drop_last() =~= dir);
    }
}

} // verus!
