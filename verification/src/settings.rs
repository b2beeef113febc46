//! Settings resolution: command-line flags and an environment snapshot
//! become one immutable configuration value.
//!
//! Resolution order for every flag: an explicit command-line flag wins;
//! otherwise, unless the environment is ignored, the corresponding
//! environment variable is consulted; otherwise the default.

use vstd::prelude::*;

verus! {

/// The command-line flags of one launch, as the argument parser found them.
///
/// The three execution sources each carry their full value list: the source
/// name first, then its trailing arguments.
pub struct CliArgs {
    /// Positional `script [args...]`, if given.
    pub script: Option<Vec<String>>,
    /// `-c CMD [args...]`, if given.
    pub command: Option<Vec<String>>,
    /// `-m MODULE [args...]`, if given.
    pub module: Option<Vec<String>>,
    /// Number of `-O` occurrences.
    pub optimize: u8,
    /// Number of `-v` occurrences.
    pub verbose: u8,
    /// `-d`.
    pub debug: bool,
    /// `-i`.
    pub inspect: bool,
    /// `-q`.
    pub quiet: bool,
    /// `-S`.
    pub no_site: bool,
    /// `-s`.
    pub no_user_site: bool,
    /// `-B`.
    pub dont_write_bytecode: bool,
    /// `-E`: ignore the environment variables in [`EnvSnapshot`].
    pub ignore_environment: bool,
}

impl CliArgs {
    /// An execution source that is present always holds at least one value:
    /// the command text, module name, or script path itself.
    pub open spec fn wf(&self) -> bool {
        &&& self.script is Some ==> self.script->0.len() > 0
        &&& self.command is Some ==> self.command->0.len() > 0
        &&& self.module is Some ==> self.module->0.len() > 0
    }
}

/// What the process environment held at launch, already decoded to text.
///
/// Presence of a boolean variable counts, whatever its value, even empty.
pub struct EnvSnapshot {
    /// Value of the runtime-specific path variable (`RUSTPYTHONPATH`).
    pub runtime_path: Option<String>,
    /// Value of the general path variable (`PYTHONPATH`).
    pub general_path: Option<String>,
    /// `PYTHONDEBUG` is set.
    pub debug_set: bool,
    /// `PYTHONINSPECT` is set.
    pub inspect_set: bool,
    /// `PYTHONNOUSERSITE` is set.
    pub no_user_site_set: bool,
    /// `PYTHONDONTWRITEBYTECODE` is set.
    pub dont_write_bytecode_set: bool,
    /// Value of `PYTHONOPTIMIZE`.
    pub optimize: Option<String>,
    /// Value of `PYTHONVERBOSE`.
    pub verbose: Option<String>,
    /// The platform's path-list separator (`:` on Unix-likes).
    pub path_separator: char,
}

/// The resolved configuration: built once, immutable thereafter.
pub struct Settings {
    pub ignore_environment: bool,
    /// Module search path; order is priority, duplicates allowed.
    pub path_list: Vec<String>,
    pub debug: bool,
    pub inspect: bool,
    pub no_site: bool,
    pub no_user_site: bool,
    pub quiet: bool,
    pub dont_write_bytecode: bool,
    pub optimize: u8,
    pub verbose: u8,
    /// Mode-dependent argument vector; see [`argv_spec`].
    pub argv: Vec<String>,
}

/// The views of a sequence of strings.
pub open spec fn seq_views(v: Seq<String>) -> Seq<Seq<char>> {
    v.map_values(|p: String| p@)
}

/// A decimal digit.
pub open spec fn is_decimal_digit(c: char) -> bool {
    '0' as int <= c as int && c as int <= '9' as int
}

/// The numeric value of a decimal digit.
pub open spec fn digit_val(c: char) -> int {
    c as int - '0' as int
}

pub open spec fn all_decimal_digits(s: Seq<char>) -> bool {
    forall|i: int| 0 <= i < s.len() ==> is_decimal_digit(#[trigger] s[i])
}

/// The value of a digit string, most significant digit first.
pub open spec fn digits_value(s: Seq<char>) -> int
    decreases s.len(),
{
    if s.len() == 0 {
        0
    } else {
        digits_value(s.drop_last()) * 10 + digit_val(s.last())
    }
}

/// The digits of an unsigned decimal numeral: everything after one optional
/// leading plus sign.
pub open spec fn int_body(s: Seq<char>) -> Seq<char> {
    if s.len() > 0 && s[0] == '+' {
        s.drop_first()
    } else {
        s
    }
}

/// A well-formed unsigned numeral that fits the level type.
pub open spec fn is_level_numeral(s: Seq<char>) -> bool {
    &&& int_body(s).len() > 0
    &&& all_decimal_digits(int_body(s))
    &&& digits_value(int_body(s)) <= u8::MAX
}

/// What an integer-valued environment variable resolves to: its numeric
/// value if it is a well-formed unsigned numeral in range, and exactly 1
/// otherwise. Malformed values are tolerated, never an error.
pub open spec fn tolerant_env_int(s: Seq<char>) -> u8 {
    if is_level_numeral(s) {
        digits_value(int_body(s)) as u8
    } else {
        1
    }
}

proof fn lemma_digits_value_nonneg(s: Seq<char>)
    requires
        all_decimal_digits(s),
    ensures
        digits_value(s) >= 0,
    decreases s.len(),
{
    if s.len() > 0 {
        assert(all_decimal_digits(s.drop_last()));
        lemma_digits_value_nonneg(s.drop_last());
    }
}

proof fn lemma_digits_value_push(s: Seq<char>, c: char)
    ensures
        digits_value(s.push(c)) == digits_value(s) * 10 + digit_val(c),
{
    assert(s.push(c).drop_last() =~= s);
    assert(s.push(c).last() == c);
}

/// Parse a level value as the environment policy reads it: an optional `+`,
/// then decimal digits, in range; any malformed value resolves to 1.
pub fn env_int_value(s: &str) -> (v: u8)
    ensures
        v == tolerant_env_int(s@),
{
    let n = s.unicode_len();
    let mut i: usize = 0;
    if n > 0 && s.get_char(0) == '+' {
        i = 1;
    }
    let ghost body = int_body(s@);
    proof {
        assert(body =~= s@.subrange(i as int, n as int));
    }
    if i >= n {
        return 1;
    }
    let mut acc: u32 = 0;
    let mut j: usize = i;
    while j < n
        invariant
            i <= j <= n,
            i < n,
            n == s@.len(),
            body == int_body(s@),
            body =~= s@.subrange(i as int, n as int),
            all_decimal_digits(s@.subrange(i as int, j as int)),
            acc <= u8::MAX ==> acc == digits_value(s@.subrange(i as int, j as int)),
            acc > u8::MAX ==> digits_value(s@.subrange(i as int, j as int)) > u8::MAX,
            acc <= 2559,
        decreases n - j,
    {
        let c = s.get_char(j);
        let u = c as u32;
        if u < '0' as u32 || u > '9' as u32 {
            proof {
                assert(!is_decimal_digit(c));
                assert(body[j - i] == s@[j as int]);
                assert(!all_decimal_digits(body));
            }
            return 1;
        }
        let ghost seen = s@.subrange(i as int, j as int);
        proof {
            assert(is_decimal_digit(s@[j as int]));
            assert(s@.subrange(i as int, j + 1 as int) =~= seen.push(s@[j as int]));
            lemma_digits_value_push(seen, s@[j as int]);
        }
        if acc > u8::MAX as u32 {
            // already out of range, and a further digit keeps it so;
            // keep checking that the rest are digits
        } else {
            acc = acc * 10 + (u - '0' as u32);
        }
        j = j + 1;
    }
    proof {
        assert(s@.subrange(i as int, n as int) =~= body);
        assert(body.len() > 0);
    }
    if acc <= u8::MAX as u32 {
        acc as u8
    } else {
        1
    }
}

/// The segments of `s` split on `sep`: always one more segment than there
/// are separators, so the empty text has one empty segment.
pub open spec fn split_on(s: Seq<char>, sep: char) -> Seq<Seq<char>>
    decreases s.len(),
{
    if s.len() == 0 {
        seq![Seq::<char>::empty()]
    } else if s[0] == sep {
        seq![Seq::<char>::empty()] + split_on(s.drop_first(), sep)
    } else {
        let rest = split_on(s.drop_first(), sep);
        seq![seq![s[0]] + rest[0]] + rest.drop_first()
    }
}

/// Splitting always yields at least one segment.
pub proof fn lemma_split_on_len(s: Seq<char>, sep: char)
    ensures
        split_on(s, sep).len() >= 1,
    decreases s.len(),
{
    if s.len() != 0 {
        lemma_split_on_len(s.drop_first(), sep);
    }
}

/// A separator-free prefix of length `k` belongs wholly to the first
/// segment: if `s[k]` is the first separator, the split is that prefix
/// followed by the split of what comes after the separator; if there is no
/// separator at all, the split is `s` alone.
pub proof fn lemma_split_on_prefix(s: Seq<char>, sep: char, k: int)
    requires
        0 <= k <= s.len(),
        forall|i: int| 0 <= i < k ==> s[i] != sep,
        k < s.len() ==> s[k] == sep,
    ensures
        k < s.len() ==> split_on(s, sep) == seq![s.subrange(0, k)] + split_on(
            s.subrange(k + 1, s.len() as int),
            sep,
        ),
        k == s.len() ==> split_on(s, sep) == seq![s],
    decreases s.len(),
{
    lemma_split_on_len(s, sep);
    if s.len() == 0 {
        assert(s =~= Seq::<char>::empty());
    } else if k == 0 {
        if k < s.len() {
            assert(s.subrange(0, 0) =~= Seq::<char>::empty());
            assert(s.subrange(1, s.len() as int) =~= s.drop_first());
            assert(split_on(s, sep) =~= seq![s.subrange(0, k)] + split_on(
                s.subrange(k + 1, s.len() as int),
                sep,
            ));
        }
    } else {
        let t = s.drop_first();
        lemma_split_on_prefix(t, sep, k - 1);
        lemma_split_on_len(t, sep);
        if k < s.len() {
            assert(t.subrange(0, k - 1) =~= s.subrange(1, k));
            assert(t.subrange(k, t.len() as int) =~= s.subrange(k + 1, s.len() as int));
            let rest = split_on(t, sep);
            assert(rest[0] == s.subrange(1, k));
            assert(seq![s[0]] + s.subrange(1, k) =~= s.subrange(0, k));
            assert(rest.drop_first() =~= split_on(s.subrange(k + 1, s.len() as int), sep));
            assert(split_on(s, sep) =~= seq![s.subrange(0, k)] + split_on(
                s.subrange(k + 1, s.len() as int),
                sep,
            ));
        } else {
            assert(t.subrange(0, k - 1) =~= t);
            let rest = split_on(t, sep);
            assert(rest[0] == t);
            assert(seq![s[0]] + t =~= s);
            assert(rest.drop_first() =~= Seq::<Seq<char>>::empty());
            assert(split_on(s, sep) =~= seq![s]);
        }
    }
}

/// Split `s` on the separator, as a path-list environment variable is read.
pub fn split_paths(s: &str, sep: char) -> (parts: Vec<String>)
    ensures
        seq_views(parts@) == split_on(s@, sep),
{
    let n = s.unicode_len();
    let mut parts: Vec<String> = Vec::new();
    let mut start: usize = 0;
    let mut j: usize = 0;
    proof {
        assert(s@.subrange(0, n as int) =~= s@);
        assert(seq_views(parts@) =~= Seq::<Seq<char>>::empty());
        assert(split_on(s@, sep) =~= seq_views(parts@) + split_on(
            s@.subrange(0, n as int),
            sep,
        ));
    }
    while j < n
        invariant
            start <= j <= n,
            n == s@.len(),
            forall|i: int| start <= i < j ==> s@[i] != sep,
            split_on(s@, sep) == seq_views(parts@) + split_on(
                s@.subrange(start as int, n as int),
                sep,
            ),
        decreases n - j,
    {
        if s.get_char(j) == sep {
            let ghost tail = s@.subrange(start as int, n as int);
            let segment = String::from_str(s.substring_char(start, j));
            proof {
                assert(forall|i: int|
                    0 <= i < j - start ==> tail[i] == s@[start + i] && tail[i] != sep);
                assert(tail[j - start] == sep);
                lemma_split_on_prefix(tail, sep, j - start);
                assert(tail.subrange(0, j - start) =~= s@.subrange(start as int, j as int));
                assert(tail.subrange(j - start + 1, tail.len() as int) =~= s@.subrange(
                    j + 1 as int,
                    n as int,
                ));
            }
            parts.push(segment);
            proof {
                assert(seq_views(parts@) =~= seq_views(parts@.drop_last()) + seq![s@.subrange(
                    start as int,
                    j as int,
                )]);
                assert(split_on(s@, sep) =~= seq_views(parts@) + split_on(
                    s@.subrange(j + 1 as int, n as int),
                    sep,
                ));
            }
            start = j + 1;
        }
        j = j + 1;
    }
    let ghost tail = s@.subrange(start as int, n as int);
    let last = String::from_str(s.substring_char(start, n));
    proof {
        assert(forall|i: int| 0 <= i < tail.len() ==> tail[i] == s@[start + i] && tail[i] != sep);
        lemma_split_on_prefix(tail, sep, tail.len() as int);
    }
    parts.push(last);
    proof {
        assert(seq_views(parts@) =~= seq_views(parts@.drop_last()) + seq![tail]);
        assert(seq_views(parts@) =~= split_on(s@, sep));
    }
    parts
}

/// What a boolean flag resolves to: the command-line flag, or else the
/// presence of its environment variable unless the environment is ignored.
pub open spec fn resolved_bool(cli_flag: bool, env_set: bool, ignore_env: bool) -> bool {
    cli_flag || (!ignore_env && env_set)
}

/// What a level (optimize, verbose) resolves to: the command-line repetition
/// count if any, or else the tolerant parse of its environment variable
/// unless the environment is ignored, or else 0.
pub open spec fn resolved_level(count: u8, env_value: Option<String>, ignore_env: bool) -> u8 {
    if count > 0 {
        count
    } else if !ignore_env && env_value is Some {
        tolerant_env_int(env_value->0@)
    } else {
        0
    }
}

/// The path entries the environment contributes: the runtime-specific
/// variable's segments, then the general variable's, each split on the
/// platform separator.
pub open spec fn env_path_entries(env: EnvSnapshot) -> Seq<Seq<char>> {
    (match env.runtime_path {
        Some(p) => split_on(p@, env.path_separator),
        None => Seq::<Seq<char>>::empty(),
    }) + (match env.general_path {
        Some(p) => split_on(p@, env.path_separator),
        None => Seq::<Seq<char>>::empty(),
    })
}

/// The resolved module search path: the empty entry (current directory)
/// first, then, unless the environment is ignored, the environment's
/// entries.
pub open spec fn path_list_spec(cli: CliArgs, env: EnvSnapshot) -> Seq<Seq<char>> {
    if cli.ignore_environment {
        seq![Seq::<char>::empty()]
    } else {
        seq![Seq::<char>::empty()] + env_path_entries(env)
    }
}

/// The resolved argument vector, keyed to the selected execution source in
/// its order of precedence: for a command, the command-flag token then the
/// trailing arguments; for a module, a placeholder then the trailing
/// arguments; for a script, the positional values as given; otherwise empty.
pub open spec fn argv_spec(cli: CliArgs) -> Seq<Seq<char>> {
    if cli.command is Some {
        seq!["-c"@] + seq_views(cli.command->0@).drop_first()
    } else if cli.module is Some {
        seq!["PLACEHOLDER"@] + seq_views(cli.module->0@).drop_first()
    } else if cli.script is Some {
        seq_views(cli.script->0@)
    } else {
        Seq::<Seq<char>>::empty()
    }
}

/// The values of `v` from index `from` on, cloned.
fn string_vec_tail_from(v: &Vec<String>, from: usize) -> (t: Vec<String>)
    requires
        from <= v@.len(),
    ensures
        seq_views(t@) == seq_views(v@).subrange(from as int, v@.len() as int),
{
    let mut t: Vec<String> = Vec::new();
    let mut k: usize = from;
    while k < v.len()
        invariant
            from <= k <= v@.len(),
            seq_views(t@) =~= seq_views(v@).subrange(from as int, k as int),
        decreases v@.len() - k,
    {
        let ghost before = t@;
        t.push(v[k].clone());
        proof {
            assert(t@.drop_last() =~= before);
            assert(seq_views(t@) =~= seq_views(before).push(v@[k as int]@));
            assert(seq_views(v@).subrange(from as int, k + 1 as int) =~= seq_views(v@).subrange(
                from as int,
                k as int,
            ).push(v@[k as int]@));
            assert(seq_views(t@) =~= seq_views(v@).subrange(from as int, k + 1 as int));
        }
        k = k + 1;
    }
    proof {
        assert(seq_views(t@) =~= seq_views(v@).subrange(from as int, v@.len() as int));
    }
    t
}

/// Resolve the whole configuration from the command line and the
/// environment snapshot. Every command-line flag wins over its environment
/// variable; with `ignore_environment` no environment variable is read at
/// all.
pub fn create_settings(cli: &CliArgs, env: &EnvSnapshot) -> (s: Settings)
    requires
        cli.wf(),
    ensures
        s.ignore_environment == cli.ignore_environment,
        seq_views(s.path_list@) == path_list_spec(*cli, *env),
        s.debug == resolved_bool(cli.debug, env.debug_set, cli.ignore_environment),
        s.inspect == resolved_bool(cli.inspect, env.inspect_set, cli.ignore_environment),
        s.no_user_site == resolved_bool(
            cli.no_user_site,
            env.no_user_site_set,
            cli.ignore_environment,
        ),
        s.dont_write_bytecode == resolved_bool(
            cli.dont_write_bytecode,
            env.dont_write_bytecode_set,
            cli.ignore_environment,
        ),
        s.no_site == cli.no_site,
        s.quiet == cli.quiet,
        s.optimize == resolved_level(cli.optimize, env.optimize, cli.ignore_environment),
        s.verbose == resolved_level(cli.verbose, env.verbose, cli.ignore_environment),
        seq_views(s.argv@) == argv_spec(*cli),
{
    let mut path_list: Vec<String> = Vec::new();
    path_list.push(String::from_str(""));
    proof {
        reveal_strlit("");
        assert(""@ =~= Seq::<char>::empty());
        assert(seq_views(path_list@) =~= seq![Seq::<char>::empty()]);
    }
    if !cli.ignore_environment {
        match &env.runtime_path {
            Some(p) => {
                let mut entries = split_paths(p.as_str(), env.path_separator);
                let ghost before = path_list@;
                path_list.append(&mut entries);
                proof {
                    assert(seq_views(path_list@) =~= seq_views(before) + split_on(
                        p@,
                        env.path_separator,
                    ));
                }
            },
            None => {},
        }
        match &env.general_path {
            Some(p) => {
                let mut entries = split_paths(p.as_str(), env.path_separator);
                let ghost before = path_list@;
                path_list.append(&mut entries);
                proof {
                    assert(seq_views(path_list@) =~= seq_views(before) + split_on(
                        p@,
                        env.path_separator,
                    ));
                }
            },
            None => {},
        }
        proof {
            assert(seq_views(path_list@) =~= path_list_spec(*cli, *env));
        }
    }
    let optimize: u8 = if cli.optimize > 0 {
        cli.optimize
    } else if !cli.ignore_environment {
        match &env.optimize {
            Some(v) => env_int_value(v.as_str()),
            None => 0,
        }
    } else {
        0
    };
    let verbose: u8 = if cli.verbose > 0 {
        cli.verbose
    } else if !cli.ignore_environment {
        match &env.verbose {
            Some(v) => env_int_value(v.as_str()),
            None => 0,
        }
    } else {
        0
    };
    let argv: Vec<String> = if let Some(vals) = &cli.command {
        let mut a: Vec<String> = Vec::new();
        a.push(String::from_str("-c"));
        let mut tail = string_vec_tail_from(vals, 1);
        a.append(&mut tail);
        proof {
            assert(seq_views(vals@).subrange(1, vals@.len() as int) =~= seq_views(
                vals@,
            ).drop_first());
            assert(seq_views(a@) =~= seq!["-c"@] + seq_views(vals@).drop_first());
        }
        a
    } else if let Some(vals) = &cli.module {
        let mut a: Vec<String> = Vec::new();
        a.push(String::from_str("PLACEHOLDER"));
        let mut tail = string_vec_tail_from(vals, 1);
        a.append(&mut tail);
        proof {
            assert(seq_views(vals@).subrange(1, vals@.len() as int) =~= seq_views(
                vals@,
            ).drop_first());
            assert(seq_views(a@) =~= seq!["PLACEHOLDER"@] + seq_views(vals@).drop_first());
        }
        a
    } else if let Some(vals) = &cli.script {
        let a = string_vec_tail_from(vals, 0);
        proof {
            assert(seq_views(vals@).subrange(0, vals@.len() as int) =~= seq_views(vals@));
        }
        a
    } else {
        let a: Vec<String> = Vec::new();
        proof {
            assert(seq_views(a@) =~= Seq::<Seq<char>>::empty());
        }
        a
    };
    Settings {
        ignore_environment: cli.ignore_environment,
        path_list,
        debug: cli.debug || (!cli.ignore_environment && env.debug_set),
        inspect: cli.inspect || (!cli.ignore_environment && env.inspect_set),
        no_site: cli.no_site,
        no_user_site: cli.no_user_site || (!cli.ignore_environment && env.no_user_site_set),
        quiet: cli.quiet,
        dont_write_bytecode: cli.dont_write_bytecode || (!cli.ignore_environment
            && env.dont_write_bytecode_set),
        optimize,
        verbose,
        argv,
    }
}

/// A present command-line boolean flag resolves to true and shadows the
/// environment entirely: any two environment states resolve alike.
pub proof fn lemma_cli_bool_overrides_env(cli_flag: bool, env_a: bool, env_b: bool, ignore: bool)
    requires
        cli_flag,
    ensures
        resolved_bool(cli_flag, env_a, ignore),
        resolved_bool(cli_flag, env_a, ignore) == resolved_bool(cli_flag, env_b, ignore),
{
}

/// A repeated command-line level flag resolves to its repetition count and
/// shadows the environment entirely: any two environment states resolve
/// alike.
pub proof fn lemma_cli_level_overrides_env(
    count: u8,
    env_a: Option<String>,
    env_b: Option<String>,
    ignore: bool,
)
    requires
        count > 0,
    ensures
        resolved_level(count, env_a, ignore) == count,
        resolved_level(count, env_a, ignore) == resolved_level(count, env_b, ignore),
{
}

/// A malformed integer environment value resolves to exactly 1, never an
/// error.
pub proof fn lemma_malformed_env_int_is_one(s: Seq<char>)
    requires
        !is_level_numeral(s),
    ensures
        tolerant_env_int(s) == 1,
{
}

/// The resolved path list always begins with the empty entry, and with the
/// environment ignored it holds nothing else, whatever the environment.
pub proof fn lemma_path_list_shape(cli: CliArgs, env: EnvSnapshot)
    ensures
        path_list_spec(cli, env).len() >= 1,
        path_list_spec(cli, env)[0] == Seq::<char>::empty(),
        cli.ignore_environment ==> path_list_spec(cli, env) == seq![Seq::<char>::empty()],
{
}

} // verus!
