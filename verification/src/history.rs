//! Session history: an append-only ordered sequence of lines, persisted as
//! a plain newline-delimited text file at a per-user configuration location.
//! Loaded once at session start (best effort), saved once at session end.

use vstd::prelude::*;
use crate::settings::{seq_views, split_on, lemma_split_on_len, lemma_split_on_prefix};

verus! {

/// Trailing whitespace trimmed off history entries: the Unicode
/// white-space characters.
pub open spec fn is_trailing_space(c: char) -> bool {
    ||| c == ' '
    ||| c == '\t'
    ||| c == '\n'
    ||| c == '\r'
    ||| c == '\u{000B}'
    ||| c == '\u{000C}'
    ||| c == '\u{0085}'
    ||| c == '\u{00A0}'
    ||| c == '\u{1680}'
    ||| ('\u{2000}' as int <= c as int && c as int <= '\u{200A}' as int)
    ||| c == '\u{2028}'
    ||| c == '\u{2029}'
    ||| c == '\u{202F}'
    ||| c == '\u{205F}'
    ||| c == '\u{3000}'
}

/// Whether `c` is trimmed off a stored entry's end.
fn space_char(c: char) -> (r: bool)
    ensures
        r == is_trailing_space(c),
{
    let u = c as u32;
    c == ' ' || c == '\t' || c == '\n' || c == '\r' || c == '\u{000B}' || c == '\u{000C}'
        || c == '\u{0085}' || c == '\u{00A0}' || c == '\u{1680}' || (u >= '\u{2000}' as u32 && u
        <= '\u{200A}' as u32) || c == '\u{2028}' || c == '\u{2029}' || c == '\u{202F}' || c
        == '\u{205F}' || c == '\u{3000}'
}

/// `s` without its trailing whitespace.
pub open spec fn trim_trailing(s: Seq<char>) -> Seq<char>
    decreases s.len(),
{
    if s.len() > 0 && is_trailing_space(s.last()) {
        trim_trailing(s.drop_last())
    } else {
        s
    }
}

/// A line that fits on one line of the history file.
pub open spec fn single_line(l: Seq<char>) -> bool {
    forall|j: int| 0 <= j < l.len() ==> l[j] != '\n'
}

/// The history file's text: each entry followed by a newline.
pub open spec fn render_lines(lines: Seq<Seq<char>>) -> Seq<char>
    decreases lines.len(),
{
    if lines.len() == 0 {
        Seq::<char>::empty()
    } else {
        lines.first() + seq!['\n'] + render_lines(lines.drop_first())
    }
}

/// The entries a history file's text holds: its newline-separated segments,
/// without the empty segment a trailing newline leaves.
pub open spec fn parse_lines(text: Seq<char>) -> Seq<Seq<char>> {
    if text.len() == 0 {
        Seq::<Seq<char>>::empty()
    } else {
        let parts = split_on(text, '\n');
        if parts.last().len() == 0 {
            parts.drop_last()
        } else {
            parts
        }
    }
}

/// `line` with trailing whitespace removed, as an entry is stored.
pub fn trimmed_end(line: &str) -> (t: String)
    ensures
        t@ == trim_trailing(line@),
{
    let n = line.unicode_len();
    let mut j: usize = n;
    let mut found = false;
    proof {
        assert(line@.subrange(0, n as int) =~= line@);
    }
    while !found && j > 0
        invariant
            j <= n,
            n == line@.len(),
            trim_trailing(line@) == trim_trailing(line@.subrange(0, j as int)),
            found ==> j > 0 && !is_trailing_space(line@[j - 1]),
        decreases j + if found { 0int } else { 1int },
    {
        let c = line.get_char(j - 1);
        if space_char(c) {
            proof {
                assert(line@.subrange(0, j as int).last() == line@[j - 1]);
                assert(line@.subrange(0, j as int).drop_last() =~= line@.subrange(0, j - 1 as int));
            }
            j = j - 1;
        } else {
            found = true;
        }
    }
    proof {
        if !found {
            assert(line@.subrange(0, 0) =~= Seq::<char>::empty());
        } else {
            assert(line@.subrange(0, j as int).last() == line@[j - 1]);
        }
    }
    String::from_str(line.substring_char(0, j))
}

/// The session's history: entries in the order they were read.
pub struct ReplHistory {
    pub entries: Vec<String>,
}

impl ReplHistory {
    /// A session's history starts from what the history file held; a fresh
    /// one is empty.
    pub fn new() -> (h: ReplHistory)
        ensures
            seq_views(h.entries@) == Seq::<Seq<char>>::empty(),
    {
        let h = ReplHistory { entries: Vec::new() };
        proof {
            assert(seq_views(h.entries@) =~= Seq::<Seq<char>>::empty());
        }
        h
    }

    /// Append one read line, its trailing whitespace trimmed, whatever the
    /// iteration's outcome.
    pub fn add_entry(&mut self, line: &str)
        ensures
            seq_views(final(self).entries@) == seq_views(old(self).entries@).push(
                trim_trailing(line@),
            ),
    {
        let t = trimmed_end(line);
        let ghost before = self.entries@;
        self.entries.push(t);
        proof {
            assert(self.entries@.drop_last() =~= before);
            assert(seq_views(self.entries@) =~= seq_views(before).push(trim_trailing(line@)));
        }
    }

    /// The text written to the history file: every entry, each on its own
    /// line.
    pub fn render(&self) -> (text: String)
        ensures
            text@ == render_lines(seq_views(self.entries@)),
    {
        let mut text = String::new();
        let mut i: usize = 0;
        proof {
            assert(seq_views(self.entries@).subrange(0, 0) =~= Seq::<Seq<char>>::empty());
        }
        while i < self.entries.len()
            invariant
                i <= self.entries@.len(),
                text@ == render_lines(seq_views(self.entries@).subrange(0, i as int)),
            decreases self.entries@.len() - i,
        {
            let ghost lines = seq_views(self.entries@);
            text.append(self.entries[i].as_str());
            text.append("\n");
            proof {
                reveal_strlit("\n");
                assert("\n"@ =~= seq!['\n']);
                lemma_render_snoc(lines.subrange(0, i as int), lines[i as int]);
                assert(lines.subrange(0, i + 1 as int) =~= lines.subrange(0, i as int).push(
                    lines[i as int],
                ));
                assert(text@ =~= render_lines(lines.subrange(0, i + 1 as int)));
            }
            i = i + 1;
        }
        proof {
            assert(seq_views(self.entries@).subrange(0, self.entries@.len() as int) =~= seq_views(
                self.entries@,
            ));
        }
        text
    }

    /// The entries a loaded history file holds.
    pub fn parse(text: &str) -> (h: ReplHistory)
        ensures
            seq_views(h.entries@) == parse_lines(text@),
    {
        if text.unicode_len() == 0 {
            ReplHistory::new()
        } else {
            let mut entries = crate::settings::split_paths(text, '\n');
            proof {
                lemma_split_on_len(text@, '\n');
                assert(seq_views(entries@).last() == entries@.last()@);
            }
            let last_empty = entries[entries.len() - 1].as_str().unicode_len() == 0;
            if last_empty {
                let ghost before = entries@;
                entries.pop();
                proof {
                    assert(entries@ =~= before.drop_last());
                    assert(seq_views(entries@) =~= seq_views(before).drop_last());
                }
            }
            ReplHistory { entries }
        }
    }
}

proof fn lemma_render_snoc(lines: Seq<Seq<char>>, x: Seq<char>)
    ensures
        render_lines(lines.push(x)) == render_lines(lines) + x + seq!['\n'],
    decreases lines.len(),
{
    if lines.len() == 0 {
        assert(lines.push(x).first() == x);
        assert(lines.push(x).drop_first() =~= Seq::<Seq<char>>::empty());
        assert(render_lines(lines.push(x).drop_first()) =~= Seq::<char>::empty());
        assert(render_lines(lines) =~= Seq::<char>::empty());
        assert(render_lines(lines.push(x)) =~= render_lines(lines) + x + seq!['\n']);
    } else {
        assert(lines.push(x).first() == lines.first());
        assert(lines.push(x).drop_first() =~= lines.drop_first().push(x));
        lemma_render_snoc(lines.drop_first(), x);
        assert(render_lines(lines.push(x)) =~= render_lines(lines) + x + seq!['\n']);
    }
}

proof fn lemma_split_render(lines: Seq<Seq<char>>)
    requires
        forall|i: int| 0 <= i < lines.len() ==> single_line(#[trigger] lines[i]),
    ensures
        split_on(render_lines(lines), '\n') == lines.push(Seq::<char>::empty()),
    decreases lines.len(),
{
    if lines.len() == 0 {
        assert(split_on(render_lines(lines), '\n') =~= lines.push(Seq::<char>::empty()));
    } else {
        let first = lines.first();
        let rest = render_lines(lines.drop_first());
        let text = render_lines(lines);
        assert(text == first + seq!['\n'] + rest);
        assert(forall|i: int| 0 <= i < first.len() ==> text[i] == first[i] && text[i] != '\n');
        assert(text[first.len() as int] == '\n');
        lemma_split_on_prefix(text, '\n', first.len() as int);
        assert(text.subrange(0, first.len() as int) =~= first);
        assert(text.subrange(first.len() as int + 1, text.len() as int) =~= rest);
        lemma_split_render(lines.drop_first());
        assert(split_on(text, '\n') =~= lines.push(Seq::<char>::empty()));
    }
}

/// Lines written out and loaded back come back exactly, in order: rendering
/// a history and parsing the text returns the same entries, as long as each
/// entry is a single line (which trimming guarantees of read lines).
pub proof fn lemma_history_round_trip(lines: Seq<Seq<char>>)
    requires
        forall|i: int| 0 <= i < lines.len() ==> single_line(#[trigger] lines[i]),
    ensures
        parse_lines(render_lines(lines)) == lines,
{
    lemma_split_render(lines);
    if lines.len() == 0 {
        assert(parse_lines(render_lines(lines)) =~= lines);
    } else {
        let text = render_lines(lines);
        assert(text.len() > 0);
        let parts = split_on(text, '\n');
        assert(parts.last() == Seq::<char>::empty());
        assert(parts.drop_last() =~= lines);
    }
}

/// The history file's location: the per-user configuration directory when
/// the platform names one, else a dotfile in the current directory.
pub open spec fn history_path_spec(config_dir: Option<String>) -> Seq<char> {
    match config_dir {
        Some(d) => d@ + "/rustpython/repl_history.txt"@,
        None => ".repl_history.txt"@,
    }
}

/// Place the history file under the given configuration directory, or fall
/// back to the current directory.
pub fn history_file_path(config_dir: Option<String>) -> (p: String)
    ensures
        p@ == history_path_spec(config_dir),
{
    match config_dir {
        Some(d) => {
            let mut p = d;
            p.append("/rustpython/repl_history.txt");
            p
        },
        None => String::from_str(".repl_history.txt"),
    }
}

/// Relies on dirs::config_dir: the platform's per-user configuration
/// directory, if it names one that decodes to text.
#[verifier::external_body]
fn config_dir_text() -> (d: Option<String>) {
    dirs::config_dir().and_then(|p| p.into_os_string().into_string().ok())
}

/// Where this machine's sessions persist their history.
pub fn default_history_path() -> (p: String)
    ensures
        p@ == ".repl_history.txt"@ || exists|d: Seq<char>|
            p@ == d + "/rustpython/repl_history.txt"@,
{
    let dir = config_dir_text();
    let ghost gd = dir;
    let p = history_file_path(dir);
    proof {
        if gd is Some {
            assert(p@ == gd->0@ + "/rustpython/repl_history.txt"@);
        }
    }
    p
}

} // verus!
