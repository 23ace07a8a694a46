//! Shell completion: candidate filtering, the `dc go` shell wrapper, and
//! parsing of the compose completer's output.

use vstd::prelude::*;

use crate::errors::Error;
use crate::strutil::{concat_str, has_prefix, spec_has_prefix, spec_lines, split_lines, str_eq};

verus! {

/// Whether a candidate completes the prefix: it extends it strictly.
pub fn is_completion_candidate(prefix: &str, candidate: &str) -> (r: bool)
    ensures
        r == (spec_has_prefix(candidate@, prefix@) && candidate@ != prefix@),
{
    has_prefix(candidate, prefix) && !str_eq(candidate, prefix)
}

/// The names that strictly extend the prefix, in order.
pub open spec fn spec_candidates(names: Seq<Seq<char>>, prefix: Seq<char>) -> Seq<Seq<char>>
    decreases names.len(),
{
    if names.len() == 0 {
        Seq::empty()
    } else {
        let rest = spec_candidates(names.drop_last(), prefix);
        if spec_has_prefix(names.last(), prefix) && names.last() != prefix {
            rest.push(names.last())
        } else {
            rest
        }
    }
}

/// Keep the names that strictly extend the prefix.
#[verifier::loop_isolation(false)]
pub fn filter_candidates(names: &Vec<String>, prefix: &str) -> (r: Vec<String>)
    ensures
        r.deep_view() == spec_candidates(names.deep_view(), prefix@),
{
    let mut out: Vec<String> = Vec::new();
    let mut i: usize = 0;
    while i < names.len()
        invariant
            0 <= i <= names@.len(),
            out.deep_view() == spec_candidates(names.deep_view().take(i as int), prefix@),
        decreases names@.len() - i,
    {
        proof {
            assert(names.deep_view().take(i + 1).drop_last() =~= names.deep_view().take(i as int));
            assert(names.deep_view().take(i + 1).last() == names.deep_view()[i as int]);
        }
        if is_completion_candidate(prefix, names[i].as_str()) {
            let ghost old_dv = out.deep_view();
            out.push(names[i].clone());
            proof {
                assert(out.deep_view() =~= old_dv.push(names@[i as int]@));
            }
        }
        i += 1;
    }
    proof {
        assert(names.deep_view().take(names@.len() as int) =~= names.deep_view());
    }
    out
}

/// What `shlex::try_quote` returns: a function of the input text alone.
pub uninterp spec fn quoted_of(s: Seq<char>) -> Seq<char>;

/// Whether the text holds a nul character.
pub open spec fn has_nul(s: Seq<char>) -> bool {
    exists|i: int| 0 <= i < s.len() && s[i] == '\u{0}'
}

/// Relies on `shlex::try_quote` with default settings: the result encodes
/// the text as one shell word and depends on the text alone; the only
/// error is for a text holding a nul character.
#[verifier::external_body]
pub fn try_quote(s: &str) -> (r: Result<String, Error>)
    ensures
        r matches Ok(q) ==> q@ == quoted_of(s@) && !has_nul(s@),
        r matches Err(e) ==> has_nul(s@) && e matches Error::Msg(_),
{
    match shlex::try_quote(s) {
        Ok(q) => Ok(q.into_owned()),
        Err(_) => Err(Error::Msg(String::from("cannot shell-quote a string with a nul byte"))),
    }
}

/// The wrapper function for POSIX-style shells: intercepts `dc go` and
/// `eval`s its output so the `cd` takes effect in the calling shell.
pub open spec fn spec_posix_wrapper(quoted: Seq<char>) -> Seq<char> {
    "\ndc() {\n    if [ \"$1\" = \"go\" ]; then\n        local result\n        result=\"$("@
        + quoted + " \"$@\")\" && eval \"$result\"\n    else\n        "@ + quoted
        + " \"$@\"\n    fi\n}\n"@
}

/// The wrapper function for fish.
pub open spec fn spec_fish_wrapper(quoted: Seq<char>) -> Seq<char> {
    "\nfunction dc --wraps "@ + quoted
        + "\n    if test \"$argv[1]\" = \"go\"\n        set -l result ("@ + quoted
        + " $argv)\n        and eval \"$result\"\n    else\n        "@ + quoted
        + " $argv\n    end\nend\n"@
}

/// The shells a wrapper function exists for.
#[derive(Debug, Clone, Copy, PartialEq, Eq, Structural)]
pub enum ShellKind {
    Bash,
    Zsh,
    Fish,
}

/// The `dc` wrapper function for a shell: the binary shell-quoted and
/// spliced into the shell's own syntax. Fails only when the binary path
/// cannot be shell-quoted (it holds a nul character).
pub fn shell_function(shell: ShellKind, binary: &str) -> (r: Result<String, Error>)
    ensures
        match r {
            Result::Ok(f) => !has_nul(binary@) && (match shell {
                ShellKind::Bash | ShellKind::Zsh => f@ == spec_posix_wrapper(quoted_of(binary@)),
                ShellKind::Fish => f@ == spec_fish_wrapper(quoted_of(binary@)),
            }),
            Result::Err(e) => has_nul(binary@) && e matches Error::Msg(_),
        },
{
    let quoted = match try_quote(binary) {
        Result::Ok(q) => q,
        Result::Err(e) => { return Result::Err(e) },
    };
    match shell {
        ShellKind::Bash | ShellKind::Zsh => {
            let mut f = String::from_str(
                "\ndc() {\n    if [ \"$1\" = \"go\" ]; then\n        local result\n        result=\"$(",
            );
            f.append(quoted.as_str());
            f.append(" \"$@\")\" && eval \"$result\"\n    else\n        ");
            f.append(quoted.as_str());
            f.append(" \"$@\"\n    fi\n}\n");
            proof {
                assert(f@ =~= spec_posix_wrapper(quoted_of(binary@)));
            }
            Result::Ok(f)
        },
        ShellKind::Fish => {
            let mut f = String::from_str("\nfunction dc --wraps ");
            f.append(quoted.as_str());
            f.append("\n    if test \"$argv[1]\" = \"go\"\n        set -l result (");
            f.append(quoted.as_str());
            f.append(" $argv)\n        and eval \"$result\"\n    else\n        ");
            f.append(quoted.as_str());
            f.append(" $argv\n    end\nend\n");
            proof {
                assert(f@ =~= spec_fish_wrapper(quoted_of(binary@)));
            }
            Result::Ok(f)
        },
    }
}

/// Index of the first tab in a line, or `-1`.
pub open spec fn first_tab(s: Seq<char>) -> int
    decreases s.len(),
{
    if s.len() == 0 {
        -1
    } else if s[0] == '\t' {
        0
    } else {
        let r = first_tab(s.drop_first());
        if r == -1 {
            -1
        } else {
            r + 1
        }
    }
}

proof fn lemma_first_tab(s: Seq<char>)
    ensures
        -1 <= first_tab(s) < s.len(),
        first_tab(s) == -1 ==> forall|j: int| 0 <= j < s.len() ==> s[j] != '\t',
        first_tab(s) >= 0 ==> s[first_tab(s)] == '\t' && forall|j: int|
            0 <= j < first_tab(s) ==> s[j] != '\t',
    decreases s.len(),
{
    if s.len() > 0 && s[0] != '\t' {
        lemma_first_tab(s.drop_first());
        assert(forall|j: int| 1 <= j < s.len() ==> s[j] == s.drop_first()[j - 1]);
    }
}

/// One completion candidate parsed from a completer's output line: the
/// value before the first tab and the help text after it; a line without a
/// tab is all value, with empty help.
pub open spec fn spec_completion_of_line(line: Seq<char>) -> (Seq<char>, Seq<char>) {
    let j = first_tab(line);
    if 0 <= j < line.len() {
        (line.subrange(0, j), line.subrange(j + 1, line.len() as int))
    } else {
        (line, Seq::empty())
    }
}

/// The candidates in a completer's output: one per line, stopping at the
/// first line that starts with `:` (the completer's directive trailer).
pub open spec fn spec_completions(lines: Seq<Seq<char>>) -> Seq<(Seq<char>, Seq<char>)>
    decreases lines.len(),
{
    if lines.len() == 0 {
        Seq::empty()
    } else if spec_has_prefix(lines.first(), ":"@) {
        Seq::empty()
    } else {
        seq![spec_completion_of_line(lines.first())] + spec_completions(lines.drop_first())
    }
}

/// Parse a cobra-style completer's output into `(value, help)` pairs: one
/// line each, value and help separated by a tab, stopping at the first
/// directive line (one starting with `:`).
#[verifier::loop_isolation(false)]
pub fn parse_completions(output: &str) -> (r: Vec<(String, String)>)
    ensures
        r.deep_view() == spec_completions(spec_lines(output@)),
{
    let lines = split_lines(output);
    let ghost ldv = lines.deep_view();
    let mut out: Vec<(String, String)> = Vec::new();
    let mut i: usize = 0;
    proof {
        assert(ldv.skip(0) =~= ldv);
    }
    while i < lines.len()
        invariant
            0 <= i <= ldv.len(),
            lines.deep_view() == ldv,
            forall|k: int| 0 <= k < i ==> !spec_has_prefix(#[trigger] ldv[k], ":"@),
            spec_completions(ldv) == out.deep_view() + spec_completions(ldv.skip(i as int)),
        decreases ldv.len() - i,
    {
        let line = &lines[i];
        if has_prefix(line.as_str(), ":") {
            proof {
                assert(spec_completions(ldv.skip(i as int)) =~= Seq::<(
                    Seq<char>,
                    Seq<char>,
                )>::empty());
                assert(out.deep_view() + Seq::<(Seq<char>, Seq<char>)>::empty() =~= out.deep_view());
            }
            return out;
        }
        proof {
            lemma_first_tab(line@);
        }
        let llen = line.as_str().unicode_len();
        let mut tab: usize = 0;
        let mut found = false;
        let mut t: usize = 0;
        while t < llen
            invariant
                0 <= t <= llen,
                llen == line@.len(),
                !found ==> forall|k: int| 0 <= k < t ==> line@[k] != '\t',
                found ==> 0 <= tab < t && line@[tab as int] == '\t' && forall|k: int|
                    0 <= k < tab ==> line@[k] != '\t',
            decreases llen - t,
        {
            if !found && line.as_str().get_char(t) == '\t' {
                tab = t;
                found = true;
            }
            t += 1;
        }
        let pair = if found {
            proof {
                let j = first_tab(line@);
                if j < tab {
                    assert(line@[j] != '\t');
                }
                if j > tab as int {
                    assert(line@[tab as int] != '\t');
                }
                assert(j == tab as int);
            }
            let value = line.as_str().substring_char(0, tab);
            let help = line.as_str().substring_char(tab + 1, llen);
            (String::from_str(value), String::from_str(help))
        } else {
            proof {
                let j = first_tab(line@);
                if j >= 0 {
                    assert(line@[j] != '\t');
                }
                assert(j == -1);
            }
            (line.clone(), String::new())
        };
        let ghost old_dv = out.deep_view();
        let ghost pv = (pair.0@, pair.1@);
        proof {
            assert(pv == spec_completion_of_line(ldv[i as int]));
        }
        out.push(pair);
        proof {
            assert(out.deep_view() =~= old_dv.push(pv));
            assert(ldv.skip(i as int).first() == ldv[i as int]);
            assert(ldv.skip(i as int).drop_first() =~= ldv.skip(i + 1));
            assert(spec_completions(ldv.skip(i as int)) == seq![pv] + spec_completions(
                ldv.skip(i + 1),
            ));
            assert(old_dv + (seq![pv] + spec_completions(ldv.skip(i + 1))) =~= (old_dv + seq![pv])
                + spec_completions(ldv.skip(i + 1)));
        }
        i += 1;
    }
    proof {
        assert(ldv.skip(ldv.len() as int) =~= Seq::<Seq<char>>::empty());
        assert(out.deep_view() + Seq::<(Seq<char>, Seq<char>)>::empty() =~= out.deep_view());
    }
    out
}

} // verus!
