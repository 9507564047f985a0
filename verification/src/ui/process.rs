//! Telling whether a terminal runs a program other than its shell, from
//! the `stat` record of the terminal's foreground process group.
use vstd::prelude::*;
use vstd::string::*;

use crate::strings::same_text;

verus! {

/// `i` is the position of the first `c` in `s`.
pub open spec fn is_first_index(s: Seq<char>, c: char, i: int) -> bool {
    &&& 0 <= i < s.len()
    &&& s[i] == c
    &&& forall|j: int| 0 <= j < i ==> s[j] != c
}

/// `i` is the position of the last `c` in `s`.
pub open spec fn is_last_index(s: Seq<char>, c: char, i: int) -> bool {
    &&& 0 <= i < s.len()
    &&& s[i] == c
    &&& forall|j: int| i < j < s.len() ==> s[j] != c
}

/// Position of the first `c` in `s`.
pub open spec fn find_char(s: Seq<char>, c: char) -> Option<int> {
    if exists|i: int| is_first_index(s, c, i) {
        Some(choose|i: int| is_first_index(s, c, i))
    } else {
        None
    }
}

/// Position of the last `c` in `s`.
pub open spec fn rfind_char(s: Seq<char>, c: char) -> Option<int> {
    if exists|i: int| is_last_index(s, c, i) {
        Some(choose|i: int| is_last_index(s, c, i))
    } else {
        None
    }
}

/// The names of the shells that do not count as a running program.
pub open spec fn is_shell_name(cmd: Seq<char>) -> bool {
    ||| cmd == "bash"@
    ||| cmd == "zsh"@
    ||| cmd == "sh"@
    ||| cmd == "fish"@
    ||| cmd == "dash"@
    ||| cmd == "ksh"@
    ||| cmd == "csh"@
    ||| cmd == "tcsh"@
}

/// A `stat` record whose last `)` stands before or on its first `(`:
/// taking the command name apart would abort.
pub open spec fn stat_slice_panics(stat: Seq<char>) -> bool {
    match (find_char(stat, '('), rfind_char(stat, ')')) {
        (Some(open), Some(close)) => close <= open,
        _ => false,
    }
}

/// The command name of a `stat` record, between the first `(` and the
/// last `)`, when it is not a shell.
pub open spec fn foreground_program_spec(stat: Seq<char>) -> Option<Seq<char>> {
    match (find_char(stat, '('), rfind_char(stat, ')')) {
        (Some(open), Some(close)) => {
            let cmd = stat.subrange(open + 1, close);
            if is_shell_name(cmd) {
                None
            } else {
                Some(cmd)
            }
        },
        _ => None,
    }
}

/// A `stat` record: the fields before the command, the command name in
/// parentheses, and the fields after it.
pub open spec fn stat_record(before: Seq<char>, name: Seq<char>, after: Seq<char>) -> Seq<char> {
    before + seq!['('] + name + seq![')'] + after
}

/// For a record whose fields before the command hold no `(` and whose
/// fields after it hold no `)`, the command name is read whatever it
/// holds: the shells bash, zsh, sh, fish, dash, ksh, csh and tcsh count as
/// no running program, and any other name is the program reported.
pub proof fn law_shells_are_no_program(before: Seq<char>, name: Seq<char>, after: Seq<char>)
    requires
        !before.contains('('),
        !after.contains(')'),
    ensures
        !stat_slice_panics(stat_record(before, name, after)),
        (name == "bash"@ || name == "zsh"@ || name == "sh"@ || name == "fish"@ || name == "dash"@
            || name == "ksh"@ || name == "csh"@ || name == "tcsh"@) ==> foreground_program_spec(
            stat_record(before, name, after),
        ) is None,
        !(name == "bash"@ || name == "zsh"@ || name == "sh"@ || name == "fish"@ || name == "dash"@
            || name == "ksh"@ || name == "csh"@ || name == "tcsh"@) ==> foreground_program_spec(
            stat_record(before, name, after),
        ) == Some(name),
{
    let s = stat_record(before, name, after);
    let a = before.len() as int;
    let b = a + 1 + name.len();
    assert(s.len() == b + 1 + after.len());
    assert(s[a] == '(');
    assert forall|j: int| 0 <= j < a implies s[j] != '(' by {
        assert(s[j] == before[j]);
        if before[j] == '(' {
            assert(before.contains('('));
        }
    }
    assert(is_first_index(s, '(', a));
    let k = choose|k: int| is_first_index(s, '(', k);
    assert(k == a);
    assert(s[b] == ')');
    assert forall|j: int| b < j < s.len() implies s[j] != ')' by {
        assert(s[j] == after[j - b - 1]);
        if after[j - b - 1] == ')' {
            assert(after.contains(')'));
        }
    }
    assert(is_last_index(s, ')', b));
    let m = choose|m: int| is_last_index(s, ')', m);
    assert(m == b);
    assert(s.subrange(a + 1, b) =~= name);
}

fn find_first(s: &str, c: char) -> (r: Option<usize>)
    ensures
        match r {
            Some(i) => find_char(s@, c) == Some(i as int),
            None => find_char(s@, c) is None,
        },
{
    let n = s.unicode_len();
    let mut i: usize = 0;
    while i < n
        invariant
            i <= n,
            n == s@.len(),
            forall|j: int| 0 <= j < i ==> s@[j] != c,
        decreases n - i,
    {
        if s.get_char(i) == c {
            assert(is_first_index(s@, c, i as int));
            proof {
                let k = choose|k: int| is_first_index(s@, c, k);
                assert(k == i);
            }
            return Some(i);
        }
        i = i + 1;
    }
    assert(!exists|i: int| is_first_index(s@, c, i));
    None
}

fn find_last(s: &str, c: char) -> (r: Option<usize>)
    ensures
        match r {
            Some(i) => rfind_char(s@, c) == Some(i as int),
            None => rfind_char(s@, c) is None,
        },
{
    let n = s.unicode_len();
    let mut i: usize = n;
    while i > 0
        invariant
            i <= n,
            n == s@.len(),
            forall|j: int| i <= j < n ==> s@[j] != c,
        decreases i,
    {
        if s.get_char(i - 1) == c {
            assert(is_last_index(s@, c, i - 1));
            proof {
                let k = choose|k: int| is_last_index(s@, c, k);
                assert(k == i - 1);
            }
            return Some(i - 1);
        }
        i = i - 1;
    }
    assert(!exists|i: int| is_last_index(s@, c, i));
    None
}

fn is_shell(cmd: &str) -> (r: bool)
    ensures
        r == is_shell_name(cmd@),
{
    same_text(cmd, "bash") || same_text(cmd, "zsh") || same_text(cmd, "sh") || same_text(cmd, "fish")
        || same_text(cmd, "dash") || same_text(cmd, "ksh") || same_text(cmd, "csh") || same_text(
        cmd,
        "tcsh",
    )
}

/// Whether taking the command name out of `stat` would abort.
pub fn stat_would_panic(stat: &str) -> (r: bool)
    ensures
        r == stat_slice_panics(stat@),
{
    match (find_first(stat, '('), find_last(stat, ')')) {
        (Some(open), Some(close)) => close <= open,
        _ => false,
    }
}

/// The program that the foreground process group runs, read from its
/// `/proc/<pid>/stat` record: the command name between the first `(` and
/// the last `)`, or `None` when there is none or it is a shell.
pub fn foreground_program(stat: &str) -> (r: Option<String>)
    requires
        !stat_slice_panics(stat@),
    ensures
        match r {
            Some(cmd) => foreground_program_spec(stat@) == Some(cmd@),
            None => foreground_program_spec(stat@) is None,
        },
{
    let open = match find_first(stat, '(') {
        Some(i) => i,
        None => {
            return None;
        },
    };
    let close = match find_last(stat, ')') {
        Some(i) => i,
        None => {
            return None;
        },
    };
    let cmd = stat.substring_char(open + 1, close);
    if is_shell(cmd) {
        None
    } else {
        Some(String::from_str(cmd))
    }
}

} // verus!
