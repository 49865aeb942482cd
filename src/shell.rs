//! The command shell: what to do with one line of input.
use vstd::prelude::*;
use crate::text::{
    all_space, from_chars, is_line_end, is_space, lemma_tokens_ignore_spacing, join, join_from, push_chars, same_chars, split_tokens, strip_line_end,
    strip_line_end_chars, to_chars, tokens,
};

verus! {

/// What the shell does in answer to one line of input.
#[derive(Debug, Clone, PartialEq, Eq)]
pub enum ShellAction {
    /// End the session.
    Exit,
    /// Nothing to run: prompt again.
    Skip,
    /// Print this text on its own line.
    Print(String),
    /// List the entries of the current directory.
    ListDir,
}

/// The words of a command line: its tokens once the line terminator is gone.
pub open spec fn command_words(line: Seq<char>) -> Seq<Seq<char>> {
    tokens(strip_line_end(line))
}

/// Whether `line` asks the shell to stop.
pub open spec fn is_exit_line(line: Seq<char>) -> bool {
    strip_line_end(line) == "exit"@
}

/// Whether the session ends on this read: end of input, or the `exit` command.
pub open spec fn ends_session(line: Option<Seq<char>>) -> bool {
    match line {
        None => true,
        Some(l) => is_exit_line(l),
    }
}

/// Whether `r` is the shell's answer to the line `line`.
pub open spec fn answers(line: Seq<char>, r: ShellAction) -> bool {
    let words = command_words(line);
    if is_exit_line(line) {
        r is Exit
    } else if words.len() == 0 {
        r is Skip
    } else if words[0] == "echo"@ {
        r matches ShellAction::Print(out) && out@ == join(words.skip(1))
    } else if words[0] == "ls"@ {
        r is ListDir
    } else {
        r matches ShellAction::Print(out) && out@ == "unkown command: "@ + words[0]
    }
}

/// The shell's answer to one read: `None` when the input has ended, else the line read.
pub fn respond(line: Option<&str>) -> (r: ShellAction)
    ensures
        r is Exit <==> ends_session(
            match line {
                None => None,
                Some(l) => Some(l@),
            },
        ),
        line matches Some(l) ==> answers(l@, r),
{
    let l = match line {
        None => {
            return ShellAction::Exit;
        },
        Some(l) => l,
    };
    proof {
        reveal_strlit("exit");
        reveal_strlit("echo");
        reveal_strlit("ls");
        reveal_strlit("unkown command: ");
    }
    let chars = to_chars(l);
    let trimmed = strip_line_end_chars(&chars);
    if same_chars(&trimmed, &to_chars("exit")) {
        return ShellAction::Exit;
    }
    let words = split_tokens(&trimmed);
    if words.len() == 0 {
        return ShellAction::Skip;
    }
    if same_chars(&words[0], &to_chars("echo")) {
        ShellAction::Print(join_from(&words, 1))
    } else if same_chars(&words[0], &to_chars("ls")) {
        ShellAction::ListDir
    } else {
        let mut out = from_chars(&to_chars("unkown command: "));
        push_chars(&mut out, &words[0]);
        ShellAction::Print(out)
    }
}

/// Echo does not depend on the spacing of its line: widening or narrowing any
/// run of whitespace between words leaves the words of the line, and so the
/// shell's answer, unchanged.
pub proof fn lemma_echo_ignores_spacing(a: Seq<char>, w1: Seq<char>, w2: Seq<char>, b: Seq<char>)
    requires
        w1.len() > 0,
        w2.len() > 0,
        all_space(w1),
        all_space(w2),
        b.len() > 0,
        !is_line_end(b.last()),
    ensures
        command_words(a + w1 + b) == command_words(a + w2 + b),
        forall|r: ShellAction| #[trigger] answers(a + w1 + b, r) == answers(a + w2 + b, r),
{
    let s1 = a + w1 + b;
    let s2 = a + w2 + b;
    assert(s1.last() == b.last() && s2.last() == b.last());
    assert(strip_line_end(s1) == s1);
    assert(strip_line_end(s2) == s2);
    lemma_tokens_ignore_spacing(a, w1, w2, b);
    reveal_strlit("exit");
    assert(is_space(s1[a.len() as int]));
    assert(is_space(s2[a.len() as int]));
    assert(!is_exit_line(s1));
    assert(!is_exit_line(s2));
}

} // verus!
