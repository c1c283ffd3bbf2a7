//! The description of a process that is to be run, and the lines that are
//! printed about it.

use vstd::prelude::*;
use vstd::string::StringExecFns;
use vstd::string::StrSliceExecFns;
use term::color::Color;
use crate::text::{copy_texts, texts};

verus! {

/// Whether the character is white space: one of the characters with the
/// property White_Space of Unicode.
pub open spec fn white_space(c: char) -> bool {
    let n = c as u32;
    ||| 0x09 <= n <= 0x0d
    ||| n == 0x20
    ||| n == 0x85
    ||| n == 0xa0
    ||| n == 0x1680
    ||| 0x2000 <= n <= 0x200a
    ||| n == 0x2028
    ||| n == 0x2029
    ||| n == 0x202f
    ||| n == 0x205f
    ||| n == 0x3000
}

/// Whether the character is white space.
pub fn is_white_space(c: char) -> (r: bool)
    ensures
        r == white_space(c),
{
    let n: u32 = c as u32;
    (0x09 <= n && n <= 0x0d) || n == 0x20 || n == 0x85 || n == 0xa0 || n == 0x1680 || (0x2000 <= n && n
        <= 0x200a) || n == 0x2028 || n == 0x2029 || n == 0x202f || n == 0x205f || n == 0x3000
}

/// The text without the white space at its end.
pub open spec fn trimmed_end(text: Seq<char>) -> Seq<char>
    decreases text.len(),
{
    if text.len() > 0 && white_space(text.last()) {
        trimmed_end(text.drop_last())
    } else {
        text
    }
}

/// A beginning of `text` that does not end in white space and leaves out
/// white space only is the text without the white space at its end.
proof fn lemma_trimmed_end(text: Seq<char>, k: int)
    requires
        0 <= k <= text.len(),
        k > 0 ==> !white_space(text[k - 1]),
        forall|i: int| k <= i < text.len() ==> white_space(text[i]),
    ensures
        trimmed_end(text) == text.take(k),
    decreases text.len(),
{
    if text.len() > 0 && white_space(text.last()) {
        assert(k < text.len());
        lemma_trimmed_end(text.drop_last(), k);
        assert(text.drop_last().take(k) =~= text.take(k));
    } else {
        assert(k == text.len());
        assert(text.take(k) =~= text);
    }
}

/// The text without the white space at its end.
pub fn trim_end(text: &str) -> (r: &str)
    ensures
        r@ == trimmed_end(text@),
{
    broadcast use vstd::string::group_string_axioms;

    let n = text.unicode_len();
    let mut end: usize = 0;
    let mut i: usize = 0;
    for c in it: text.chars()
        invariant
            it.seq() == text@,
            n == text@.len(),
            i == it.index(),
            end <= i <= n,
            end > 0 ==> !white_space(text@[end - 1]),
            forall|j: int| end <= j < i ==> white_space(text@[j]),
    {
        assert(text@[i as int] == c);
        i += 1;
        if !is_white_space(c) {
            end = i;
        }
    }
    proof {
        lemma_trimmed_end(text@, end as int);
    }
    text.substring_char(0, end)
}

/// The text filled up with spaces at its end to `width` characters.
pub open spec fn padded(text: Seq<char>, width: nat) -> Seq<char> {
    if text.len() >= width {
        text
    } else {
        text + Seq::new((width - text.len()) as nat, |i: int| ' ')
    }
}

/// The words of `args`, each with a space before it.
pub open spec fn spaced(args: Seq<Seq<char>>) -> Seq<char>
    decreases args.len(),
{
    if args.len() == 0 {
        Seq::empty()
    } else {
        spaced(args.drop_last()) + " "@ + args.last()
    }
}

/// A line of `text`, where there is any text.
pub open spec fn line(text: Seq<char>) -> Seq<char> {
    if text.len() == 0 {
        text
    } else {
        text + "\n"@
    }
}

/// A process that is to be run: the program, its arguments, how much is to
/// be shown of it, and the messages gathered so far.
pub struct ProcessBuilder {
    pub program: String,
    pub args: Vec<String>,
    pub color: Option<Color>,
    pub verbosity: usize,
    pub stdout_verbosity: Option<usize>,
    pub stderr_verbosity: Option<usize>,
    pub msgs: String,
    pub timeout: Option<usize>,
}

impl ProcessBuilder {
    /// The command line: the program and its arguments with spaces between.
    pub open spec fn command_text(&self) -> Seq<char> {
        self.program@ + spaced(texts(self.args@))
    }

    /// What is printed before the process runs: the messages as a line,
    /// where there are any.
    pub open spec fn banner_text(&self) -> Seq<char> {
        line(self.msgs@)
    }

    /// What is printed after the process has failed: the command line
    /// behind a plus sign, then what the process wrote to its output and
    /// to its error stream, each without the white space at its end and
    /// left out where nothing remains.
    pub open spec fn failure_text(&self, stdout: Seq<char>, stderr: Seq<char>) -> Seq<char> {
        " + "@ + trimmed_end(self.command_text()) + "\n"@ + line(trimmed_end(stdout)) + line(
            trimmed_end(stderr),
        )
    }

    /// The process that runs `program` on `args`, with no messages.
    pub fn new(program: &str, args: &Vec<String>) -> (p: ProcessBuilder)
        ensures
            p.program@ == program@,
            texts(p.args@) == texts(args@),
            p.color is None,
            p.verbosity == 0,
            p.stdout_verbosity is None,
            p.stderr_verbosity is None,
            p.msgs@ == Seq::<char>::empty(),
            p.timeout is None,
    {
        let copy = copy_texts(args);
        ProcessBuilder {
            program: program.to_owned(),
            args: copy,
            color: None,
            verbosity: 0,
            stdout_verbosity: None,
            stderr_verbosity: None,
            msgs: String::new(),
            timeout: None,
        }
    }

    pub fn color(self, color: Color) -> (p: ProcessBuilder)
        ensures
            p == (ProcessBuilder { color: Some(color), ..self }),
    {
        let mut p = self;
        p.color = Some(color);
        p
    }

    pub fn verbosity(self, verbosity: usize) -> (p: ProcessBuilder)
        ensures
            p == (ProcessBuilder { verbosity, ..self }),
    {
        let mut p = self;
        p.verbosity = verbosity;
        p
    }

    pub fn stdout_verbosity(self, verbosity: usize) -> (p: ProcessBuilder)
        ensures
            p == (ProcessBuilder { stdout_verbosity: Some(verbosity), ..self }),
    {
        let mut p = self;
        p.stdout_verbosity = Some(verbosity);
        p
    }

    pub fn stderr_verbosity(self, verbosity: usize) -> (p: ProcessBuilder)
        ensures
            p == (ProcessBuilder { stderr_verbosity: Some(verbosity), ..self }),
    {
        let mut p = self;
        p.stderr_verbosity = Some(verbosity);
        p
    }

    /// Adds the heading of the messages: a star, then `description` filled
    /// up to ten characters, then a colon.
    pub fn description(self, description: &str) -> (p: ProcessBuilder)
        ensures
            p.msgs@ == self.msgs@ + " * "@ + padded(description@, 10) + ":"@,
            p.program == self.program,
            p.args == self.args,
            p.color == self.color,
            p.verbosity == self.verbosity,
            p.stdout_verbosity == self.stdout_verbosity,
            p.stderr_verbosity == self.stderr_verbosity,
            p.timeout == self.timeout,
    {
        let mut p = self;
        p.msgs.append(" * ");
        p.msgs.append(description);
        let n = description.unicode_len();
        let mut k: usize = n;
        proof {
            assert(Seq::new(0nat, |i: int| ' ') =~= Seq::<char>::empty());
            assert(description@ + Seq::<char>::empty() =~= description@);
        }
        while k < 10
            invariant
                n == description@.len(),
                n <= k,
                k <= 10 || k == n,
                p.msgs@ == self.msgs@ + " * "@ + (description@ + Seq::new((k - n) as nat, |i: int| ' ')),
                p.program == self.program,
                p.args == self.args,
                p.color == self.color,
                p.verbosity == self.verbosity,
                p.stdout_verbosity == self.stdout_verbosity,
                p.stderr_verbosity == self.stderr_verbosity,
                p.timeout == self.timeout,
            decreases 10 - k,
        {
            let ghost before = p.msgs@;
            p.msgs.append(" ");
            proof {
                reveal_strlit(" ");
                assert(" "@ =~= seq![' ']);
                assert(Seq::new((k + 1 - n) as nat, |i: int| ' ') =~= Seq::new((k - n) as nat, |i: int| ' ')
                    + seq![' ']);
                assert(p.msgs@ =~= self.msgs@ + " * "@ + (description@ + Seq::new(
                    (k + 1 - n) as nat,
                    |i: int| ' ',
                )));
            }
            k += 1;
        }
        p.msgs.append(":");
        proof {
            if n >= 10 {
                assert(k == n);
                assert(Seq::new(0nat, |i: int| ' ') =~= Seq::<char>::empty());
                assert(description@ + Seq::<char>::empty() =~= description@);
            }
            assert(p.msgs@ =~= self.msgs@ + " * "@ + padded(description@, 10) + ":"@);
        }
        p
    }

    /// Adds a message, with a space before it.
    pub fn msg(self, msg: &str) -> (p: ProcessBuilder)
        ensures
            p.msgs@ == self.msgs@ + " "@ + msg@,
            p.program == self.program,
            p.args == self.args,
            p.color == self.color,
            p.verbosity == self.verbosity,
            p.stdout_verbosity == self.stdout_verbosity,
            p.stderr_verbosity == self.stderr_verbosity,
            p.timeout == self.timeout,
    {
        let mut p = self;
        p.msgs.append(" ");
        p.msgs.append(msg);
        p
    }

    /// Adds the messages in order, each with a space before it.
    pub fn msgs(self, msgs: &Vec<String>) -> (p: ProcessBuilder)
        ensures
            p.msgs@ == self.msgs@ + spaced(texts(msgs@)),
            p.program == self.program,
            p.args == self.args,
            p.color == self.color,
            p.verbosity == self.verbosity,
            p.stdout_verbosity == self.stdout_verbosity,
            p.stderr_verbosity == self.stderr_verbosity,
            p.timeout == self.timeout,
    {
        let mut p = self;
        let mut i: usize = 0;
        proof {
            assert(texts(msgs@).take(0) =~= Seq::<Seq<char>>::empty());
            assert(self.msgs@ + Seq::<char>::empty() =~= self.msgs@);
        }
        while i < msgs.len()
            invariant
                i <= msgs@.len(),
                p.msgs@ == self.msgs@ + spaced(texts(msgs@).take(i as int)),
                p.program == self.program,
                p.args == self.args,
                p.color == self.color,
                p.verbosity == self.verbosity,
                p.stdout_verbosity == self.stdout_verbosity,
                p.stderr_verbosity == self.stderr_verbosity,
                p.timeout == self.timeout,
            decreases msgs@.len() - i,
        {
            p.msgs.append(" ");
            p.msgs.append(msgs[i].as_str());
            proof {
                let next = texts(msgs@).take(i + 1);
                assert(next.drop_last() =~= texts(msgs@).take(i as int));
                assert(next.last() == msgs@[i as int]@);
                assert(p.msgs@ =~= self.msgs@ + spaced(next));
            }
            i += 1;
        }
        assert(texts(msgs@).take(i as int) =~= texts(msgs@));
        p
    }

    /// The command line: the program and its arguments with spaces between.
    pub fn command_line(&self) -> (cmd: String)
        ensures
            cmd@ == self.command_text(),
    {
        let mut cmd = self.program.clone();
        let mut i: usize = 0;
        proof {
            assert(texts(self.args@).take(0) =~= Seq::<Seq<char>>::empty());
            assert(self.program@ + Seq::<char>::empty() =~= self.program@);
        }
        while i < self.args.len()
            invariant
                i <= self.args@.len(),
                cmd@ == self.program@ + spaced(texts(self.args@).take(i as int)),
            decreases self.args@.len() - i,
        {
            cmd.append(" ");
            cmd.append(self.args[i].as_str());
            proof {
                let next = texts(self.args@).take(i + 1);
                assert(next.drop_last() =~= texts(self.args@).take(i as int));
                assert(next.last() == self.args@[i as int]@);
                assert(cmd@ =~= self.program@ + spaced(next));
            }
            i += 1;
        }
        assert(texts(self.args@).take(i as int) =~= texts(self.args@));
        cmd
    }

    /// What is to be printed before the process runs.
    pub fn banner(&self) -> (text: String)
        ensures
            text@ == self.banner_text(),
    {
        let mut text = self.msgs.clone();
        if !self.msgs.as_str().is_empty() {
            text.append("\n");
        }
        text
    }

    /// What is to be printed after the process has failed, given what it
    /// wrote to its output and to its error stream.
    pub fn failure_report(&self, stdout: &str, stderr: &str) -> (text: String)
        ensures
            text@ == self.failure_text(stdout@, stderr@),
    {
        let cmd = self.command_line();
        let mut text = " + ".to_owned();
        text.append(trim_end(cmd.as_str()));
        text.append("\n");
        let out = trim_end(stdout);
        if !out.is_empty() {
            text.append(out);
            text.append("\n");
        }
        let err = trim_end(stderr);
        if !err.is_empty() {
            text.append(err);
            text.append("\n");
        }
        proof {
            assert(line(Seq::<char>::empty()) =~= Seq::<char>::empty());
            assert(text@ =~= self.failure_text(stdout@, stderr@));
        }
        text
    }
}

} // verus!
