//! The command dispatcher.
//!
//! A [`Shell`] holds one invocation: the command word, its argument words,
//! and the resolved sink of each output stream. Output and error text is
//! gathered in buffers and drained once at the end of the invocation, so a
//! failing command still shows the text it produced before failing.
//!
//! The builtin commands `exit`, `echo`, `pwd`, `cd` and `type` run in
//! process. Anything the dispatcher itself cannot do — read the working
//! directory, change it, scan the search path, run a child process — is
//! returned to the caller as an [`Action`]; the caller performs it and hands
//! the outcome back to the matching `finish` method. The decisions are all
//! made, and verified, here; the caller only carries them out.

use vstd::prelude::*;

use crate::lines::normalize_lines;
use crate::lines::normalize_output;
use crate::redirect::Sink;
use crate::resolve::opt_path_view;
use crate::strutil::str_eq;
use crate::words::join_with_spaces;
use crate::words::join_words;
use crate::words::words_view;

verus! {

/// The builtin a command word names, or [`CommandKind::External`] when it
/// names none. The same classification drives both dispatch and the `type`
/// builtin's membership check, so the two can never disagree.
#[derive(Clone, Copy, PartialEq, Eq, Structural, Debug)]
pub enum CommandKind {
    Exit,
    Echo,
    Pwd,
    Cd,
    Type,
    External,
}

/// What a command word names.
pub open spec fn spec_classify(cmd: Seq<char>) -> CommandKind {
    if cmd == "exit"@ {
        CommandKind::Exit
    } else if cmd == "echo"@ {
        CommandKind::Echo
    } else if cmd == "pwd"@ {
        CommandKind::Pwd
    } else if cmd == "cd"@ {
        CommandKind::Cd
    } else if cmd == "type"@ {
        CommandKind::Type
    } else {
        CommandKind::External
    }
}

/// Whether a word names a builtin command.
pub open spec fn is_builtin_name(w: Seq<char>) -> bool {
    spec_classify(w) != CommandKind::External
}

/// Classify a command word.
pub fn classify(cmd: &str) -> (k: CommandKind)
    ensures
        k == spec_classify(cmd@),
{
    if str_eq(cmd, "exit") {
        CommandKind::Exit
    } else if str_eq(cmd, "echo") {
        CommandKind::Echo
    } else if str_eq(cmd, "pwd") {
        CommandKind::Pwd
    } else if str_eq(cmd, "cd") {
        CommandKind::Cd
    } else if str_eq(cmd, "type") {
        CommandKind::Type
    } else {
        CommandKind::External
    }
}

/// Test whether a word names a builtin command.
pub fn is_builtin_name_exec(w: &str) -> (b: bool)
    ensures
        b == is_builtin_name(w@),
{
    let k = classify(w);
    match k {
        CommandKind::External => false,
        _ => true,
    }
}

/// A decimal digit.
pub open spec fn is_digit(c: char) -> bool {
    '0' <= c && c <= '9'
}

/// The value of a decimal digit.
pub open spec fn digit_val(c: char) -> int {
    c as int - '0' as int
}

/// Whether every character of `s` is a decimal digit.
pub open spec fn all_digits(s: Seq<char>) -> bool {
    forall|i: int| 0 <= i < s.len() ==> is_digit(#[trigger] s[i])
}

/// The value of a string of decimal digits.
pub open spec fn dec_val(s: Seq<char>) -> int
    decreases s.len(),
{
    if s.len() == 0 {
        0
    } else {
        dec_val(s.drop_last()) * 10 + digit_val(s.last())
    }
}

/// What parsing `s` as an unsigned byte yields: an optional `+` sign, then
/// at least one digit, with a value of at most 255.
pub open spec fn parse_u8_spec(s: Seq<char>) -> Option<u8> {
    let t = if s.len() > 0 && s[0] == '+' {
        s.drop_first()
    } else {
        s
    };
    if t.len() == 0 {
        None
    } else if !all_digits(t) {
        None
    } else if dec_val(t) > 255 {
        None
    } else {
        Some(dec_val(t) as u8)
    }
}

/// The status `exit` yields: 0 with no argument, the parsed value of the
/// first argument, or 1 when it does not parse as an unsigned byte.
pub open spec fn spec_exit_code(args: Seq<Seq<char>>) -> u8 {
    if args.len() == 0 {
        0
    } else {
        match parse_u8_spec(args[0]) {
            Some(v) => v,
            None => 1,
        }
    }
}

/// What `cd` makes of its argument: no argument or a bare `~` means the
/// home directory; anything else is taken verbatim.
pub open spec fn spec_cd_target(args: Seq<Seq<char>>, home: Seq<char>) -> Seq<char> {
    if args.len() == 0 || args[0] == "~"@ {
        home
    } else {
        args[0]
    }
}

/// What `type` reports for `arg`, given the resolution the caller found for
/// a non-builtin word.
pub open spec fn type_message(arg: Seq<char>, resolution: Option<Seq<char>>) -> Seq<char> {
    if is_builtin_name(arg) {
        arg + " is a shell builtin\n"@
    } else {
        match resolution {
            Some(p) => arg + " is "@ + p + "\n"@,
            None => arg + ": not found\n"@,
        }
    }
}

/// The status `type` yields: 0 for a builtin or a resolved word, 1 for one
/// found nowhere.
pub open spec fn type_status(arg: Seq<char>, resolution: Option<Seq<char>>) -> u8 {
    if is_builtin_name(arg) || resolution is Some {
        0
    } else {
        1
    }
}

/// The report for a command word found nowhere on the search path.
pub open spec fn msg_command_not_found(cmd: Seq<char>) -> Seq<char> {
    cmd + ": command not found\n"@
}

/// The report for a `cd` target that could not be entered.
pub open spec fn msg_cd_failed(target: Seq<char>) -> Seq<char> {
    "cd: "@ + target + ": No such file or directory\n"@
}

/// The report for a resolved executable that could not be started.
pub open spec fn msg_spawn_failed(cmd: Seq<char>) -> Seq<char> {
    cmd + ": failed to launch\n"@
}

/// One shell invocation: the command word, its arguments, the two output
/// buffers, and where each stream goes when the buffers are drained.
pub struct Shell {
    /// The command word.
    pub command: String,
    /// The argument words, redirections already stripped.
    pub args: Vec<String>,
    /// Text produced for standard output, not yet flushed.
    pub stdout_buffer: String,
    /// Text produced for standard error, not yet flushed.
    pub stderr_buffer: String,
    /// Where the output buffer goes.
    pub stdout_sink: Sink,
    /// Where the error buffer goes.
    pub stderr_sink: Sink,
}

/// Whether `post` is `pre` with `out` appended to the output buffer and
/// `err` to the error buffer, everything else untouched.
pub open spec fn appended(pre: Shell, post: Shell, out: Seq<char>, err: Seq<char>) -> bool {
    &&& post.command == pre.command
    &&& post.args == pre.args
    &&& post.stdout_sink == pre.stdout_sink
    &&& post.stderr_sink == pre.stderr_sink
    &&& post.stdout_buffer@ == pre.stdout_buffer@ + out
    &&& post.stderr_buffer@ == pre.stderr_buffer@ + err
}

/// What the dispatcher asks its caller to do next.
#[derive(Debug, PartialEq, Eq)]
pub enum Action {
    /// Leave the read-eval loop with this status.
    Exit(u8),
    /// The invocation is complete with this status; drain the buffers.
    Done(u8),
    /// Try to change the working directory to this path, then report the
    /// outcome to [`Shell::builtin_cd`].
    RunChdir(String),
    /// Look this word up on the search path, then hand the result to
    /// [`Shell::finish_resolve`].
    RunResolve(String),
}

/// What follows a search-path lookup.
#[derive(Debug, PartialEq, Eq)]
pub enum ResolveNext {
    /// The invocation is complete with this status; drain the buffers.
    Finished(u8),
    /// Run this executable with the shell's arguments, then hand the
    /// captured output to [`Shell::finish_spawn`], or report the failure
    /// through [`Shell::report_spawn_failure`].
    RunSpawn(String),
}

impl Shell {
    /// A fresh invocation with empty buffers.
    pub fn new(command: String, args: Vec<String>, stdout_sink: Sink, stderr_sink: Sink) -> (sh:
        Shell)
        ensures
            sh.command == command,
            sh.args == args,
            sh.stdout_sink == stdout_sink,
            sh.stderr_sink == stderr_sink,
            sh.stdout_buffer@ == Seq::<char>::empty(),
            sh.stderr_buffer@ == Seq::<char>::empty(),
    {
        Shell {
            command,
            args,
            stdout_buffer: String::new(),
            stderr_buffer: String::new(),
            stdout_sink,
            stderr_sink,
        }
    }

    /// The status the `exit` builtin yields for this invocation.
    pub fn parse_exit_code(&self) -> (code: u8)
        ensures
            code == spec_exit_code(words_view(self.args@)),
    {
        if self.args.len() == 0 {
            return 0;
        }
        let s = self.args[0].as_str();
        let n = s.unicode_len();
        let mut i: usize = 0;
        if n > 0 && s.get_char(0) == '+' {
            i = 1;
        }
        let ghost start = i as int;
        let ghost t = if start == 1 {
            s@.drop_first()
        } else {
            s@
        };
        proof {
            assert(words_view(self.args@)[0] == s@);
            assert(t.len() == n - start);
        }
        if i == n {
            proof {
                assert(parse_u8_spec(s@) is None);
            }
            return 1;
        }
        let mut acc: u32 = 0;
        let mut big = false;
        while i < n
            invariant
                self.args@.len() >= 1,
                s@ == self.args@[0]@,
                n == s@.len(),
                start <= i <= n,
                start == 0 || start == 1,
                (start == 1) == (s@.len() > 0 && s@[0] == '+'),
                start == 1 ==> t =~= s@.drop_first(),
                start == 0 ==> t == s@,
                t.len() == n - start,
                forall|j: int| 0 <= j < i - start ==> is_digit(#[trigger] t[j]),
                !big ==> acc <= 255 && acc as int == dec_val(t.take(i - start)),
                big ==> dec_val(t.take(i - start)) > 255,
            decreases n - i,
        {
            proof {
                assert(t[i - start] == s@[i as int]);
            }
            let c = s.get_char(i);
            if !('0' <= c && c <= '9') {
                proof {
                    assert(!is_digit(t[i - start]));
                    assert(!all_digits(t));
                    assert(words_view(self.args@)[0] == s@);
                    assert(parse_u8_spec(s@) is None);
                }
                return 1;
            }
            let ghost pre = t.take(i - start);
            proof {
                assert(t.take(i - start + 1).drop_last() =~= pre);
                assert(t.take(i - start + 1).last() == t[i - start]);
                assert(dec_val(t.take(i - start + 1)) == dec_val(pre) * 10 + digit_val(t[i
                    - start]));
            }
            let d = digit_of(c);
            if big {
                proof {
                    assert(digit_val(t[i - start]) >= 0);
                    assert(dec_val(pre) * 10 >= 2560);
                }
            } else {
                acc = acc * 10 + (d as u32);
                if acc > 255 {
                    big = true;
                }
            }
            i += 1;
        }
        proof {
            assert(t.take(n - start) =~= t);
            assert(all_digits(t));
        }
        if big {
            1
        } else {
            proof {
                assert(parse_u8_spec(s@) == Some((dec_val(t) as u8)));
            }
            acc as u8
        }
    }

    /// `echo`: the argument words joined by single spaces, then a newline,
    /// on standard output.
    pub fn builtin_echo(&mut self) -> (st: u8)
        ensures
            appended(
                *old(self),
                *final(self),
                join_words(words_view(old(self).args@)) + "\n"@,
                Seq::<char>::empty(),
            ),
            st == 0,
    {
        let text = join_with_spaces(&self.args);
        self.stdout_buffer.append(text.as_str());
        self.stdout_buffer.append("\n");
        proof {
            assert(self.stdout_buffer@ =~= old(self).stdout_buffer@ + (join_words(
                words_view(old(self).args@),
            ) + "\n"@));
            assert(self.stderr_buffer@ =~= old(self).stderr_buffer@ + Seq::<char>::empty());
        }
        0
    }

    /// `pwd`: the working directory the caller read, then a newline, on
    /// standard output.
    pub fn builtin_pwd(&mut self, cwd: &str) -> (st: u8)
        ensures
            appended(*old(self), *final(self), cwd@ + "\n"@, Seq::<char>::empty()),
            st == 0,
    {
        self.stdout_buffer.append(cwd);
        self.stdout_buffer.append("\n");
        proof {
            assert(self.stdout_buffer@ =~= old(self).stdout_buffer@ + (cwd@ + "\n"@));
            assert(self.stderr_buffer@ =~= old(self).stderr_buffer@ + Seq::<char>::empty());
        }
        0
    }

    /// The directory `cd` should try to enter.
    pub fn cd_target(&self, home: &str) -> (target: String)
        ensures
            target@ == spec_cd_target(words_view(self.args@), home@),
    {
        if self.args.len() == 0 || str_eq(self.args[0].as_str(), "~") {
            proof {
                if self.args@.len() > 0 {
                    assert(words_view(self.args@)[0] == self.args@[0]@);
                }
            }
            String::from_str(home)
        } else {
            proof {
                assert(words_view(self.args@)[0] == self.args@[0]@);
            }
            self.args[0].clone()
        }
    }

    /// `cd`, once the caller has tried to enter the target directory:
    /// nothing on success; on failure, a report on standard output and
    /// status 1. The working directory itself is the caller's; this
    /// invocation never touches it on failure.
    pub fn builtin_cd(&mut self, home: &str, chdir_ok: bool) -> (st: u8)
        ensures
            chdir_ok ==> appended(
                *old(self),
                *final(self),
                Seq::<char>::empty(),
                Seq::<char>::empty(),
            ) && st == 0,
            !chdir_ok ==> appended(
                *old(self),
                *final(self),
                msg_cd_failed(spec_cd_target(words_view(old(self).args@), home@)),
                Seq::<char>::empty(),
            ) && st == 1,
    {
        if chdir_ok {
            proof {
                assert(self.stdout_buffer@ =~= old(self).stdout_buffer@ + Seq::<char>::empty());
                assert(self.stderr_buffer@ =~= old(self).stderr_buffer@ + Seq::<char>::empty());
            }
            0
        } else {
            let target = self.cd_target(home);
            self.stdout_buffer.append("cd: ");
            self.stdout_buffer.append(target.as_str());
            self.stdout_buffer.append(": No such file or directory\n");
            proof {
                assert(self.stdout_buffer@ =~= old(self).stdout_buffer@ + msg_cd_failed(
                    spec_cd_target(words_view(old(self).args@), home@),
                ));
                assert(self.stderr_buffer@ =~= old(self).stderr_buffer@ + Seq::<char>::empty());
            }
            1
        }
    }

    /// `type`: report whether the single argument word is a builtin, an
    /// executable the caller resolved, or nothing. The caller passes the
    /// resolution it found for a non-builtin word; for a builtin the
    /// resolution is ignored.
    pub fn builtin_type(&mut self, resolution: &Option<String>) -> (st: u8)
        requires
            old(self).args@.len() >= 1,
        ensures
            appended(
                *old(self),
                *final(self),
                type_message(words_view(old(self).args@)[0], opt_path_view(*resolution)),
                Seq::<char>::empty(),
            ),
            st == type_status(words_view(old(self).args@)[0], opt_path_view(*resolution)),
    {
        proof {
            assert(words_view(self.args@)[0] == self.args@[0]@);
        }
        let arg = self.args[0].clone();
        if is_builtin_name_exec(arg.as_str()) {
            self.stdout_buffer.append(arg.as_str());
            self.stdout_buffer.append(" is a shell builtin\n");
            proof {
                assert(self.stdout_buffer@ =~= old(self).stdout_buffer@ + type_message(
                    words_view(old(self).args@)[0],
                    opt_path_view(*resolution),
                ));
                assert(self.stderr_buffer@ =~= old(self).stderr_buffer@ + Seq::<char>::empty());
            }
            0
        } else {
            match resolution {
                Some(p) => {
                    self.stdout_buffer.append(arg.as_str());
                    self.stdout_buffer.append(" is ");
                    self.stdout_buffer.append(p.as_str());
                    self.stdout_buffer.append("\n");
                    proof {
                        assert(self.stdout_buffer@ =~= old(self).stdout_buffer@ + type_message(
                            words_view(old(self).args@)[0],
                            opt_path_view(*resolution),
                        ));
                        assert(self.stderr_buffer@ =~= old(self).stderr_buffer@
                            + Seq::<char>::empty());
                    }
                    0
                },
                None => {
                    self.stdout_buffer.append(arg.as_str());
                    self.stdout_buffer.append(": not found\n");
                    proof {
                        assert(self.stdout_buffer@ =~= old(self).stdout_buffer@ + type_message(
                            words_view(old(self).args@)[0],
                            opt_path_view(*resolution),
                        ));
                        assert(self.stderr_buffer@ =~= old(self).stderr_buffer@
                            + Seq::<char>::empty());
                    }
                    1
                },
            }
        }
    }

    /// Report a command word found nowhere on the search path: a fixed
    /// message on standard output and status 127.
    pub fn report_command_not_found(&mut self) -> (st: u8)
        ensures
            appended(
                *old(self),
                *final(self),
                msg_command_not_found(old(self).command@),
                Seq::<char>::empty(),
            ),
            st == 127,
    {
        let cmd = self.command.clone();
        self.stdout_buffer.append(cmd.as_str());
        self.stdout_buffer.append(": command not found\n");
        proof {
            assert(self.stdout_buffer@ =~= old(self).stdout_buffer@ + msg_command_not_found(
                old(self).command@,
            ));
            assert(self.stderr_buffer@ =~= old(self).stderr_buffer@ + Seq::<char>::empty());
        }
        127
    }

    /// Report a resolved executable that could not be started: a message on
    /// standard error and status 126, and the shell goes on.
    pub fn report_spawn_failure(&mut self) -> (st: u8)
        ensures
            appended(
                *old(self),
                *final(self),
                Seq::<char>::empty(),
                msg_spawn_failed(old(self).command@),
            ),
            st == 126,
    {
        let cmd = self.command.clone();
        self.stderr_buffer.append(cmd.as_str());
        self.stderr_buffer.append(": failed to launch\n");
        proof {
            assert(self.stderr_buffer@ =~= old(self).stderr_buffer@ + msg_spawn_failed(
                old(self).command@,
            ));
            assert(self.stdout_buffer@ =~= old(self).stdout_buffer@ + Seq::<char>::empty());
        }
        126
    }

    /// Fold a finished child's captured output and error text into the
    /// buffers, line by line, and pass its status through.
    pub fn finish_spawn(&mut self, child_stdout: &str, child_stderr: &str, code: u8) -> (st: u8)
        ensures
            appended(
                *old(self),
                *final(self),
                normalize_lines(child_stdout@),
                normalize_lines(child_stderr@),
            ),
            st == code,
    {
        let out = normalize_output(child_stdout);
        let err = normalize_output(child_stderr);
        self.stdout_buffer.append(out.as_str());
        self.stderr_buffer.append(err.as_str());
        code
    }

    /// Dispatch the invocation as far as it can go in process. `cwd` is the
    /// caller's reading of the working directory and `home` of the home
    /// directory; they are consulted only by `pwd` and `cd`.
    pub fn execute(&mut self, cwd: &str, home: &str) -> (a: Action)
        requires
            spec_classify(old(self).command@) == CommandKind::Type ==> old(self).args@.len() >= 1,
        ensures
            spec_classify(old(self).command@) == CommandKind::Exit ==> a == Action::Exit(
                spec_exit_code(words_view(old(self).args@)),
            ) && *final(self) == *old(self),
            spec_classify(old(self).command@) == CommandKind::Echo ==> a == Action::Done(0u8)
                && appended(
                *old(self),
                *final(self),
                join_words(words_view(old(self).args@)) + "\n"@,
                Seq::<char>::empty(),
            ),
            spec_classify(old(self).command@) == CommandKind::Pwd ==> a == Action::Done(0u8)
                && appended(*old(self), *final(self), cwd@ + "\n"@, Seq::<char>::empty()),
            spec_classify(old(self).command@) == CommandKind::Cd ==> *final(self) == *old(self)
                && a is RunChdir && a->RunChdir_0@ == spec_cd_target(
                words_view(old(self).args@),
                home@,
            ),
            spec_classify(old(self).command@) == CommandKind::Type && is_builtin_name(
                words_view(old(self).args@)[0],
            ) ==> a == Action::Done(0u8) && appended(
                *old(self),
                *final(self),
                type_message(words_view(old(self).args@)[0], None),
                Seq::<char>::empty(),
            ),
            spec_classify(old(self).command@) == CommandKind::Type && !is_builtin_name(
                words_view(old(self).args@)[0],
            ) ==> *final(self) == *old(self) && a is RunResolve && a->RunResolve_0@ == words_view(
                old(self).args@,
            )[0],
            spec_classify(old(self).command@) == CommandKind::External ==> *final(self) == *old(
                self,
            ) && a is RunResolve && a->RunResolve_0@ == old(self).command@,
    {
        let kind = classify(self.command.as_str());
        match kind {
            CommandKind::Exit => {
                let code = self.parse_exit_code();
                Action::Exit(code)
            },
            CommandKind::Echo => {
                let st = self.builtin_echo();
                Action::Done(st)
            },
            CommandKind::Pwd => {
                let st = self.builtin_pwd(cwd);
                Action::Done(st)
            },
            CommandKind::Cd => {
                let target = self.cd_target(home);
                Action::RunChdir(target)
            },
            CommandKind::Type => {
                proof {
                    assert(words_view(self.args@)[0] == self.args@[0]@);
                }
                if is_builtin_name_exec(self.args[0].as_str()) {
                    let none: Option<String> = None;
                    let st = self.builtin_type(&none);
                    Action::Done(st)
                } else {
                    Action::RunResolve(self.args[0].clone())
                }
            },
            CommandKind::External => {
                Action::RunResolve(self.command.clone())
            },
        }
    }

    /// Take the caller's search-path lookup and finish the invocation, or
    /// ask it to run the executable it found. For `type`, the lookup
    /// answers the query; for an external command, a missing resolution is
    /// reported as "command not found" with status 127.
    pub fn finish_resolve(&mut self, resolution: Option<String>) -> (r: ResolveNext)
        requires
            spec_classify(old(self).command@) == CommandKind::Type || spec_classify(
                old(self).command@,
            ) == CommandKind::External,
            spec_classify(old(self).command@) == CommandKind::Type ==> old(self).args@.len() >= 1,
        ensures
            spec_classify(old(self).command@) == CommandKind::Type ==> appended(
                *old(self),
                *final(self),
                type_message(words_view(old(self).args@)[0], opt_path_view(resolution)),
                Seq::<char>::empty(),
            ) && r == ResolveNext::Finished(
                type_status(words_view(old(self).args@)[0], opt_path_view(resolution)),
            ),
            spec_classify(old(self).command@) == CommandKind::External ==> match opt_path_view(
                resolution,
            ) {
                Some(p) => *final(self) == *old(self) && r is RunSpawn && r->RunSpawn_0@ == p,
                None => appended(
                    *old(self),
                    *final(self),
                    msg_command_not_found(old(self).command@),
                    Seq::<char>::empty(),
                ) && r == ResolveNext::Finished(127u8),
            },
    {
        let kind = classify(self.command.as_str());
        match kind {
            CommandKind::Type => {
                let st = self.builtin_type(&resolution);
                ResolveNext::Finished(st)
            },
            CommandKind::External => {
                match resolution {
                    Some(p) => ResolveNext::RunSpawn(p),
                    None => {
                        let st = self.report_command_not_found();
                        ResolveNext::Finished(st)
                    },
                }
            },
            _ => {
                proof {
                    assert(false);
                }
                ResolveNext::Finished(0)
            },
        }
    }

    /// Drain the output buffer: the caller writes the returned text to the
    /// output sink.
    pub fn write_to_stdout_buffer(&mut self) -> (text: String)
        ensures
            text == old(self).stdout_buffer,
            final(self).stdout_buffer@ == Seq::<char>::empty(),
            final(self).stderr_buffer == old(self).stderr_buffer,
            final(self).command == old(self).command,
            final(self).args == old(self).args,
            final(self).stdout_sink == old(self).stdout_sink,
            final(self).stderr_sink == old(self).stderr_sink,
    {
        let mut text = String::new();
        core::mem::swap(&mut text, &mut self.stdout_buffer);
        text
    }

    /// Drain the error buffer: the caller writes the returned text to the
    /// error sink.
    pub fn write_to_stderr_buffer(&mut self) -> (text: String)
        ensures
            text == old(self).stderr_buffer,
            final(self).stderr_buffer@ == Seq::<char>::empty(),
            final(self).stdout_buffer == old(self).stdout_buffer,
            final(self).command == old(self).command,
            final(self).args == old(self).args,
            final(self).stdout_sink == old(self).stdout_sink,
            final(self).stderr_sink == old(self).stderr_sink,
    {
        let mut text = String::new();
        core::mem::swap(&mut text, &mut self.stderr_buffer);
        text
    }
}

/// The value of a decimal digit character.
fn digit_of(c: char) -> (d: u8)
    requires
        is_digit(c),
    ensures
        d as int == digit_val(c),
{
    match c {
        '0' => 0,
        '1' => 1,
        '2' => 2,
        '3' => 3,
        '4' => 4,
        '5' => 5,
        '6' => 6,
        '7' => 7,
        '8' => 8,
        '9' => 9,
        _ => 0,
    }
}

} // verus!
