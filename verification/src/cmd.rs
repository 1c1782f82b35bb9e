use vstd::prelude::*;

verus! {

#[verifier::external_type_specification]
#[verifier::external_body]
pub struct ExIoError(std::io::Error);

/// Commands on the layout and the focus.
#[derive(Debug, Clone, Copy, PartialEq, Eq, Structural)]
pub enum LayoutCmd {
    FocusNext,
    FocusPrev,
    SendToTop,
    SendToBottom,
    SendUp,
    SendDown,
    Shrink,
    Grow,
    IncreaseMasterCount,
    DecreaseMasterCount,
    CycleLayout,
}

/// What a key binding asks of the window manager.
#[derive(Debug)]
pub enum Cmd {
    /// Start a program: its name, then its arguments.
    Spawn(Vec<String>),
    Layout(LayoutCmd),
    CloseFocused,
    /// Ask the user with a prompt, then run the command.
    ConfirmCommand(String, Box<Cmd>),
    GoToWorkSpace(u16),
    MoveFocusedWindowToWorkSpace(u16),
    Exit(i32),
}

/// Why a command could not run.
#[derive(Debug)]
pub enum CommandExecutionError {
    SpawnError(std::io::Error),
    NoCommand,
}

/// Whether the owned strings `v` hold the texts of `args`, one for one.
pub open spec fn same_texts(v: Seq<String>, args: Seq<&str>) -> bool {
    &&& v.len() == args.len()
    &&& forall|i: int| 0 <= i < v.len() ==> #[trigger] v[i]@ == args[i]@
}

impl Cmd {
    /// A command that starts the program `args[0]` with the other arguments.
    pub fn spawn_args(args: Vec<&str>) -> (c: Cmd)
        ensures
            c matches Cmd::Spawn(v) && same_texts(v@, args@),
    {
        let mut v: Vec<String> = Vec::new();
        let n = args.len();
        let mut i: usize = 0;
        while i < n
            invariant
                n == args@.len(),
                i <= n,
                same_texts(v@, args@.take(i as int)),
            decreases n - i,
        {
            v.push(String::from_str(args[i]));
            i = i + 1;
        }
        assert(args@.take(n as int) =~= args@);
        Cmd::Spawn(v)
    }

    /// The program and its arguments from the segments of a command line:
    /// the first segment and the rest, or `NoCommand` where there are none.
    pub fn command_and_args(command_segments: &Vec<String>) -> (r: Result<(&String, &[String]), CommandExecutionError>)
        ensures
            command_segments@.len() == 0 ==> (r matches Err(CommandExecutionError::NoCommand)),
            command_segments@.len() > 0 ==> (r matches Ok((c, a)) && *c == command_segments@[0] && a@ == command_segments@.drop_first()),
    {
        if command_segments.len() == 0 {
            return Err(CommandExecutionError::NoCommand);
        }
        let (first, rest) = command_segments.as_slice().split_at(1);
        assert(rest@ =~= command_segments@.drop_first());
        Ok((&first[0], rest))
    }

    /// Whether the user agrees to run a confirmed command: there is no prompt
    /// to ask with, so the answer is always yes.
    pub fn show_prompt(_prompt: &str) -> (b: bool)
        ensures
            b,
    {
        true
    }
}

fn clone_strings(v: &Vec<String>) -> (r: Vec<String>)
    ensures
        r@ == v@,
{
    let mut r: Vec<String> = Vec::new();
    let n = v.len();
    let mut i: usize = 0;
    while i < n
        invariant
            n == v@.len(),
            i <= n,
            r@ == v@.take(i as int),
        decreases n - i,
    {
        r.push(v[i].clone());
        assert(r@ =~= v@.take(i + 1));
        i = i + 1;
    }
    assert(v@.take(n as int) =~= v@);
    r
}

/// Whether two commands are the same: of the same kind, with the same
/// strings and numbers.
pub open spec fn same_cmd(a: Cmd, b: Cmd) -> bool
    decreases a,
{
    match (a, b) {
        (Cmd::Spawn(x), Cmd::Spawn(y)) => x@ == y@,
        (Cmd::ConfirmCommand(p, n), Cmd::ConfirmCommand(q, m)) => p == q && same_cmd(*n, *m),
        (Cmd::Spawn(_), _) => false,
        (Cmd::ConfirmCommand(_, _), _) => false,
        _ => a == b,
    }
}

impl Cmd {
    /// A copy of the command.
    pub fn duplicate(&self) -> (c: Cmd)
        ensures
            same_cmd(c, *self),
        decreases self,
    {
        match self {
            Cmd::Spawn(args) => {
                let copied = clone_strings(args);
                assert(copied@ == args@);
                Cmd::Spawn(copied)
            },
            Cmd::Layout(l) => Cmd::Layout(*l),
            Cmd::CloseFocused => Cmd::CloseFocused,
            Cmd::ConfirmCommand(prompt, next) => Cmd::ConfirmCommand(prompt.clone(), Box::new(next.duplicate())),
            Cmd::GoToWorkSpace(n) => Cmd::GoToWorkSpace(*n),
            Cmd::MoveFocusedWindowToWorkSpace(n) => Cmd::MoveFocusedWindowToWorkSpace(*n),
            Cmd::Exit(code) => Cmd::Exit(*code),
        }
    }
}

impl Clone for Cmd {
    /// A copy of the command (see `duplicate`).
    fn clone(&self) -> (c: Cmd)
        ensures
            same_cmd(c, *self),
    {
        self.duplicate()
    }
}

impl From<Vec<&str>> for Cmd {
    /// The command that starts `args[0]` with the other arguments.
    fn from(args: Vec<&str>) -> (c: Cmd)
        ensures
            c matches Cmd::Spawn(v) && same_texts(v@, args@),
    {
        Cmd::spawn_args(args)
    }
}

impl vstd::std_specs::convert::FromSpecImpl<Vec<&str>> for Cmd {
    /// A command holds strings, whose contents a spec value cannot build; what
    /// `from` gives is stated in its own `ensures`.
    open spec fn obeys_from_spec() -> bool {
        false
    }

    open spec fn from_spec(v: Vec<&str>) -> Cmd {
        Cmd::Exit(0)
    }
}

impl From<&str> for Cmd {
    /// The command that starts the program `command` with no arguments.
    fn from(command: &str) -> (c: Cmd)
        ensures
            c matches Cmd::Spawn(v) && v@.len() == 1 && v@[0]@ == command@,
    {
        let mut v: Vec<String> = Vec::new();
        v.push(String::from_str(command));
        Cmd::Spawn(v)
    }
}

impl vstd::std_specs::convert::FromSpecImpl<&str> for Cmd {
    /// As for `Vec<&str>`: what `from` gives is stated in its own `ensures`.
    open spec fn obeys_from_spec() -> bool {
        false
    }

    open spec fn from_spec(v: &str) -> Cmd {
        Cmd::Exit(0)
    }
}

/// How `{:?}` prints a string: quoted, with special characters escaped.
pub uninterp spec fn debug_text(s: Seq<char>) -> Seq<char>;

/// `format!("{:?}", s)`: the string quoted, with quotes, backslashes and
/// characters that do not print escaped (by the rules of `Debug` for `str`,
/// which take the Unicode tables into account).
/// Claimed: the result is `debug_text` of the string's text, a function of
/// that text alone.
#[verifier::external_body]
fn debug_string(s: &str) -> (r: String)
    ensures
        r@ == debug_text(s@),
{
    format!("{:?}", s)
}

/// The character of the decimal digit `d`.
pub open spec fn dec_char(d: nat) -> char {
    (d + 48) as char
}

/// The decimal digits of `n`, most significant first, without leading zeros
/// (a single "0" for zero).
pub open spec fn dec_digits(n: nat) -> Seq<char>
    decreases n,
{
    if n < 10 {
        seq![dec_char(n)]
    } else {
        dec_digits(n / 10).push(dec_char(n % 10))
    }
}

/// How `{}` and `{:?}` print an integer: a '-' where it is negative, then
/// its decimal digits.
pub open spec fn int_text(n: int) -> Seq<char> {
    if n < 0 {
        seq!['-'] + dec_digits((-n) as nat)
    } else {
        dec_digits(n as nat)
    }
}

fn dec_digit_str(d: u32) -> (s: &'static str)
    requires
        d < 10,
    ensures
        s@ == seq![dec_char(d as nat)],
{
    proof {
        reveal_strlit("0");
        reveal_strlit("1");
        reveal_strlit("2");
        reveal_strlit("3");
        reveal_strlit("4");
        reveal_strlit("5");
        reveal_strlit("6");
        reveal_strlit("7");
        reveal_strlit("8");
        reveal_strlit("9");
    }
    match d {
        0 => "0",
        1 => "1",
        2 => "2",
        3 => "3",
        4 => "4",
        5 => "5",
        6 => "6",
        7 => "7",
        8 => "8",
        _ => "9",
    }
}

fn append_dec(s: &mut String, n: u32)
    ensures
        final(s)@ == old(s)@ + dec_digits(n as nat),
    decreases n,
{
    if n >= 10 {
        append_dec(s, n / 10);
        s.append(dec_digit_str(n % 10));
        assert(s@ =~= old(s)@ + dec_digits(n as nat));
    } else {
        s.append(dec_digit_str(n));
        assert(s@ =~= old(s)@ + dec_digits(n as nat));
    }
}

fn append_int(s: &mut String, n: i32)
    ensures
        final(s)@ == old(s)@ + int_text(n as int),
{
    proof {
        reveal_strlit("-");
    }
    if n < 0 {
        s.append("-");
        let magnitude: u32 = if n == i32::MIN {
            2147483648u32
        } else {
            (-n) as u32
        };
        append_dec(s, magnitude);
        assert(s@ =~= old(s)@ + int_text(n as int));
    } else {
        append_dec(s, n as u32);
    }
}

/// The name of a layout command, as `{:?}` prints it.
pub open spec fn layout_cmd_name(l: LayoutCmd) -> Seq<char> {
    match l {
        LayoutCmd::FocusNext => "FocusNext"@,
        LayoutCmd::FocusPrev => "FocusPrev"@,
        LayoutCmd::SendToTop => "SendToTop"@,
        LayoutCmd::SendToBottom => "SendToBottom"@,
        LayoutCmd::SendUp => "SendUp"@,
        LayoutCmd::SendDown => "SendDown"@,
        LayoutCmd::Shrink => "Shrink"@,
        LayoutCmd::Grow => "Grow"@,
        LayoutCmd::IncreaseMasterCount => "IncreaseMasterCount"@,
        LayoutCmd::DecreaseMasterCount => "DecreaseMasterCount"@,
        LayoutCmd::CycleLayout => "CycleLayout"@,
    }
}

/// The texts of `v`, joined by `sep`.
pub open spec fn join_texts(v: Seq<Seq<char>>, sep: Seq<char>) -> Seq<char>
    decreases v.len(),
{
    if v.len() == 0 {
        Seq::empty()
    } else if v.len() == 1 {
        v[0]
    } else {
        join_texts(v.drop_last(), sep) + sep + v.last()
    }
}

/// The texts of the strings of `v`.
pub open spec fn string_texts(v: Seq<String>) -> Seq<Seq<char>> {
    Seq::new(v.len(), |i: int| v[i]@)
}

/// The texts of the strings of `v`, each as `{:?}` prints it.
pub open spec fn debug_texts(v: Seq<String>) -> Seq<Seq<char>> {
    Seq::new(v.len(), |i: int| debug_text(v[i]@))
}

/// How `{:?}` prints a command.
pub open spec fn cmd_debug(c: Cmd) -> Seq<char>
    decreases c,
{
    match c {
        Cmd::Spawn(args) => "Spawn(["@ + join_texts(debug_texts(args@), ", "@) + "])"@,
        Cmd::Layout(l) => "Layout("@ + layout_cmd_name(l) + ")"@,
        Cmd::CloseFocused => "CloseFocused"@,
        Cmd::ConfirmCommand(prompt, next) => "ConfirmCommand("@ + debug_text(prompt@) + ", "@ + cmd_debug(
            *next,
        ) + ")"@,
        Cmd::GoToWorkSpace(n) => "GoToWorkSpace("@ + int_text(n as int) + ")"@,
        Cmd::MoveFocusedWindowToWorkSpace(n) => "MoveFocusedWindowToWorkSpace("@ + int_text(n as int)
            + ")"@,
        Cmd::Exit(code) => "Exit("@ + int_text(code as int) + ")"@,
    }
}

/// How a command reads: a spawn as its command line in quotes, a layout
/// command by its name, the others as `{:?}` prints them.
pub open spec fn cmd_text(c: Cmd) -> Seq<char> {
    match c {
        Cmd::Spawn(args) => "Spawn('"@ + join_texts(string_texts(args@), " "@) + "')"@,
        Cmd::Layout(l) => "Layout::"@ + layout_cmd_name(l),
        _ => cmd_debug(c),
    }
}

impl LayoutCmd {
    /// The name of the command.
    pub fn name(&self) -> (s: &'static str)
        ensures
            s@ == layout_cmd_name(*self),
    {
        proof {
            reveal_strlit("FocusNext");
            reveal_strlit("FocusPrev");
            reveal_strlit("SendToTop");
            reveal_strlit("SendToBottom");
            reveal_strlit("SendUp");
            reveal_strlit("SendDown");
            reveal_strlit("Shrink");
            reveal_strlit("Grow");
            reveal_strlit("IncreaseMasterCount");
            reveal_strlit("DecreaseMasterCount");
            reveal_strlit("CycleLayout");
        }
        match self {
            LayoutCmd::FocusNext => "FocusNext",
            LayoutCmd::FocusPrev => "FocusPrev",
            LayoutCmd::SendToTop => "SendToTop",
            LayoutCmd::SendToBottom => "SendToBottom",
            LayoutCmd::SendUp => "SendUp",
            LayoutCmd::SendDown => "SendDown",
            LayoutCmd::Shrink => "Shrink",
            LayoutCmd::Grow => "Grow",
            LayoutCmd::IncreaseMasterCount => "IncreaseMasterCount",
            LayoutCmd::DecreaseMasterCount => "DecreaseMasterCount",
            LayoutCmd::CycleLayout => "CycleLayout",
        }
    }
}

/// Appends the texts of `v` (each as `{:?}` prints it where `debug` holds),
/// joined by `sep`.
fn append_joined(s: &mut String, v: &Vec<String>, sep: &str, debug: bool)
    ensures
        final(s)@ == old(s)@ + join_texts(
            if debug {
                debug_texts(v@)
            } else {
                string_texts(v@)
            },
            sep@,
        ),
{
    let ghost texts = if debug {
        debug_texts(v@)
    } else {
        string_texts(v@)
    };
    let n = v.len();
    let mut i: usize = 0;
    while i < n
        invariant
            n == v@.len(),
            texts.len() == n,
            texts == (if debug {
                debug_texts(v@)
            } else {
                string_texts(v@)
            }),
            i <= n,
            s@ == old(s)@ + join_texts(texts.take(i as int), sep@),
        decreases n - i,
    {
        if i > 0 {
            s.append(sep);
        }
        if debug {
            let d = debug_string(v[i].as_str());
            s.append(d.as_str());
        } else {
            s.append(v[i].as_str());
        }
        proof {
            assert(texts.take(i + 1).drop_last() =~= texts.take(i as int));
            if i == 0 {
                assert(texts.take(1) =~= seq![texts[0]]);
                assert(join_texts(texts.take(0), sep@) =~= Seq::<char>::empty());
            }
        }
        assert(s@ =~= old(s)@ + join_texts(texts.take(i + 1), sep@));
        i = i + 1;
    }
    assert(texts.take(n as int) =~= texts);
}

impl Cmd {
    /// Appends how `{:?}` prints the command.
    fn append_debug(&self, s: &mut String)
        ensures
            final(s)@ == old(s)@ + cmd_debug(*self),
        decreases self,
    {
        proof {
            reveal_strlit("Spawn([");
            reveal_strlit(", ");
            reveal_strlit("])");
            reveal_strlit("Layout(");
            reveal_strlit(")");
            reveal_strlit("CloseFocused");
            reveal_strlit("ConfirmCommand(");
            reveal_strlit("GoToWorkSpace(");
            reveal_strlit("MoveFocusedWindowToWorkSpace(");
            reveal_strlit("Exit(");
        }
        match self {
            Cmd::Spawn(args) => {
                s.append("Spawn([");
                append_joined(s, args, ", ", true);
                s.append("])");
            },
            Cmd::Layout(l) => {
                s.append("Layout(");
                s.append(l.name());
                s.append(")");
            },
            Cmd::CloseFocused => {
                s.append("CloseFocused");
            },
            Cmd::ConfirmCommand(prompt, next) => {
                s.append("ConfirmCommand(");
                let d = debug_string(prompt.as_str());
                s.append(d.as_str());
                s.append(", ");
                next.append_debug(s);
                s.append(")");
            },
            Cmd::GoToWorkSpace(n) => {
                s.append("GoToWorkSpace(");
                append_int(s, *n as i32);
                s.append(")");
            },
            Cmd::MoveFocusedWindowToWorkSpace(n) => {
                s.append("MoveFocusedWindowToWorkSpace(");
                append_int(s, *n as i32);
                s.append(")");
            },
            Cmd::Exit(code) => {
                s.append("Exit(");
                append_int(s, *code);
                s.append(")");
            },
        }
        assert(s@ =~= old(s)@ + cmd_debug(*self));
    }

    /// How the command reads in messages: a spawn as `Spawn('...')` with its
    /// segments joined by spaces, a layout command as `Layout::` and its name,
    /// the others as `{:?}` prints them.
    pub fn to_string(&self) -> (s: String)
        ensures
            s@ == cmd_text(*self),
    {
        proof {
            reveal_strlit("Spawn('");
            reveal_strlit(" ");
            reveal_strlit("')");
            reveal_strlit("Layout::");
        }
        let mut s = String::new();
        match self {
            Cmd::Spawn(args) => {
                s.append("Spawn('");
                append_joined(&mut s, args, " ", false);
                s.append("')");
            },
            Cmd::Layout(l) => {
                s.append("Layout::");
                s.append(l.name());
            },
            _ => {
                self.append_debug(&mut s);
            },
        }
        assert(s@ =~= cmd_text(*self));
        s
    }
}

} // verus!
