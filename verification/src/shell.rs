//! The shell: splitting a command line into words, the command table, and
//! running a command, whose output goes to the screen's [`Writer`].
use vstd::prelude::*;
use vstd::string::StringSliceAdditionalSpecFns;
use arrayvec::ArrayVec;
use crate::vga::{write_bytes_spec, Screen, Writer, COLOR_BG, FB_LEN};

verus! {

#[verifier::external_type_specification]
#[verifier::external_body]
#[verifier::reject_recursive_types(T)]
pub struct ExArrayVec<T, const CAP: usize>(ArrayVec<T, CAP>);

/// Most arguments a command line can carry after the command's name.
pub const MAX_ARGS: usize = 16;

/// The arguments held in an argument list, in order.
pub uninterp spec fn arg_list_items(v: ArrayVec<String, 16>) -> Seq<Seq<char>>;

/// `ArrayVec::new`: an empty list.
#[verifier::external_body]
fn arg_list_new() -> (v: ArrayVec<String, 16>)
    ensures
        arg_list_items(v) == Seq::<Seq<char>>::empty(),
{
    ArrayVec::new()
}

/// `ArrayVec::push`: appends `s`. It panics when the list is full, which
/// `requires` leaves out.
#[verifier::external_body]
fn arg_list_push(v: &mut ArrayVec<String, 16>, s: String)
    requires
        arg_list_items(*old(v)).len() < 16,
    ensures
        arg_list_items(*final(v)) == arg_list_items(*old(v)).push(s@),
{
    v.push(s)
}

/// Indexing an `ArrayVec` (through its slice): the item at `i`. Indexing
/// panics past the end, which `requires` leaves out.
#[verifier::external_body]
fn arg_list_get(v: &ArrayVec<String, 16>, i: usize) -> (s: &String)
    requires
        i < arg_list_items(*v).len(),
    ensures
        s@ == arg_list_items(*v)[i as int],
{
    &v[i]
}

/// `ArrayVec::len`: the number of items held.
#[verifier::external_body]
fn arg_list_len(v: &ArrayVec<String, 16>) -> (n: usize)
    ensures
        n == arg_list_items(*v).len(),
{
    v.len()
}

/// Whether `c` has the Unicode White_Space property.
pub open spec fn is_white_space(c: char) -> bool {
    let u = c as u32;
    (0x9 <= u && u <= 0xd) || u == 0x20 || u == 0x85 || u == 0xa0 || u == 0x1680 || (0x2000 <= u
        && u <= 0x200a) || u == 0x2028 || u == 0x2029 || u == 0x202f || u == 0x205f || u == 0x3000
}

/// Whether `c` is Unicode white space, as `char::is_whitespace` decides.
pub fn is_white_space_char(c: char) -> (ws: bool)
    ensures
        ws == is_white_space(c),
{
    let u = c as u32;
    (0x9 <= u && u <= 0xd) || u == 0x20 || u == 0x85 || u == 0xa0 || u == 0x1680 || (0x2000 <= u
        && u <= 0x200a) || u == 0x2028 || u == 0x2029 || u == 0x202f || u == 0x205f || u == 0x3000
}

/// The words of `s`: its maximal runs of characters that are not white
/// space, in order.
pub open spec fn split_words(s: Seq<char>) -> Seq<Seq<char>>
    decreases s.len(),
{
    if s.len() == 0 {
        Seq::empty()
    } else {
        let w = split_words(s.drop_last());
        let c = s.last();
        if is_white_space(c) {
            w
        } else if s.len() >= 2 && !is_white_space(s[s.len() - 2]) {
            w.update(w.len() - 1, w.last().push(c))
        } else {
            w.push(seq![c])
        }
    }
}

/// The characters of each string.
pub open spec fn strings_view(v: Seq<String>) -> Seq<Seq<char>> {
    Seq::new(v.len(), |i: int| v[i]@)
}

/// The words of `s`, split at white space as `str::split_whitespace` does.
pub fn split_whitespace(s: &str) -> (words: Vec<String>)
    ensures
        strings_view(words@) == split_words(s@),
{
    let n = s.unicode_len();
    let mut words: Vec<String> = Vec::new();
    let mut start: usize = 0;
    let mut in_word = false;
    let mut i: usize = 0;
    while i < n
        invariant
            n == s@.len(),
            i <= n,
            in_word ==> start < i,
            in_word ==> (start == 0 || is_white_space(s@[start - 1])),
            in_word ==> forall|k: int| start <= k < i ==> !is_white_space(#[trigger] s@[k]),
            !in_word ==> (i == 0 || is_white_space(s@[i - 1])),
            split_words(s@.subrange(0, i as int)) == if in_word {
                strings_view(words@).push(s@.subrange(start as int, i as int))
            } else {
                strings_view(words@)
            },
        decreases n - i,
    {
        let c = s.get_char(i);
        let ghost t = s@.subrange(0, i as int);
        let ghost t1 = s@.subrange(0, i + 1);
        assert(t1.drop_last() =~= t);
        assert(t1.last() == c);
        if is_white_space_char(c) {
            if in_word {
                let w = s.substring_char(start, i).to_owned();
                let ghost before = words@;
                words.push(w);
                assert(strings_view(words@) =~= strings_view(before).push(s@.subrange(start as int, i as int)));
                in_word = false;
            }
        } else {
            if in_word {
                proof {
                    assert(t1.len() >= 2 && !is_white_space(t1[t1.len() - 2]));
                    assert(s@.subrange(start as int, i + 1) =~= s@.subrange(start as int, i as int).push(c));
                    assert(strings_view(words@).push(s@.subrange(start as int, i + 1)) =~= strings_view(
                        words@,
                    ).push(s@.subrange(start as int, i as int)).update(
                        strings_view(words@).len() as int,
                        s@.subrange(start as int, i as int).push(c),
                    ));
                }
            } else {
                proof {
                    assert(s@.subrange(i as int, i + 1) =~= seq![c]);
                }
                start = i;
                in_word = true;
            }
        }
        i = i + 1;
    }
    assert(s@.subrange(0, n as int) =~= s@);
    if in_word {
        let w = s.substring_char(start, n).to_owned();
        let ghost before = words@;
        words.push(w);
        assert(strings_view(words@) =~= strings_view(before).push(s@.subrange(start as int, n as int)));
    }
    words
}

/// Splits a command line into the command's name and its arguments, or
/// `None` for a line without words. The line may carry at most
/// [`MAX_ARGS`] arguments: collecting more into the bounded list panics.
pub fn parse_command_line(input: &str) -> (parsed: Option<(String, ArrayVec<String, 16>)>)
    requires
        split_words(input@).len() <= MAX_ARGS + 1,
    ensures
        parsed is None <==> split_words(input@).len() == 0,
        parsed matches Some((name, args)) ==> name@ == split_words(input@)[0] && arg_list_items(args)
            == split_words(input@).subrange(1, split_words(input@).len() as int),
{
    let mut words = split_whitespace(input);
    if words.len() == 0 {
        return None;
    }
    let ghost all = strings_view(words@);
    let name = words.remove(0);
    let mut args = arg_list_new();
    let mut k: usize = 1;
    while words.len() > 0
        invariant
            all.len() <= 17,
            1 <= k <= all.len(),
            words@.len() == all.len() - k,
            forall|j: int| 0 <= j < words@.len() ==> #[trigger] words@[j]@ == all[j + k],
            arg_list_items(args) == all.subrange(1, k as int),
        decreases words@.len(),
    {
        let w = words.remove(0);
        let ghost before = arg_list_items(args);
        arg_list_push(&mut args, w);
        assert(all.subrange(1, k + 1) =~= before.push(all[k as int]));
        k = k + 1;
    }
    Some((name, args))
}

/// The commands the shell knows.
#[derive(Copy, Clone, Debug, PartialEq, Eq, Structural)]
pub enum CommandKind {
    /// Clears the screen.
    Clear,
    /// Shows the help text.
    Help,
    /// Lists the commands.
    Commands,
    /// Starts DOOM.
    Doom,
    /// Writes its arguments, separated by spaces, and a line feed.
    Echo,
}

/// A command of the shell: the name that runs it and what it does.
#[derive(Copy, Clone, Debug)]
pub struct Command {
    pub name: &'static str,
    pub kind: CommandKind,
}

/// The names of the commands, in table order.
pub open spec fn command_names() -> Seq<Seq<char>> {
    seq!["clear"@, "help"@, "commands"@, "doom"@, "echo"@]
}

/// The command kinds, in table order.
pub open spec fn command_kinds() -> Seq<CommandKind> {
    seq![CommandKind::Clear, CommandKind::Help, CommandKind::Commands, CommandKind::Doom, CommandKind::Echo]
}

/// The command table.
pub fn command_table() -> (table: Vec<Command>)
    ensures
        table@.len() == 5,
        forall|i: int|
            0 <= i < 5 ==> (#[trigger] table@[i]).name@ == command_names()[i] && table@[i].kind
                == command_kinds()[i],
{
    let mut table: Vec<Command> = Vec::new();
    table.push(Command { name: "clear", kind: CommandKind::Clear });
    table.push(Command { name: "help", kind: CommandKind::Help });
    table.push(Command { name: "commands", kind: CommandKind::Commands });
    table.push(Command { name: "doom", kind: CommandKind::Doom });
    table.push(Command { name: "echo", kind: CommandKind::Echo });
    table
}

/// The command with the given name: the first table entry that matches.
pub open spec fn command_named(name: Seq<char>) -> Option<CommandKind> {
    if name == command_names()[0] {
        Some(command_kinds()[0])
    } else if name == command_names()[1] {
        Some(command_kinds()[1])
    } else if name == command_names()[2] {
        Some(command_kinds()[2])
    } else if name == command_names()[3] {
        Some(command_kinds()[3])
    } else if name == command_names()[4] {
        Some(command_kinds()[4])
    } else {
        None
    }
}

/// Whether two strings hold the same characters.
pub fn str_equal(a: &str, b: &str) -> (eq: bool)
    ensures
        eq == (a@ == b@),
{
    let n = a.unicode_len();
    if n != b.unicode_len() {
        return false;
    }
    let mut i: usize = 0;
    while i < n
        invariant
            n == a@.len(),
            n == b@.len(),
            i <= n,
            forall|j: int| 0 <= j < i ==> a@[j] == b@[j],
        decreases n - i,
    {
        if a.get_char(i) != b.get_char(i) {
            return false;
        }
        i = i + 1;
    }
    assert(a@ =~= b@);
    true
}

/// Looks a command up by name in the command table.
pub fn find_command(name: &str) -> (kind: Option<CommandKind>)
    ensures
        kind == command_named(name@),
{
    let table = command_table();
    let mut i: usize = 0;
    while i < table.len()
        invariant
            table@.len() == 5,
            forall|j: int|
                0 <= j < 5 ==> (#[trigger] table@[j]).name@ == command_names()[j] && table@[j].kind
                    == command_kinds()[j],
            i <= 5,
            forall|j: int| 0 <= j < i ==> name@ != command_names()[j],
        decreases 5 - i,
    {
        if str_equal(table[i].name, name) {
            return Some(table[i].kind);
        }
        i = i + 1;
    }
    None
}

/// The text `help` shows.
pub const HELP_TEXT: &'static str = "Hello there! Welcome to the xv0 shell\nHere is are the documented commands:\n  clear   - Clear the screen\n  help    - Show this help message\n  doom    - DOOM\n  commands        - List commands\n  echo [string]   - Echo input\n";

/// What `clear` shows when it is given arguments.
pub const CLEAR_USAGE: &'static str = "Usage: clear\n";

/// The text before the name of an unknown command.
pub const UNKNOWN_COMMAND: &'static str = "Unknown command: ";

/// A line feed.
pub const NEWLINE: &'static str = "\n";

/// The screen after writing the characters `text`.
pub open spec fn write_text(s: Screen, text: Seq<char>) -> Screen {
    write_bytes_spec(s, vstd::utf8::encode_utf8(text))
}

/// The screen after writing each of `lines` followed by a line feed.
pub open spec fn write_lines(s: Screen, lines: Seq<Seq<char>>) -> Screen
    decreases lines.len(),
{
    if lines.len() == 0 {
        s
    } else {
        write_text(write_text(write_lines(s, lines.drop_last()), lines.last()), NEWLINE@)
    }
}

/// A blank screen with the cursor at the top left.
pub open spec fn cleared_screen() -> Screen {
    Screen { col: 0, row: 0, pixels: Seq::new(FB_LEN as nat, |i: int| COLOR_BG) }
}

/// A space.
pub const SPACE: &'static str = " ";

/// The screen after writing `words` separated by single spaces.
pub open spec fn write_words(s: Screen, words: Seq<Seq<char>>) -> Screen
    decreases words.len(),
{
    if words.len() == 0 {
        s
    } else if words.len() == 1 {
        write_text(s, words[0])
    } else {
        write_text(write_text(write_words(s, words.drop_last()), SPACE@), words.last())
    }
}

/// The screen after running a command with arguments `args`. Starting DOOM
/// leaves the screen to the game: the shell itself writes nothing.
pub open spec fn run_command_spec(s: Screen, kind: CommandKind, args: Seq<Seq<char>>) -> Screen {
    match kind {
        CommandKind::Clear => if args.len() == 0 { cleared_screen() } else { write_text(s, CLEAR_USAGE@) },
        CommandKind::Help => write_text(s, HELP_TEXT@),
        CommandKind::Commands => write_lines(s, command_names()),
        CommandKind::Doom => s,
        CommandKind::Echo => write_text(write_words(s, args), NEWLINE@),
    }
}

/// What the shell does after a command line besides writing to the screen.
#[derive(Copy, Clone, Debug, PartialEq, Eq, Structural)]
pub enum ShellAction {
    /// Nothing more: prompt for the next line.
    Prompt,
    /// Start DOOM.
    StartDoom,
}

/// The screen after the shell runs the command line `input`: nothing for
/// an empty line, the command's output for a known name, and an
/// "Unknown command" line otherwise.
pub open spec fn dispatch_spec(s: Screen, input: Seq<char>) -> Screen {
    let words = split_words(input);
    if words.len() == 0 {
        s
    } else {
        match command_named(words[0]) {
            Some(kind) => run_command_spec(s, kind, words.subrange(1, words.len() as int)),
            None => write_text(write_text(write_text(s, UNKNOWN_COMMAND@), words[0]), NEWLINE@),
        }
    }
}

/// `clear`: blanks the screen; with arguments it shows its usage instead.
pub fn clear(writer: &mut Writer, args: &ArrayVec<String, 16>)
    requires
        old(writer).wf(),
    ensures
        final(writer).wf(),
        final(writer).screen() == run_command_spec(old(writer).screen(), CommandKind::Clear, arg_list_items(*args)),
{
    if arg_list_len(args) != 0 {
        writer.write_str(CLEAR_USAGE);
        return;
    }
    writer.clear_screen();
}

/// `help`: shows the help text.
pub fn help(writer: &mut Writer)
    requires
        old(writer).wf(),
    ensures
        final(writer).wf(),
        final(writer).screen() == run_command_spec(old(writer).screen(), CommandKind::Help, Seq::empty()),
{
    writer.write_str(HELP_TEXT);
}

/// `commands`: lists the command names, one per line.
pub fn commands(writer: &mut Writer)
    requires
        old(writer).wf(),
    ensures
        final(writer).wf(),
        final(writer).screen() == run_command_spec(
            old(writer).screen(),
            CommandKind::Commands,
            Seq::empty(),
        ),
{
    let table = command_table();
    let mut i: usize = 0;
    while i < table.len()
        invariant
            old(writer).wf(),
            writer.wf(),
            table@.len() == 5,
            forall|j: int|
                0 <= j < 5 ==> (#[trigger] table@[j]).name@ == command_names()[j] && table@[j].kind
                    == command_kinds()[j],
            i <= 5,
            writer.screen() == write_lines(old(writer).screen(), command_names().subrange(0, i as int)),
        decreases 5 - i,
    {
        writer.write_str(table[i].name);
        writer.write_str(NEWLINE);
        assert(command_names().subrange(0, i + 1).drop_last() =~= command_names().subrange(0, i as int));
        i = i + 1;
    }
    assert(command_names().subrange(0, 5) =~= command_names());
}

/// `echo`: writes its arguments separated by single spaces, then a line
/// feed.
pub fn echo(writer: &mut Writer, args: &ArrayVec<String, 16>)
    requires
        old(writer).wf(),
    ensures
        final(writer).wf(),
        final(writer).screen() == run_command_spec(old(writer).screen(), CommandKind::Echo, arg_list_items(*args)),
{
    let n = arg_list_len(args);
    let ghost items = arg_list_items(*args);
    let mut i: usize = 0;
    while i < n
        invariant
            n == items.len(),
            items == arg_list_items(*args),
            i <= n,
            old(writer).wf(),
            writer.wf(),
            writer.screen() == write_words(old(writer).screen(), items.subrange(0, i as int)),
        decreases n - i,
    {
        if i > 0 {
            writer.write_str(SPACE);
        }
        writer.write_str(arg_list_get(args, i).as_str());
        assert(items.subrange(0, i + 1).drop_last() =~= items.subrange(0, i as int));
        assert(items.subrange(0, i + 1).last() == items[i as int]);
        i = i + 1;
    }
    assert(items.subrange(0, n as int) =~= items);
    writer.write_str(NEWLINE);
}

/// Whether the command line `input` names the `doom` command.
pub open spec fn starts_doom(input: Seq<char>) -> bool {
    split_words(input).len() > 0 && command_named(split_words(input)[0]) == Some(CommandKind::Doom)
}

/// Runs the command line `input`; see [`dispatch_spec`]. Returns whether
/// DOOM is to start. The line may carry at most [`MAX_ARGS`] arguments.
pub fn dispatch(writer: &mut Writer, input: &str) -> (action: ShellAction)
    requires
        old(writer).wf(),
        split_words(input@).len() <= MAX_ARGS + 1,
    ensures
        final(writer).wf(),
        final(writer).screen() == dispatch_spec(old(writer).screen(), input@),
        action == (if starts_doom(input@) { ShellAction::StartDoom } else { ShellAction::Prompt }),
{
    match parse_command_line(input) {
        None => ShellAction::Prompt,
        Some((name, args)) => {
            match find_command(name.as_str()) {
                Some(CommandKind::Clear) => {
                    clear(writer, &args);
                    ShellAction::Prompt
                },
                Some(CommandKind::Help) => {
                    help(writer);
                    ShellAction::Prompt
                },
                Some(CommandKind::Commands) => {
                    commands(writer);
                    ShellAction::Prompt
                },
                Some(CommandKind::Doom) => ShellAction::StartDoom,
                Some(CommandKind::Echo) => {
                    echo(writer, &args);
                    ShellAction::Prompt
                },
                None => {
                    writer.write_str(UNKNOWN_COMMAND);
                    writer.write_str(name.as_str());
                    writer.write_str(NEWLINE);
                    ShellAction::Prompt
                },
            }
        },
    }
}

/// Every word is non-empty and holds no white space.
pub proof fn lemma_words_are_nonblank(s: Seq<char>)
    ensures
        forall|i: int| 0 <= i < split_words(s).len() ==> (#[trigger] split_words(s)[i]).len() > 0,
        forall|i: int, j: int|
            0 <= i < split_words(s).len() && 0 <= j < split_words(s)[i].len() ==> !is_white_space(
                #[trigger] split_words(s)[i][j],
            ),
    decreases s.len(),
{
    if s.len() > 0 {
        lemma_words_are_nonblank(s.drop_last());
        let w = split_words(s.drop_last());
        let c = s.last();
        if !is_white_space(c) && s.len() >= 2 && !is_white_space(s[s.len() - 2]) {
            lemma_last_word_ends_at_end(s.drop_last());
            let v = split_words(s);
            assert forall|i: int, j: int|
                0 <= i < v.len() && 0 <= j < v[i].len() implies !is_white_space(#[trigger] v[i][j]) by {
                if i == w.len() - 1 && j == w.last().len() {
                    assert(v[i][j] == c);
                } else if i == w.len() - 1 {
                    assert(v[i][j] == w[i][j]);
                }
            }
        }
    }
}

/// A string that ends in a character other than white space has at least
/// one word.
pub proof fn lemma_last_word_ends_at_end(s: Seq<char>)
    requires
        s.len() > 0,
        !is_white_space(s.last()),
    ensures
        split_words(s).len() > 0,
    decreases s.len(),
{
    if s.len() >= 2 && !is_white_space(s[s.len() - 2]) {
        lemma_last_word_ends_at_end(s.drop_last());
    }
}

/// A command is found only by its exact name: each of `clear`, `help`,
/// `commands`, `doom` and `echo` names its own command, and every other
/// name, a longer one that starts with a command's name among them, names
/// none.
pub proof fn lemma_command_lookup_is_exact(name: Seq<char>)
    ensures
        (command_named(name) == Some(CommandKind::Clear)) <==> name == "clear"@,
        (command_named(name) == Some(CommandKind::Help)) <==> name == "help"@,
        (command_named(name) == Some(CommandKind::Commands)) <==> name == "commands"@,
        (command_named(name) == Some(CommandKind::Doom)) <==> name == "doom"@,
        (command_named(name) == Some(CommandKind::Echo)) <==> name == "echo"@,
        (command_named(name) is None) <==> (name != "clear"@ && name != "help"@ && name != "commands"@
            && name != "doom"@ && name != "echo"@),
{
    reveal_strlit("clear");
    reveal_strlit("help");
    reveal_strlit("commands");
    reveal_strlit("doom");
    reveal_strlit("echo");
    assert("clear"@[0] != "help"@[0]);
    assert("clear"@[0] != "doom"@[0]);
    assert("clear"@[0] != "echo"@[0]);
    assert("help"@[0] != "doom"@[0]);
    assert("help"@[0] != "echo"@[0]);
    assert("doom"@[0] != "echo"@[0]);
    assert("commands"@[1] != "clear"@[1]);
    assert("commands"@.len() != "help"@.len());
    assert("commands"@.len() != "doom"@.len());
    assert("commands"@.len() != "echo"@.len());
}

/// A command line whose first word is not a command's exact name makes the
/// shell write "Unknown command: ", the word and a line feed, and nothing
/// else, and leaves DOOM alone.
pub proof fn lemma_unknown_name_is_reported(s: Screen, input: Seq<char>)
    requires
        split_words(input).len() > 0,
        split_words(input)[0] != "clear"@,
        split_words(input)[0] != "help"@,
        split_words(input)[0] != "commands"@,
        split_words(input)[0] != "doom"@,
        split_words(input)[0] != "echo"@,
    ensures
        dispatch_spec(s, input) == write_text(
            write_text(write_text(s, UNKNOWN_COMMAND@), split_words(input)[0]),
            NEWLINE@,
        ),
        !starts_doom(input),
{
    lemma_command_lookup_is_exact(split_words(input)[0]);
}

} // verus!
