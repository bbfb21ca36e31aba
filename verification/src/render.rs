//! Text for a listing: names with or without colour, and the detailed line of
//! the long form.

use crate::mode::{permission_text, CrustFileKind};
use crate::calendar::{push_time, time_text};
use crate::numbers::{decimal, human_size, human_size_text, push_decimal};
use crate::record::CrustFileMetadata;
use vstd::prelude::*;
use vstd::string::StringExecFns;

verus! {

/// Whether names of this kind are shown in a colour of their own. Regular
/// files and entries of unknown kind keep the terminal's default.
pub open spec fn has_colour(kind: CrustFileKind) -> bool {
    !(kind is Regular) && !(kind is Unknown)
}

/// The escape sequence that switches to the colour of a kind: blue for
/// directories, cyan for symbolic links, yellow for devices and pipes,
/// magenta for sockets.
pub open spec fn kind_colour(kind: CrustFileKind) -> Seq<char> {
    match kind {
        CrustFileKind::Directory => "\x1b[34m"@,
        CrustFileKind::Symlink => "\x1b[36m"@,
        CrustFileKind::CharDevice => "\x1b[33m"@,
        CrustFileKind::BlockDevice => "\x1b[33m"@,
        CrustFileKind::Fifo => "\x1b[33m"@,
        CrustFileKind::Socket => "\x1b[35m"@,
        CrustFileKind::Regular => Seq::empty(),
        CrustFileKind::Unknown => Seq::empty(),
    }
}

/// The escape sequence that switches back to the default colour.
pub open spec fn colour_reset() -> Seq<char> {
    "\x1b[0m"@
}

/// A name in the colour of its kind: wrapped in the kind's escape sequence
/// and the reset, or left as it is where the kind has no colour.
pub open spec fn coloured_name(kind: CrustFileKind, name: Seq<char>) -> Seq<char> {
    if has_colour(kind) {
        kind_colour(kind) + name + colour_reset()
    } else {
        name
    }
}

/// A name as it is shown: coloured when `colour` is set, plain when not.
pub open spec fn shown_name(record: CrustFileMetadata, colour: bool) -> Seq<char> {
    if colour {
        coloured_name(record.kind, record.name@)
    } else {
        record.name@
    }
}

/// Colour is used only where it was asked for and the output can show it.
pub open spec fn colour_in_effect(requested: bool, supported: bool) -> bool {
    requested && supported
}

/// Decides whether colour is used: never on an output that cannot show it.
pub fn use_colour(requested: bool, supported: bool) -> (colour: bool)
    ensures
        colour == colour_in_effect(requested, supported),
{
    requested && supported
}

/// A size as the long form shows it: scaled to a unit, or the plain number of
/// bytes.
pub open spec fn size_text(size: nat, human_readable: bool) -> Seq<char> {
    if human_readable {
        human_size_text(size)
    } else {
        decimal(size)
    }
}

/// The long-form line of a record: permission text, owner id, size,
/// modification time as a UTC date and time, and the name, separated by
/// single spaces.
pub open spec fn long_line(record: CrustFileMetadata, human_readable: bool, colour: bool) -> Seq<
    char,
> {
    permission_text(record.permissions) + seq![' '] + decimal(record.owner as nat) + seq![' ']
        + size_text(record.size as nat, human_readable) + seq![' '] + time_text(
        record.last_modified as int,
    ) + seq![' '] + shown_name(record, colour)
}

/// The escape sequence for a kind that has a colour.
fn colour_text(kind: CrustFileKind) -> (code: &'static str)
    requires
        has_colour(kind),
    ensures
        code@ == kind_colour(kind),
{
    match kind {
        CrustFileKind::Directory => "\x1b[34m",
        CrustFileKind::Symlink => "\x1b[36m",
        CrustFileKind::Socket => "\x1b[35m",
        _ => "\x1b[33m",
    }
}

/// Appends a record's name to `out` as it is shown.
pub fn push_shown_name(out: &mut String, record: &CrustFileMetadata, colour: bool)
    ensures
        final(out)@ == old(out)@ + shown_name(*record, colour),
{
    let coloured = colour && match record.kind {
        CrustFileKind::Regular => false,
        CrustFileKind::Unknown => false,
        _ => true,
    };
    if coloured {
        out.append(colour_text(record.kind));
        out.append(record.name.as_str());
        out.append("\x1b[0m");
        assert(out@ =~= old(out)@ + shown_name(*record, colour));
    } else {
        out.append(record.name.as_str());
    }
}

/// The names of a listing, each in the colour of its kind.
pub fn colour_code(files: &Vec<CrustFileMetadata>) -> (names: Vec<String>)
    ensures
        names@.len() == files@.len(),
        forall|i: int|
            0 <= i < files@.len() ==> (#[trigger] names@[i])@ == coloured_name(
                files@[i].kind,
                files@[i].name@,
            ),
{
    display_names(files, true)
}

/// The names of a listing as they are shown, coloured or plain.
pub fn display_names(files: &Vec<CrustFileMetadata>, colour: bool) -> (names: Vec<String>)
    ensures
        names@.len() == files@.len(),
        forall|i: int|
            0 <= i < files@.len() ==> (#[trigger] names@[i])@ == shown_name(files@[i], colour),
{
    let mut names: Vec<String> = Vec::new();
    let mut i: usize = 0;
    while i < files.len()
        invariant
            i <= files.len(),
            names@.len() == i,
            forall|k: int| 0 <= k < i ==> (#[trigger] names@[k])@ == shown_name(files@[k], colour),
        decreases files.len() - i,
    {
        let mut text = String::new();
        push_shown_name(&mut text, &files[i], colour);
        assert(text@ =~= shown_name(files@[i as int], colour));
        names.push(text);
        i += 1;
    }
    names
}

/// The long-form line of one record.
pub fn long_format(record: &CrustFileMetadata, human_readable: bool, colour: bool) -> (line:
    String)
    ensures
        line@ == long_line(*record, human_readable, colour),
{
    proof {
        reveal_strlit(" ");
    }
    let mut line = record.permissions.as_string();
    line.append(" ");
    push_decimal(&mut line, record.owner as u128);
    line.append(" ");
    if human_readable {
        let scaled = human_size(record.size);
        line.append(scaled.as_str());
    } else {
        push_decimal(&mut line, record.size);
    }
    line.append(" ");
    push_time(&mut line, record.last_modified);
    line.append(" ");
    push_shown_name(&mut line, record, colour);
    assert(line@ =~= long_line(*record, human_readable, colour));
    line
}

/// The long form of a listing: one line per record, in the listing's order.
pub fn long_lines(files: &Vec<CrustFileMetadata>, human_readable: bool, colour: bool) -> (lines:
    Vec<String>)
    ensures
        lines@.len() == files@.len(),
        forall|i: int|
            0 <= i < files@.len() ==> (#[trigger] lines@[i])@ == long_line(
                files@[i],
                human_readable,
                colour,
            ),
{
    let mut lines: Vec<String> = Vec::new();
    let mut i: usize = 0;
    while i < files.len()
        invariant
            i <= files.len(),
            lines@.len() == i,
            forall|k: int|
                0 <= k < i ==> (#[trigger] lines@[k])@ == long_line(
                    files@[k],
                    human_readable,
                    colour,
                ),
        decreases files.len() - i,
    {
        let line = long_format(&files[i], human_readable, colour);
        lines.push(line);
        i += 1;
    }
    lines
}

/// Colouring loses nothing: the name stands unchanged inside its coloured
/// form, directly behind the kind's escape sequence.
pub proof fn lemma_colour_keeps_name(kind: CrustFileKind, name: Seq<char>)
    ensures
        has_colour(kind) ==> coloured_name(kind, name).subrange(
            kind_colour(kind).len() as int,
            (kind_colour(kind).len() + name.len()) as int,
        ) == name,
        !has_colour(kind) ==> coloured_name(kind, name) == name,
{
    if has_colour(kind) {
        assert(coloured_name(kind, name).subrange(
            kind_colour(kind).len() as int,
            (kind_colour(kind).len() + name.len()) as int,
        ) =~= name);
    }
}

/// Directories, symbolic links and regular files are told apart by colour.
pub proof fn lemma_colours_distinct()
    ensures
        kind_colour(CrustFileKind::Directory) != kind_colour(CrustFileKind::Symlink),
        kind_colour(CrustFileKind::Directory) != kind_colour(CrustFileKind::Regular),
        kind_colour(CrustFileKind::Symlink) != kind_colour(CrustFileKind::Regular),
{
    reveal_strlit("\x1b[34m");
    reveal_strlit("\x1b[36m");
    assert("\x1b[34m"@[2] == '3' && "\x1b[34m"@[3] == '4');
    assert("\x1b[36m"@[3] == '6');
    assert("\x1b[34m"@.len() == 5);
    assert(Seq::<char>::empty().len() == 0);
}

} // verus!
