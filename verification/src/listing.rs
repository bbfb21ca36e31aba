//! A listing as text: the short form's grid or the long form's lines, chosen
//! by the options, after the filter and sort stages.

use crate::layout::{cell_texts, cell_widths, grid, layout, Cell};
use crate::pipeline::{arrange, arranged, ListingOptions};
use crate::record::CrustFileMetadata;
use crate::render::{
    colour_in_effect, long_line, long_lines, push_shown_name, shown_name, use_colour,
};
use vstd::prelude::*;
use vstd::string::StrSliceExecFns;

verus! {

/// What some lines of text say.
pub open spec fn texts(lines: Seq<String>) -> Seq<Seq<char>> {
    lines.map_values(|line: String| line@)
}

/// The names of a listing as they are shown.
pub open spec fn shown_names(files: Seq<CrustFileMetadata>, colour: bool) -> Seq<Seq<char>> {
    files.map_values(|record: CrustFileMetadata| shown_name(record, colour))
}

/// The shown width of each name of a listing: its number of characters.
pub open spec fn name_widths(files: Seq<CrustFileMetadata>) -> Seq<nat> {
    files.map_values(|record: CrustFileMetadata| record.name@.len())
}

/// The short form: the names only, packed into a grid.
pub open spec fn short_form(files: Seq<CrustFileMetadata>, colour: bool, width: nat) -> Seq<
    Seq<char>,
> {
    grid(shown_names(files, colour), name_widths(files), width)
}

/// The long form: one detailed line per record, in the listing's order.
pub open spec fn long_form(files: Seq<CrustFileMetadata>, human_readable: bool, colour: bool) -> Seq<
    Seq<char>,
> {
    files.map_values(|record: CrustFileMetadata| long_line(record, human_readable, colour))
}

/// The lines that show a listing under the given options, on an output that
/// does or does not support colour, for the given line width.
pub open spec fn rendered(
    files: Seq<CrustFileMetadata>,
    options: ListingOptions,
    colour_supported: bool,
    width: nat,
) -> Seq<Seq<char>> {
    let colour = colour_in_effect(options.color, colour_supported);
    if options.long {
        long_form(files, options.human_readable, colour)
    } else {
        short_form(files, colour, width)
    }
}

/// The short form of a listing, for the given line width.
pub fn short_lines(files: &Vec<CrustFileMetadata>, colour: bool, width: usize) -> (lines: Vec<
    String,
>)
    ensures
        texts(lines@) == short_form(files@, colour, width as nat),
{
    let mut cells: Vec<Cell> = Vec::new();
    let mut i: usize = 0;
    while i < files.len()
        invariant
            i <= files.len(),
            cells@.len() == i,
            forall|k: int|
                0 <= k < i ==> (#[trigger] cells@[k]).text@ == shown_name(files@[k], colour)
                    && cells@[k].width == files@[k].name@.len(),
        decreases files.len() - i,
    {
        let mut text = String::new();
        push_shown_name(&mut text, &files[i], colour);
        assert(text@ =~= shown_name(files@[i as int], colour));
        let width = files[i].name.as_str().unicode_len();
        cells.push(Cell { text, width });
        i += 1;
    }
    assert(cell_texts(cells@) =~= shown_names(files@, colour));
    assert(cell_widths(cells@) =~= name_widths(files@));
    let lines = layout(&cells, width);
    assert(texts(lines@) =~= short_form(files@, colour, width as nat));
    lines
}

/// The lines that show a listing as it stands, under the given options.
/// Colour is left out, without complaint, where the output does not support
/// it.
pub fn render(
    files: &Vec<CrustFileMetadata>,
    options: &ListingOptions,
    colour_supported: bool,
    width: usize,
) -> (lines: Vec<String>)
    ensures
        texts(lines@) == rendered(files@, *options, colour_supported, width as nat),
{
    let colour = use_colour(options.color, colour_supported);
    if options.long {
        let lines = long_lines(files, options.human_readable, colour);
        assert(texts(lines@) =~= long_form(files@, options.human_readable, colour));
        lines
    } else {
        short_lines(files, colour, width)
    }
}

/// Runs the whole pipeline on collected records: filter, sort, then render.
pub fn list(
    files: Vec<CrustFileMetadata>,
    options: &ListingOptions,
    colour_supported: bool,
    width: usize,
) -> (lines: Vec<String>)
    ensures
        texts(lines@) == rendered(
            arranged(files@, options.all, options.sort_by),
            *options,
            colour_supported,
            width as nat,
        ),
{
    let mut files = files;
    arrange(&mut files, options);
    render(&files, options, colour_supported, width)
}

/// The long form shows every record of the listing, one line each, in order;
/// colour changes nothing but the text of the names.
pub proof fn lemma_long_form_lines(
    files: Seq<CrustFileMetadata>,
    human_readable: bool,
    colour: bool,
)
    ensures
        long_form(files, human_readable, colour).len() == files.len(),
        forall|i: int|
            0 <= i < files.len() ==> #[trigger] long_form(files, human_readable, colour)[i]
                == long_line(files[i], human_readable, colour),
{
}

/// On an output without colour support the options' colour flag changes
/// nothing.
pub proof fn lemma_colour_skipped_when_unsupported(
    files: Seq<CrustFileMetadata>,
    options: ListingOptions,
    width: nat,
)
    ensures
        rendered(files, options, false, width) == rendered(
            files,
            (ListingOptions { color: false, ..options }),
            false,
            width,
        ),
{
}

} // verus!
