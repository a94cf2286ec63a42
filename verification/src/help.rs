//! The help table's data: one row per command, and the column widths the
//! table is laid out with. Rendering the table is the presentation layer's
//! work.

use vstd::prelude::*;
use crate::text::{lines_of, max2, max_line_len, longest_line_len};

verus! {

/// One row of the help table: a command and what it does.
pub struct HelpItem {
    pub command: String,
    pub description: String,
}

/// The mathematical content of a [`HelpItem`].
pub struct HelpItemView {
    pub command: Seq<char>,
    pub description: Seq<char>,
}

impl View for HelpItem {
    type V = HelpItemView;

    open spec fn view(&self) -> HelpItemView {
        HelpItemView { command: self.command@, description: self.description@ }
    }
}

impl HelpItem {
    /// The description column of this row.
    pub fn description(&self) -> (r: &str)
        ensures
            r@ == self@.description,
    {
        self.description.as_str()
    }

    /// The command column of this row.
    pub fn command(&self) -> (r: &str)
        ensures
            r@ == self@.command,
    {
        self.command.as_str()
    }

    /// The columns of this row, in display order.
    pub fn ref_array(&self) -> (r: [&String; 2])
        ensures
            r[0]@ == self@.command,
            r[1]@ == self@.description,
    {
        [&self.command, &self.description]
    }
}

/// Which of the two help listings have arrived so far.
pub struct FillState {
    pub help: bool,
    pub group_help: bool,
}

impl FillState {
    /// Neither listing has arrived yet.
    pub fn new() -> (r: FillState)
        ensures
            !r.help,
            !r.group_help,
    {
        FillState { help: false, group_help: false }
    }
}

/// The widest command of the rows.
pub open spec fn spec_max_command_len(items: Seq<HelpItemView>) -> int
    decreases items.len(),
{
    if items.len() == 0 {
        0
    } else {
        max2(items[0].command.len() as int, spec_max_command_len(items.drop_first()))
    }
}

/// The widest description line of the rows.
pub open spec fn spec_max_description_len(items: Seq<HelpItemView>) -> int
    decreases items.len(),
{
    if items.len() == 0 {
        0
    } else {
        max2(
            max_line_len(lines_of(items[0].description)),
            spec_max_description_len(items.drop_first()),
        )
    }
}

/// A widest command width is never negative.
proof fn lemma_max_command_nonneg(items: Seq<HelpItemView>)
    ensures
        spec_max_command_len(items) >= 0,
    decreases items.len(),
{
    if items.len() > 0 {
        lemma_max_command_nonneg(items.drop_first());
    }
}

/// A widest description width is never negative.
proof fn lemma_max_description_nonneg(items: Seq<HelpItemView>)
    ensures
        spec_max_description_len(items) >= 0,
    decreases items.len(),
{
    if items.len() > 0 {
        lemma_max_description_nonneg(items.drop_first());
    }
}

/// The widths the help table's two columns are laid out with: the widest
/// command and the widest description line, each taken to the column type.
pub fn constraint_len_calculator(items: &[HelpItem]) -> (r: (u16, u16))
    ensures
        r.0 == spec_max_command_len(items@.map_values(|it: HelpItem| it@)) as u16,
        r.1 == spec_max_description_len(items@.map_values(|it: HelpItem| it@)) as u16,
{
    let ghost views = items@.map_values(|it: HelpItem| it@);
    let mut name_len: usize = 0;
    let mut address_len: usize = 0;
    let mut i: usize = 0;
    proof {
        assert(views.skip(0) =~= views);
        lemma_max_command_nonneg(views);
        lemma_max_description_nonneg(views);
    }
    while i < items.len()
        invariant
            views == items@.map_values(|it: HelpItem| it@),
            i <= views.len(),
            max2(name_len as int, spec_max_command_len(views.skip(i as int)))
                == spec_max_command_len(views),
            max2(address_len as int, spec_max_description_len(views.skip(i as int)))
                == spec_max_description_len(views),
        decreases views.len() - i,
    {
        proof {
            assert(views.skip(i as int)[0] == views[i as int]);
            assert(views.skip(i as int).drop_first() =~= views.skip(i + 1));
            lemma_max_command_nonneg(views.skip(i + 1));
            lemma_max_description_nonneg(views.skip(i + 1));
        }
        let cmd_len = items[i].command.as_str().unicode_len();
        if cmd_len > name_len {
            name_len = cmd_len;
        }
        let desc_len = longest_line_len(items[i].description.as_str());
        if desc_len > address_len {
            address_len = desc_len;
        }
        i = i + 1;
    }
    proof {
        assert(views.skip(i as int) =~= Seq::<HelpItemView>::empty());
    }
    #[verifier::truncate]
    let a = name_len as u16;
    #[verifier::truncate]
    let b = address_len as u16;
    (a, b)
}

} // verus!
