//! The user table's column widths. Keeping and rendering the table is the
//! presentation layer's work; the widths its columns are laid out with are
//! computed here.

use vstd::prelude::*;
use vstd::string::StringExecFns;
use crate::text::{lines_of, max2, max_line_len, longest_line_len};
use crate::types::{JsonClient, JsonClientView};

verus! {

/// The widest name of the rows.
pub open spec fn spec_max_name_len(items: Seq<JsonClientView>) -> int
    decreases items.len(),
{
    if items.len() == 0 {
        0
    } else {
        max2(items[0].name.len() as int, spec_max_name_len(items.drop_first()))
    }
}

/// The widest call-state line of the rows.
pub open spec fn spec_max_call_state_len(items: Seq<JsonClientView>) -> int
    decreases items.len(),
{
    if items.len() == 0 {
        0
    } else {
        max2(
            max_line_len(lines_of(items[0].call_state)),
            spec_max_call_state_len(items.drop_first()),
        )
    }
}

/// The widest group name of the rows.
pub open spec fn spec_max_group_name_len(items: Seq<JsonClientView>) -> int
    decreases items.len(),
{
    if items.len() == 0 {
        0
    } else {
        max2(items[0].group_name.len() as int, spec_max_group_name_len(items.drop_first()))
    }
}

/// A widest column width is never negative.
proof fn lemma_user_widths_nonneg(items: Seq<JsonClientView>)
    ensures
        spec_max_name_len(items) >= 0,
        spec_max_call_state_len(items) >= 0,
        spec_max_group_name_len(items) >= 0,
    decreases items.len(),
{
    if items.len() > 0 {
        lemma_user_widths_nonneg(items.drop_first());
    }
}

/// The row `r` shows for a reported client: a client in no group gets the
/// fixed placeholder as its group name.
pub open spec fn spec_user_row(c: JsonClientView) -> JsonClientView {
    if c.group_name.len() == 0 {
        JsonClientView {
            name: c.name,
            call_state: c.call_state,
            client_id: c.client_id,
            group_name: "no group"@,
            group_id: c.group_id,
        }
    } else {
        c
    }
}

/// The rows the user table shows for a reported list: each reported client
/// with its group placeholder filled in, and the own row last.
pub fn prepare_user_rows(items: &Vec<JsonClient>, own_client: JsonClient) -> (r: Vec<JsonClient>)
    ensures
        r@.len() == items@.len() + 1,
        forall|j: int| 0 <= j < items@.len() ==> r@[j]@ == spec_user_row(#[trigger] items@[j]@),
        r@[items@.len() as int]@ == own_client@,
{
    let mut out: Vec<JsonClient> = Vec::new();
    let mut i: usize = 0;
    while i < items.len()
        invariant
            i <= items@.len(),
            out@.len() == i,
            forall|j: int| 0 <= j < i ==> out@[j]@ == spec_user_row(#[trigger] items@[j]@),
        decreases items@.len() - i,
    {
        let it = &items[i];
        if it.group_name.as_str().is_empty() {
            out.push(
                JsonClient {
                    name: it.name.clone(),
                    call_state: it.call_state.clone(),
                    client_id: it.client_id.clone(),
                    group_name: String::from_str("no group"),
                    group_id: it.group_id.clone(),
                },
            );
        } else {
            out.push(it.duplicate());
        }
        i = i + 1;
    }
    out.push(own_client);
    out
}

/// The widths the user table's three columns are laid out with: the widest
/// name, the widest call-state line and the widest group name, each taken
/// to the column type.
pub fn constraint_len_calculator(items: &[JsonClient]) -> (r: (u16, u16, u16))
    ensures
        r.0 == spec_max_name_len(items@.map_values(|it: JsonClient| it@)) as u16,
        r.1 == spec_max_call_state_len(items@.map_values(|it: JsonClient| it@)) as u16,
        r.2 == spec_max_group_name_len(items@.map_values(|it: JsonClient| it@)) as u16,
{
    let ghost views = items@.map_values(|it: JsonClient| it@);
    let mut name_len: usize = 0;
    let mut address_len: usize = 0;
    let mut email_len: usize = 0;
    let mut i: usize = 0;
    proof {
        assert(views.skip(0) =~= views);
        lemma_user_widths_nonneg(views);
    }
    while i < items.len()
        invariant
            views == items@.map_values(|it: JsonClient| it@),
            i <= views.len(),
            max2(name_len as int, spec_max_name_len(views.skip(i as int))) == spec_max_name_len(
                views,
            ),
            max2(address_len as int, spec_max_call_state_len(views.skip(i as int)))
                == spec_max_call_state_len(views),
            max2(email_len as int, spec_max_group_name_len(views.skip(i as int)))
                == spec_max_group_name_len(views),
        decreases views.len() - i,
    {
        proof {
            assert(views.skip(i as int)[0] == views[i as int]);
            assert(views.skip(i as int).drop_first() =~= views.skip(i + 1));
            lemma_user_widths_nonneg(views.skip(i + 1));
        }
        let w = items[i].name.as_str().unicode_len();
        if w > name_len {
            name_len = w;
        }
        let c = longest_line_len(items[i].call_state.as_str());
        if c > address_len {
            address_len = c;
        }
        let g = items[i].group_name.as_str().unicode_len();
        if g > email_len {
            email_len = g;
        }
        i = i + 1;
    }
    proof {
        assert(views.skip(i as int) =~= Seq::<JsonClientView>::empty());
    }
    #[verifier::truncate]
    let a = name_len as u16;
    #[verifier::truncate]
    let b = address_len as u16;
    #[verifier::truncate]
    let c = email_len as u16;
    (a, b, c)
}

} // verus!
