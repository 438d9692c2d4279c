//! Column width calculation for the two panes: the widest displayed cell
//! of each column, floored at the header width and clamped to what a
//! terminal cell count can hold.

use vstd::prelude::*;
use crate::pane::{WidgetConfigurations, WidgetShortcuts};

verus! {

/// The displayed column width of a string, as the terminal renders it.
pub uninterp spec fn display_width(s: Seq<char>) -> nat;

/// Relies on unicode-width's `UnicodeWidthStr::width`: the displayed
/// width in columns, a function of the characters alone (canonically
/// equivalent strings are assigned the same width); an empty string has
/// width 0.
#[verifier::external_body]
fn str_width(s: &str) -> (r: usize)
    ensures
        r == display_width(s@),
        s@.len() == 0 ==> r == 0,
{
    unicode_width::UnicodeWidthStr::width(s)
}

/// The widest display width among the strings.
pub open spec fn max_width(ss: Seq<Seq<char>>) -> nat
    decreases ss.len(),
{
    if ss.len() == 0 {
        0
    } else {
        let rest = max_width(ss.drop_first());
        if display_width(ss[0]) >= rest {
            display_width(ss[0])
        } else {
            rest
        }
    }
}

/// A column width: one more than the widest cell, floored at the header
/// width, clamped to a terminal cell count.
pub open spec fn spec_column_width(widest: nat, floor: nat) -> nat {
    let c = if widest + 1 > 65535 {
        65535
    } else {
        widest + 1
    };
    if c < floor {
        floor
    } else {
        c
    }
}

/// The larger of a running maximum and a remainder maximum.
pub open spec fn merge_width(a: nat, b: nat) -> nat {
    if a >= b {
        a
    } else {
        b
    }
}

fn clamp_column(widest: usize, floor: u16) -> (r: u16)
    ensures
        r == spec_column_width(widest as nat, floor as nat),
{
    if widest >= 65535 {
        65535
    } else {
        let c = (widest + 1) as u16;
        if c < floor {
            floor
        } else {
            c
        }
    }
}

impl WidgetShortcuts {
    /// The kind and name column widths that fit every row.
    pub fn constraint_len_calculator(&self) -> (r: (u16, u16))
        ensures
            r.0 == spec_column_width(
                max_width(self.values.deep_view().map_values(|s: crate::objects::ShortcutV| s.kind)),
                6,
            ),
            r.1 == spec_column_width(
                max_width(self.values.deep_view().map_values(|s: crate::objects::ShortcutV| s.name)),
                5,
            ),
    {
        let ghost kinds = self.values.deep_view().map_values(
            |s: crate::objects::ShortcutV| s.kind,
        );
        let ghost names = self.values.deep_view().map_values(
            |s: crate::objects::ShortcutV| s.name,
        );
        let mut kind_max: usize = 0;
        let mut name_max: usize = 0;
        let mut i: usize = 0;
        proof {
            assert(kinds.subrange(0, kinds.len() as int) =~= kinds);
            assert(names.subrange(0, names.len() as int) =~= names);
        }
        while i < self.values.len()
            invariant
                0 <= i <= self.values.len(),
                kinds == self.values.deep_view().map_values(
                    |s: crate::objects::ShortcutV| s.kind,
                ),
                names == self.values.deep_view().map_values(
                    |s: crate::objects::ShortcutV| s.name,
                ),
                kinds.len() == self.values.len(),
                names.len() == self.values.len(),
                max_width(kinds) == merge_width(
                    kind_max as nat,
                    max_width(kinds.subrange(i as int, kinds.len() as int)),
                ),
                max_width(names) == merge_width(
                    name_max as nat,
                    max_width(names.subrange(i as int, names.len() as int)),
                ),
            decreases self.values.len() - i,
        {
            let ghost krest = kinds.subrange(i as int, kinds.len() as int);
            let ghost nrest = names.subrange(i as int, names.len() as int);
            proof {
                assert(krest[0] == kinds[i as int]);
                assert(krest.drop_first() =~= kinds.subrange(i + 1, kinds.len() as int));
                assert(nrest[0] == names[i as int]);
                assert(nrest.drop_first() =~= names.subrange(i + 1, names.len() as int));
            }
            let kw = str_width(self.values[i].kind.as_str());
            let nw = str_width(self.values[i].name.as_str());
            if kw > kind_max {
                kind_max = kw;
            }
            if nw > name_max {
                name_max = nw;
            }
            i += 1;
        }
        proof {
            assert(kinds.subrange(kinds.len() as int, kinds.len() as int)
                =~= Seq::<Seq<char>>::empty());
            assert(names.subrange(names.len() as int, names.len() as int)
                =~= Seq::<Seq<char>>::empty());
        }
        (clamp_column(kind_max, 6), clamp_column(name_max, 5))
    }
}

impl WidgetConfigurations {
    /// The label and value column widths that fit every row.
    pub fn constraint_len_calculator(&self) -> (r: (u16, u16))
        ensures
            r.0 == spec_column_width(
                max_width(
                    self.values.deep_view().map_values(
                        |c: crate::objects::ConfigurationV| c.kind,
                    ),
                ),
                9,
            ),
            r.1 == spec_column_width(
                max_width(
                    self.values.deep_view().map_values(
                        |c: crate::objects::ConfigurationV| c.value,
                    ),
                ),
                6,
            ),
    {
        let ghost kinds = self.values.deep_view().map_values(
            |c: crate::objects::ConfigurationV| c.kind,
        );
        let ghost vals = self.values.deep_view().map_values(
            |c: crate::objects::ConfigurationV| c.value,
        );
        let mut kind_max: usize = 0;
        let mut value_max: usize = 0;
        let mut i: usize = 0;
        proof {
            assert(kinds.subrange(0, kinds.len() as int) =~= kinds);
            assert(vals.subrange(0, vals.len() as int) =~= vals);
        }
        while i < self.values.len()
            invariant
                0 <= i <= self.values.len(),
                kinds == self.values.deep_view().map_values(
                    |c: crate::objects::ConfigurationV| c.kind,
                ),
                vals == self.values.deep_view().map_values(
                    |c: crate::objects::ConfigurationV| c.value,
                ),
                kinds.len() == self.values.len(),
                vals.len() == self.values.len(),
                max_width(kinds) == merge_width(
                    kind_max as nat,
                    max_width(kinds.subrange(i as int, kinds.len() as int)),
                ),
                max_width(vals) == merge_width(
                    value_max as nat,
                    max_width(vals.subrange(i as int, vals.len() as int)),
                ),
            decreases self.values.len() - i,
        {
            let ghost krest = kinds.subrange(i as int, kinds.len() as int);
            let ghost vrest = vals.subrange(i as int, vals.len() as int);
            proof {
                assert(krest[0] == kinds[i as int]);
                assert(krest.drop_first() =~= kinds.subrange(i + 1, kinds.len() as int));
                assert(vrest[0] == vals[i as int]);
                assert(vrest.drop_first() =~= vals.subrange(i + 1, vals.len() as int));
            }
            let kw = str_width(self.values[i].kind.as_str());
            let vw = str_width(self.values[i].value.as_str());
            if kw > kind_max {
                kind_max = kw;
            }
            if vw > value_max {
                value_max = vw;
            }
            i += 1;
        }
        proof {
            assert(kinds.subrange(kinds.len() as int, kinds.len() as int)
                =~= Seq::<Seq<char>>::empty());
            assert(vals.subrange(vals.len() as int, vals.len() as int)
                =~= Seq::<Seq<char>>::empty());
        }
        (clamp_column(kind_max, 9), clamp_column(value_max, 6))
    }
}

} // verus!
