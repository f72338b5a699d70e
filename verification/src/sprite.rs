//! Sprites: which sprite of which sheet to draw, and the per-sprite flag bytes.
use vstd::prelude::*;

use crate::plan::{add_script_functions, script_steps, AppPlan};

verus! {

/// A sprite of the current sheet or of a given sheet.
#[derive(Debug, Clone, Copy, PartialEq, Eq, Structural)]
pub enum Spr {
    /// Sprite at current spritesheet.
    Cur { sprite: usize },
    /// Sprite from given spritesheet.
    From { sprite: usize, sheet: usize },
}

impl Spr {
    /// The sheet and sprite index that this names, given the current sheet.
    pub fn resolve(&self, current_sheet: usize) -> (r: (usize, usize))
        ensures
            r == match *self {
                Spr::Cur { sprite } => (current_sheet, sprite),
                Spr::From { sprite, sheet } => (sheet, sprite),
            },
    {
        match *self {
            Spr::Cur { sprite } => (current_sheet, sprite),
            Spr::From { sprite, sheet } => (sheet, sprite),
        }
    }
}

impl From<usize> for Spr {
    fn from(sprite: usize) -> (r: Spr) {
        Spr::Cur { sprite }
    }
}

impl vstd::std_specs::convert::FromSpecImpl<usize> for Spr {
    open spec fn obeys_from_spec() -> bool {
        true
    }

    open spec fn from_spec(v: usize) -> Spr {
        Spr::Cur { sprite: v }
    }
}

impl From<(usize, usize)> for Spr {
    fn from(v: (usize, usize)) -> (r: Spr) {
        Spr::From { sprite: v.0, sheet: v.1 }
    }
}

impl vstd::std_specs::convert::FromSpecImpl<(usize, usize)> for Spr {
    open spec fn obeys_from_spec() -> bool {
        true
    }

    open spec fn from_spec(v: (usize, usize)) -> Spr {
        Spr::From { sprite: v.0, sheet: v.1 }
    }
}

/// Whether bit `flag` of a flag byte is set.
pub open spec fn flag_set(v: u8, flag: u8) -> bool {
    v & (1u8 << flag) != 0
}

/// The flags of sprite `index`: the whole byte, or 1 or 0 for one flag. A
/// missing index or a sprite beyond the flags reads as 0.
pub fn fget(flags: &[u8], index: Option<usize>, flag_index: Option<u8>) -> (r: u8)
    requires
        index matches Some(i) && i < flags@.len() ==> (flag_index matches Some(f) ==> f < 8),
    ensures
        r == match index {
            None => 0u8,
            Some(i) => if i < flags@.len() {
                match flag_index {
                    Some(f) => if flag_set(flags@[i as int], f) {
                        1u8
                    } else {
                        0u8
                    },
                    None => flags@[i as int],
                }
            } else {
                0u8
            },
        },
{
    let index = match index {
        None => return 0,
        Some(i) => i,
    };
    if index < flags.len() {
        let v = flags[index];
        match flag_index {
            Some(flag_index) => {
                if v & (1u8 << flag_index) != 0 {
                    1
                } else {
                    0
                }
            },
            None => v,
        }
    } else {
        0
    }
}

/// Sets the flags of sprite `index`: one flag to `value != 0`, or the whole byte.
pub fn fset(flags: &mut Vec<u8>, index: usize, flag_index: Option<u8>, value: u8)
    requires
        index < old(flags)@.len(),
        flag_index matches Some(f) ==> f < 8,
    ensures
        final(flags)@ == old(flags)@.update(
            index as int,
            match flag_index {
                Some(f) => if value != 0 {
                    old(flags)@[index as int] | (1u8 << f)
                } else {
                    old(flags)@[index as int] & !(1u8 << f)
                },
                None => value,
            },
        ),
{
    let v = match flag_index {
        Some(flag_index) => {
            if value != 0 {
                flags[index] | (1u8 << flag_index)
            } else {
                flags[index] & !(1u8 << flag_index)
            }
        },
        None => value,
    };
    flags.set(index, v);
}

/// After setting one flag, reading that flag gives back whether the value was
/// non-zero, and the other flags are unchanged.
pub proof fn lemma_fget_after_fset(v: u8, f: u8, g: u8, value: u8)
    requires
        f < 8,
        g < 8,
    ensures
        ({
            let w = if value != 0 {
                v | (1u8 << f)
            } else {
                v & !(1u8 << f)
            };
            &&& flag_set(w, f) == (value != 0)
            &&& g != f ==> flag_set(w, g) == flag_set(v, g)
        }),
{
    assert(f < 8 ==> (v | (1u8 << f)) & (1u8 << f) != 0) by (bit_vector);
    assert(f < 8 ==> (v & !(1u8 << f)) & (1u8 << f) == 0) by (bit_vector);
    assert(f < 8 && g < 8 && g != f ==> (((v | (1u8 << f)) & (1u8 << g) != 0) == (v & (1u8 << g)
        != 0))) by (bit_vector);
    assert(f < 8 && g < 8 && g != f ==> (((v & !(1u8 << f)) & (1u8 << g) != 0) == (v & (1u8 << g)
        != 0))) by (bit_vector);
}

/// The registrations of sprite drawing: the script functions of sprites and sprite flags.
pub fn plugin(app: &mut AppPlan)
    ensures
        final(app).same_features(*old(app)),
        final(app).steps@ == old(app).steps@ + script_steps(
            old(app).scripting,
            seq!["spr", "sspr", "sset", "sget", "fget", "fset"],
        ),
{
    let names: [&'static str; 6] = ["spr", "sspr", "sset", "sget", "fget", "fset"];
    assert(names@ =~= seq!["spr", "sspr", "sset", "sget", "fget", "fset"]);
    let enabled = app.scripting;
    add_script_functions(app, enabled, &names);
}

} // verus!
