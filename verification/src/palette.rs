//! The preset color palette and its cursor. Newly created counters take the
//! palette entry at the cursor; the cursor advances by one, cyclically, only
//! when a new counter's draft is saved.

use vstd::prelude::*;
use vstd::arithmetic::div_mod::lemma_add_mod_noop;

verus! {

/// How many preset colors the palette holds.
pub const PALETTE_LEN: usize = 8;

/// The palette entry at each cursor position.
pub open spec fn spec_palette(i: int) -> Seq<char> {
    if i == 0 {
        "#0f172a"@
    } else if i == 1 {
        "#1e3a8a"@
    } else if i == 2 {
        "#047857"@
    } else if i == 3 {
        "#9d174d"@
    } else if i == 4 {
        "#7c3aed"@
    } else if i == 5 {
        "#ea580c"@
    } else if i == 6 {
        "#2563eb"@
    } else {
        "#0f766e"@
    }
}

/// The preset color for a cursor position; positions repeat every
/// `PALETTE_LEN` entries.
pub fn palette_color(cursor: usize) -> (r: String)
    ensures
        r@ == spec_palette((cursor % PALETTE_LEN) as int),
{
    let idx = cursor % PALETTE_LEN;
    match idx {
        0 => "#0f172a".to_owned(),
        1 => "#1e3a8a".to_owned(),
        2 => "#047857".to_owned(),
        3 => "#9d174d".to_owned(),
        4 => "#7c3aed".to_owned(),
        5 => "#ea580c".to_owned(),
        6 => "#2563eb".to_owned(),
        _ => "#0f766e".to_owned(),
    }
}

/// The cursor after one successful save of a new counter.
pub open spec fn spec_advance(c: nat) -> nat {
    (c + 1) % (PALETTE_LEN as nat)
}

/// The cursor after `n` successful saves of new counters.
pub open spec fn advance_n(c: nat, n: nat) -> nat
    decreases n,
{
    if n == 0 {
        c
    } else {
        spec_advance(advance_n(c, (n - 1) as nat))
    }
}

/// Advances the cursor cyclically.
pub fn advance_cursor(cursor: usize) -> (r: usize)
    requires
        cursor < PALETTE_LEN,
    ensures
        r as nat == spec_advance(cursor as nat),
        r < PALETTE_LEN,
{
    (cursor + 1) % PALETTE_LEN
}

/// Advancing stays within the palette, one entry at a time.
proof fn lemma_advance_n_mod(c: nat, n: nat)
    requires
        c < PALETTE_LEN,
    ensures
        advance_n(c, n) == (c + n) % (PALETTE_LEN as nat),
    decreases n,
{
    if n == 0 {
        vstd::arithmetic::div_mod::lemma_small_mod(c, PALETTE_LEN as nat);
    } else {
        lemma_advance_n_mod(c, (n - 1) as nat);
        lemma_add_mod_noop((c + n - 1) as int, 1int, PALETTE_LEN as int);
        vstd::arithmetic::div_mod::lemma_small_mod(1nat, PALETTE_LEN as nat);
        assert(advance_n(c, n) as int == (((c + n - 1) as int % (PALETTE_LEN as int)) + 1) % (
        PALETTE_LEN as int));
    }
}

/// The palette cursor cycles: after eight saves of new counters it is back
/// where it started, so the ninth newly created counter receives the same
/// default color as the first.
pub proof fn lemma_palette_cycle(c: nat)
    requires
        c < PALETTE_LEN,
    ensures
        advance_n(c, PALETTE_LEN as nat) == c,
        spec_palette(advance_n(c, PALETTE_LEN as nat) as int) == spec_palette(c as int),
{
    lemma_advance_n_mod(c, PALETTE_LEN as nat);
    lemma_add_mod_noop(c as int, PALETTE_LEN as int, PALETTE_LEN as int);
    vstd::arithmetic::div_mod::lemma_small_mod(c, PALETTE_LEN as nat);
    vstd::arithmetic::div_mod::lemma_mod_self_0(PALETTE_LEN as int);
}

} // verus!
