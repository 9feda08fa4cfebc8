//! Colour palette for rendering automaton states.
//!
//! Each state is shown in one RGB colour. The palette cycles through a fixed
//! six-colour base table, so any number of states gets a colour.

use vstd::prelude::*;

verus! {

/// The fixed base table: six colours, three bytes (red, green, blue) each.
pub open spec fn base_colormap() -> Seq<u8> {
    seq![
        0xB2u8, 0x1Fu8, 0x35u8,
        0xFFu8, 0x74u8, 0x35u8,
        0xFFu8, 0xF7u8, 0x35u8,
        0x16u8, 0xDDu8, 0x36u8,
        0x00u8, 0x79u8, 0xE7u8,
        0xBDu8, 0x7Au8, 0xF6u8,
    ]
}

/// One RGB triplet per state, cycling through the base table byte-wise.
pub fn get_colormap(num_states: u8) -> (colormap: Vec<u8>)
    ensures
        colormap@.len() == 3 * num_states as int,
        forall|i: int| 0 <= i < colormap@.len() ==> colormap@[i] == base_colormap()[i % 18],
{
    let base: Vec<u8> = vec![
        0xB2, 0x1F, 0x35,
        0xFF, 0x74, 0x35,
        0xFF, 0xF7, 0x35,
        0x16, 0xDD, 0x36,
        0x00, 0x79, 0xE7,
        0xBD, 0x7A, 0xF6,
    ];
    proof {
        assert(base@ =~= base_colormap());
    }
    let len = 3 * (num_states as usize);
    let mut colormap: Vec<u8> = Vec::new();
    while colormap.len() < len
        invariant
            base@ == base_colormap(),
            len == 3 * num_states as int,
            colormap@.len() <= len,
            forall|i: int| 0 <= i < colormap@.len() ==> colormap@[i] == base_colormap()[i % 18],
        decreases len - colormap.len(),
    {
        let i = colormap.len();
        colormap.push(base[i % 18]);
    }
    colormap
}

} // verus!
