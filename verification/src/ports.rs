//! Port enumeration: index the ports a driver reports and keep the named ones.

use vstd::prelude::*;

verus! {

/// The listing built from one enumeration pass: each port paired with its
/// 0-based position in report order; a port whose name could not be retrieved
/// is skipped rather than failing the whole enumeration.
pub open spec fn listing_of(names: Seq<Option<String>>) -> Seq<(usize, String)>
    decreases names.len(),
{
    if names.len() == 0 {
        Seq::<(usize, String)>::empty()
    } else {
        let rest = listing_of(names.drop_last());
        match names.last() {
            Some(n) => rest.push((((names.len() - 1) as usize), n)),
            None => rest,
        }
    }
}

/// Build the index-to-name mapping for one enumeration pass.
///
/// `report` is what the driver answered: `None` when the MIDI subsystem could
/// not be initialized, otherwise one entry per port in driver order, `None`
/// where that port's name could not be retrieved. An unavailable subsystem
/// yields an empty mapping, never an error; indices are positions in this
/// pass only and are not stable across passes.
pub fn list_midi_connections(report: &Option<Vec<Option<String>>>) -> (r: Vec<(usize, String)>)
    ensures
        r@ == (match report {
            Some(names) => listing_of(names@),
            None => Seq::<(usize, String)>::empty(),
        }),
{
    match report {
        None => Vec::new(),
        Some(names) => {
            let mut out: Vec<(usize, String)> = Vec::new();
            let mut i: usize = 0;
            while i < names.len()
                invariant
                    i <= names.len(),
                    out@ == listing_of(names@.take(i as int)),
                decreases names.len() - i,
            {
                match &names[i] {
                    Some(n) => {
                        out.push((i, n.clone()));
                    },
                    None => {},
                }
                proof {
                    assert(names@.take(i + 1 as int).drop_last() =~= names@.take(i as int));
                    assert(names@.take(i + 1 as int).last() == names@[i as int]);
                }
                i = i + 1;
            }
            proof {
                assert(names@.take(names@.len() as int) =~= names@);
            }
            out
        },
    }
}

} // verus!
