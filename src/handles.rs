use vstd::prelude::*;
use vstd::string::StringSliceAdditionalSpecFns;

use crate::bytes::same_bytes;

verus! {

/// The opaque type behind the cache handle that the host holds. Values of it
/// are never made: a handle points at a module cache.
#[allow(non_camel_case_types)]
pub struct cache_t {}

/// The opaque type behind the host's own state, which it hands back with each
/// of its callbacks.
#[allow(non_camel_case_types)]
pub struct api_t {}

/// What a static look at a stored bytecode found.
#[derive(Clone, Copy, Debug, Default, PartialEq, Eq, Structural)]
pub struct AnalysisReport {
    /// The module exports all entry points of the inter-chain protocol.
    pub has_ibc_entry_points: bool,
}

/// Whether `name` is among `exports`.
pub open spec fn exports_name(exports: Seq<Vec<u8>>, name: Seq<u8>) -> bool {
    exists|i: int| 0 <= i < exports.len() && exports[i]@ == name
}

/// The entry points that a module needs for the inter-chain protocol.
pub open spec fn ibc_entry_points() -> Seq<Seq<u8>> {
    seq![
        "ibc_channel_open".spec_bytes(),
        "ibc_channel_connect".spec_bytes(),
        "ibc_channel_close".spec_bytes(),
        "ibc_packet_receive".spec_bytes(),
        "ibc_packet_ack".spec_bytes(),
        "ibc_packet_timeout".spec_bytes(),
    ]
}

fn exports_contains(exports: &Vec<Vec<u8>>, name: &[u8]) -> (r: bool)
    ensures
        r == exports_name(exports@, name@),
{
    let mut i: usize = 0;
    while i < exports.len()
        invariant
            0 <= i <= exports@.len(),
            forall|j: int| 0 <= j < i ==> (#[trigger] exports@[j])@ != name@,
        decreases exports@.len() - i,
    {
        if same_bytes(exports[i].as_slice(), name) {
            return true;
        }
        i = i + 1;
    }
    false
}

impl AnalysisReport {
    /// The report on a module that exports the functions named in `exports`.
    pub fn from_exports(exports: &Vec<Vec<u8>>) -> (r: AnalysisReport)
        ensures
            r.has_ibc_entry_points == forall|k: int| 0 <= k < ibc_entry_points().len()
                ==> exports_name(exports@, #[trigger] ibc_entry_points()[k]),
    {
        let has = exports_contains(exports, "ibc_channel_open".as_bytes())
            && exports_contains(exports, "ibc_channel_connect".as_bytes())
            && exports_contains(exports, "ibc_channel_close".as_bytes())
            && exports_contains(exports, "ibc_packet_receive".as_bytes())
            && exports_contains(exports, "ibc_packet_ack".as_bytes())
            && exports_contains(exports, "ibc_packet_timeout".as_bytes());
        proof {
            if has {
                assert forall|k: int| 0 <= k < ibc_entry_points().len()
                    implies exports_name(exports@, #[trigger] ibc_entry_points()[k]) by {
                    assert(0 <= k < 6);
                }
            } else {
                assert(!exports_name(exports@, ibc_entry_points()[0]) || !exports_name(exports@, ibc_entry_points()[1])
                    || !exports_name(exports@, ibc_entry_points()[2]) || !exports_name(exports@, ibc_entry_points()[3])
                    || !exports_name(exports@, ibc_entry_points()[4]) || !exports_name(exports@, ibc_entry_points()[5]));
            }
        }
        AnalysisReport { has_ibc_entry_points: has }
    }
}

} // verus!
