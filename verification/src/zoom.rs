//! The zoom-level policy: which discrete zoom levels the projection
//! supports.  An unsupported zoom is the library's one recoverable
//! condition; every projection operation yields no result on it.

use vstd::prelude::*;

verus! {

/// Greatest zoom level the projection supports.
pub const MAX_ZOOM: usize = 29;

/// The zoom levels on which projection operations produce a result.
pub open spec fn zoom_supported(zoom: int) -> bool {
    0 <= zoom && zoom <= MAX_ZOOM
}

/// Decides whether `zoom` is a supported zoom level.  On any other zoom,
/// forward and inverse projection both yield no result.
pub fn supports_zoom(zoom: usize) -> (r: bool)
    ensures
        r <==> zoom_supported(zoom as int),
{
    zoom <= MAX_ZOOM
}

} // verus!
