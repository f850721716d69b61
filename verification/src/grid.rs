//! Exact geometry of the tile grid: the whole-map edge length and the
//! origin offset at each supported zoom level, as precise integers.

use crate::zoom::supports_zoom;
use crate::zoom::zoom_supported;
use crate::zoom::MAX_ZOOM;
use vstd::arithmetic::mul::lemma_mul_upper_bound;
use vstd::arithmetic::power2::lemma2_to64;
use vstd::arithmetic::power2::lemma_pow2_strictly_increases;
use vstd::arithmetic::power2::lemma_pow2_unfold;
use vstd::arithmetic::power2::pow2;
use vstd::prelude::*;

verus! {

/// Edge length in pixels of the whole square map at `zoom`, for tiles of
/// `tile_size` pixels on each side: `tile_size * 2^zoom`.
pub open spec fn map_size(tile_size: nat, zoom: nat) -> nat {
    tile_size * pow2(zoom)
}

/// Pixel offset of the projection origin — the map centre — from the map's
/// corner at `zoom`: half the whole-map edge, rounded down.  The edge is
/// even on every grid with an even tile size, and above zoom zero on every
/// grid, so the rounding is then exact.
pub open spec fn origin_offset(tile_size: nat, zoom: nat) -> nat {
    map_size(tile_size, zoom) / 2
}

/// Raising the zoom level by one exactly doubles the whole-map edge, and
/// with it every per-zoom projection constant: the degrees-per-pixel and
/// radians scales and the origin offset are fixed multiples of that edge.
pub proof fn lemma_map_size_doubles(tile_size: nat, zoom: nat)
    ensures
        map_size(tile_size, zoom + 1) == 2 * map_size(tile_size, zoom),
{
    lemma_pow2_unfold(zoom + 1);
    assert(tile_size * (2 * pow2(zoom)) == 2 * (tile_size * pow2(zoom))) by (nonlinear_arith);
}

/// The origin offset at one zoom level equals the whole-map edge of the
/// zoom level below it, exactly; and on a grid with an even tile size —
/// every conventional power-of-two size — the map centre doubles its
/// pixel offset at each zoom step just as the edge does.
pub proof fn lemma_origin_offset_doubles(tile_size: nat, zoom: nat)
    ensures
        origin_offset(tile_size, zoom + 1) == map_size(tile_size, zoom),
        tile_size % 2 == 0 ==> origin_offset(tile_size, zoom + 1) == 2 * origin_offset(
            tile_size,
            zoom,
        ),
{
    lemma_map_size_doubles(tile_size, zoom);
    if tile_size % 2 == 0 {
        let half = tile_size / 2;
        assert((2 * half) * pow2(zoom) == 2 * (half * pow2(zoom))) by (nonlinear_arith);
    }
}

/// No whole-map edge overflows a `u64`: the edge at the greatest supported
/// zoom is below `2^62` for every 32-bit tile size.
proof fn lemma_map_size_fits(tile_size: nat, zoom: nat)
    requires
        tile_size <= u32::MAX,
        zoom <= MAX_ZOOM + 1,
    ensures
        map_size(tile_size, zoom) < 0x4000000000000000,
{
    lemma2_to64();
    if zoom < 30 {
        lemma_pow2_strictly_increases(zoom, 30);
    }
    lemma_mul_upper_bound(tile_size as int, u32::MAX as int, pow2(zoom) as int, 0x40000000);
}

/// Edge length in pixels of the whole map at `zoom`, computed on demand
/// for tiles of `tile_size` pixels on each side; no result on an
/// unsupported zoom level or a zero tile size.  Agrees bit for bit with
/// the table a [`Grid`] precomputes, since both are pinned to the same
/// exact value.
pub fn map_size_for(tile_size: u32, zoom: usize) -> (r: Option<u64>)
    ensures
        1 <= tile_size && zoom_supported(zoom as int) ==> (r matches Some(s) && s as nat
            == map_size(tile_size as nat, zoom as nat)),
        tile_size == 0 || !zoom_supported(zoom as int) ==> r is None,
{
    if tile_size == 0 || !supports_zoom(zoom) {
        return None;
    }
    let mut size: u64 = tile_size as u64;
    let mut z: usize = 0;
    proof {
        lemma2_to64();
    }
    while z < zoom
        invariant
            zoom <= MAX_ZOOM,
            z <= zoom,
            size as nat == map_size(tile_size as nat, z as nat),
        decreases zoom - z,
    {
        proof {
            lemma_map_size_fits(tile_size as nat, z as nat);
            lemma_pow2_unfold((z + 1) as nat);
            assert(tile_size * (2 * pow2(z as nat)) == 2 * (tile_size * pow2(z as nat)))
                by (nonlinear_arith);
        }
        size = size * 2;
        z = z + 1;
    }
    Some(size)
}

/// A Web-Mercator tile grid: the tile edge length fixed at construction,
/// together with the exact whole-map edge precomputed for every supported
/// zoom level.
pub struct Grid {
    tile_size: u32,
    sizes: Vec<u64>,
}

impl Grid {
    /// The tile edge length this grid was built with.
    pub closed spec fn spec_tile_size(&self) -> nat {
        self.tile_size as nat
    }

    /// Well-formed: a positive tile size, and one exact whole-map edge per
    /// supported zoom level.
    pub closed spec fn wf(&self) -> bool {
        &&& 1 <= self.tile_size
        &&& self.sizes@.len() == MAX_ZOOM + 1
        &&& forall|z: int|
            0 <= z <= MAX_ZOOM ==> (#[trigger] self.sizes@[z]) as nat == map_size(
                self.tile_size as nat,
                z as nat,
            )
    }

    /// Builds the grid for tiles of `tile_size` pixels on each side,
    /// precomputing the whole-map edge for every supported zoom level.
    /// A tile size of zero is rejected; every positive size is accepted.
    pub fn with_size(tile_size: u32) -> (r: Option<Grid>)
        ensures
            r is Some <==> 1 <= tile_size,
            r matches Some(g) ==> g.wf() && g.spec_tile_size() == tile_size,
    {
        if tile_size == 0 {
            return None;
        }
        let mut sizes: Vec<u64> = Vec::new();
        let mut size: u64 = tile_size as u64;
        proof {
            lemma2_to64();
        }
        while sizes.len() <= MAX_ZOOM
            invariant
                1 <= tile_size,
                sizes@.len() <= MAX_ZOOM + 1,
                size as nat == map_size(tile_size as nat, sizes@.len() as nat),
                forall|z: int|
                    0 <= z < sizes@.len() ==> (#[trigger] sizes@[z]) as nat == map_size(
                        tile_size as nat,
                        z as nat,
                    ),
            decreases MAX_ZOOM + 1 - sizes@.len(),
        {
            let ghost n = sizes@.len();
            sizes.push(size);
            proof {
                lemma_map_size_fits(tile_size as nat, n);
                lemma_pow2_unfold(n + 1);
                assert(tile_size * (2 * pow2(n)) == 2 * (tile_size * pow2(n)))
                    by (nonlinear_arith);
            }
            size = size * 2;
        }
        Some(Grid { tile_size, sizes })
    }

    /// The tile edge length this grid was built with.
    pub fn tile_size(&self) -> (r: u32)
        ensures
            r as nat == self.spec_tile_size(),
    {
        self.tile_size
    }

    /// Edge length in pixels of the whole map at `zoom`; no result on an
    /// unsupported zoom level.
    pub fn map_size(&self, zoom: usize) -> (r: Option<u64>)
        requires
            self.wf(),
        ensures
            zoom_supported(zoom as int) ==> (r matches Some(s) && s as nat == map_size(
                self.spec_tile_size(),
                zoom as nat,
            )),
            !zoom_supported(zoom as int) ==> r is None,
    {
        if supports_zoom(zoom) {
            Some(self.sizes[zoom])
        } else {
            None
        }
    }

    /// Pixel offset of the projection origin from the map's corner at
    /// `zoom`; no result on an unsupported zoom level.
    pub fn origin_offset(&self, zoom: usize) -> (r: Option<u64>)
        requires
            self.wf(),
        ensures
            zoom_supported(zoom as int) ==> (r matches Some(d) && d as nat == origin_offset(
                self.spec_tile_size(),
                zoom as nat,
            )),
            !zoom_supported(zoom as int) ==> r is None,
    {
        match self.map_size(zoom) {
            Some(s) => Some(s / 2),
            None => None,
        }
    }
}

impl Default for Grid {
    /// The conventional grid: tiles of 256 pixels on each side.
    fn default() -> (r: Grid)
        ensures
            r.wf(),
            r.spec_tile_size() == 256,
    {
        Grid::with_size(256).unwrap()
    }
}

} // verus!
