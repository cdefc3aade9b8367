//! Glyph atlas layout and generation.
//!
//! The atlas is one large RGBA texture holding every character of the
//! configured inventory, pre-rasterized once at startup.  Characters
//! occupy equal-sized cells laid out left-to-right, top-to-bottom, and a
//! lookup table maps each character's code point to its flat slot index.
//! This module owns the layout arithmetic — capacity, slot rectangles,
//! the lookup table, and the bounds-clamped writing of coverage samples —
//! all of it verified; the font's outlines and anti-aliased coverage
//! arrive as the plain rasterization data of [`crate::font`].

use vstd::prelude::*;
use std::collections::HashMap;
use crate::font::{FontMetrics, CoverageSample, GlyphBounds, GlyphRaster};

verus! {

broadcast use vstd::std_specs::hash::group_hash_axioms;

/// Atlas texture edge length in pixels.
pub const ATLAS_SIZE: u32 = 4096;

/// Errors of atlas generation.  There is no degraded mode: an inventory
/// that does not fit the atlas aborts startup.
#[derive(Clone, Copy, PartialEq, Eq, Structural, Debug)]
pub enum AtlasError {
    /// The inventory holds more characters than the atlas has cells.
    CapacityExceeded,
}

/// An axis-aligned pixel rectangle inside the atlas texture.
#[derive(Clone, Copy, PartialEq, Eq, Structural, Debug)]
pub struct CellRect {
    /// Left edge in pixels.
    pub x: u32,
    /// Top edge in pixels.
    pub y: u32,
    /// Width in pixels.
    pub width: u32,
    /// Height in pixels.
    pub height: u32,
}

/// Whether the point `(px, py)` lies inside the rectangle.
pub open spec fn rect_contains(r: CellRect, px: int, py: int) -> bool {
    r.x <= px < r.x + r.width && r.y <= py < r.y + r.height
}

/// The fixed character inventories that the atlas pre-renders.
pub struct CharacterSets;

/// Builds one contiguous code-point range as a character vector.
fn codepoint_range(first: u32, count: u32) -> (r: Vec<char>)
    requires
        first + count <= 0xd800,
    ensures
        r@.len() == count,
        forall|i: int| 0 <= i < count ==> r@[i] as u32 == first + i,
{
    let mut v: Vec<char> = Vec::new();
    let mut i: u32 = 0;
    while i < count
        invariant
            i <= count,
            first + count <= 0xd800,
            v@.len() == i,
            forall|j: int| 0 <= j < i ==> v@[j] as u32 == first + j,
        decreases count - i,
    {
        let c = match crate::font::char_from_u32(first + i) {
            Some(c) => c,
            None => ' ',  // unreachable: the range lies below the surrogates
        };
        v.push(c);
        i = i + 1;
    }
    v
}

impl CharacterSets {
    /// The printable ASCII characters, code points 32 through 126.
    pub fn ascii() -> (r: Vec<char>)
        ensures
            r@.len() == 95,
            forall|i: int| 0 <= i < 95 ==> r@[i] as u32 == 32 + i,
    {
        codepoint_range(32, 95)
    }

    /// The box-drawing block, code points 0x2500 through 0x257f; these
    /// must connect cleanly for borders and lines.
    pub fn box_drawing() -> (r: Vec<char>)
        ensures
            r@.len() == 128,
            forall|i: int| 0 <= i < 128 ==> r@[i] as u32 == 0x2500 + i,
    {
        codepoint_range(0x2500, 128)
    }

    /// The block-element characters, code points 0x2580 through 0x259f,
    /// used for shading and progress bars.
    pub fn block_elements() -> (r: Vec<char>)
        ensures
            r@.len() == 32,
            forall|i: int| 0 <= i < 32 ==> r@[i] as u32 == 0x2580 + i,
    {
        codepoint_range(0x2580, 32)
    }

    /// The full inventory: ASCII, then box drawing, then block elements.
    /// No character appears twice.
    pub fn all_mvp() -> (r: Vec<char>)
        ensures
            r@.len() == 255,
            forall|i: int| 0 <= i < 95 ==> r@[i] as u32 == 32 + i,
            forall|i: int| 95 <= i < 223 ==> #[trigger] (r@[i] as u32) == 0x2500 + (i - 95),
            forall|i: int| 223 <= i < 255 ==> #[trigger] (r@[i] as u32) == 0x2580 + (i - 223),
            distinct_codepoints(r@),
    {
        let mut chars = Self::ascii();
        let mut boxes = Self::box_drawing();
        let mut blocks = Self::block_elements();
        chars.append(&mut boxes);
        chars.append(&mut blocks);
        proof {
            assert forall|i: int, j: int| 0 <= i < j < chars@.len() implies chars@[i] as u32
                != chars@[j] as u32 by {
                assert((chars@[i] as u32) < (chars@[j] as u32));
            }
        }
        chars
    }
}

/// No two characters of the sequence share a code point.
pub open spec fn distinct_codepoints(chars: Seq<char>) -> bool {
    forall|i: int, j: int|
        0 <= i < j < chars.len() ==> #[trigger] (chars[i] as u32) != #[trigger] (chars[j] as u32)
}

/// How many characters fit in an atlas of the configured size with the
/// given cell size.
pub open spec fn spec_layout_capacity(cell_width: int, cell_height: int) -> int
    recommends
        cell_width >= 1,
        cell_height >= 1,
{
    (ATLAS_SIZE as int / cell_width) * (ATLAS_SIZE as int / cell_height)
}

/// What the lookup table holds after laying out `chars`: exactly the
/// inventory's code points, each mapped to the index of the character's
/// last occurrence, every slot below the inventory's length.
pub open spec fn spec_indexes_chars(map: Map<u32, u32>, chars: Seq<char>) -> bool {
    &&& forall|i: int| 0 <= i < chars.len() ==> map.contains_key(#[trigger] (chars[i] as u32))
    &&& forall|cp: u32| #[trigger]
        map.contains_key(cp) ==> exists|i: int| 0 <= i < chars.len() && chars[i] as u32 == cp
    &&& forall|i: int|
        0 <= i < chars.len() && (forall|j: int|
            i < j < chars.len() ==> (chars[j] as u32) != (chars[i] as u32)) ==> map[
            #[trigger] (chars[i] as u32)] == i
    &&& forall|cp: u32| #[trigger] map.contains_key(cp) ==> map[cp] < chars.len()
}

/// The pre-rendered glyph atlas: an RGBA pixel buffer, the lookup table
/// from character code point to flat slot index, and the shared cell
/// size.  Immutable after construction.
pub struct GlyphAtlas {
    /// RGBA pixel data, row-major, 4 bytes per pixel.
    pub texture_data: Vec<u8>,
    /// Texture width in pixels.
    pub atlas_width: u32,
    /// Texture height in pixels.
    pub atlas_height: u32,
    /// Character code point to slot index.
    pub uv_map: HashMap<u32, u32>,
    /// Cell width in pixels.
    pub cell_width: u32,
    /// Cell height in pixels.
    pub cell_height: u32,
}

impl GlyphAtlas {
    /// How many cells fit in one atlas row.
    pub open spec fn spec_cells_per_row(self) -> int {
        self.atlas_width as int / self.cell_width as int
    }

    /// How many cell rows fit in the atlas.
    pub open spec fn spec_cells_per_column(self) -> int {
        self.atlas_height as int / self.cell_height as int
    }

    /// How many characters the atlas can hold.
    pub open spec fn spec_capacity(self) -> int {
        self.spec_cells_per_row() * self.spec_cells_per_column()
    }

    /// Well-formedness: cells are at least one pixel, the pixel buffer has
    /// exactly its nominal size, and every slot of the lookup table lies
    /// within capacity.
    pub open spec fn wf(self) -> bool {
        &&& self.cell_width >= 1
        &&& self.cell_height >= 1
        &&& self.texture_data@.len() == self.atlas_width as int * self.atlas_height as int * 4
        &&& forall|cp: u32| #[trigger]
            self.uv_map@.contains_key(cp) ==> self.uv_map@[cp] < self.spec_capacity()
    }

    /// Left edge of a slot's cell: slots fill rows left to right.
    pub open spec fn spec_slot_x(self, slot: int) -> int {
        (slot % self.spec_cells_per_row()) * self.cell_width
    }

    /// Top edge of a slot's cell: rows fill the atlas top to bottom.
    pub open spec fn spec_slot_y(self, slot: int) -> int {
        (slot / self.spec_cells_per_row()) * self.cell_height
    }

    /// The pixel rectangle of a slot.
    pub open spec fn spec_slot_rect(self, slot: int) -> CellRect
        recommends
            0 <= slot < self.spec_capacity(),
    {
        CellRect {
            x: self.spec_slot_x(slot) as u32,
            y: self.spec_slot_y(slot) as u32,
            width: self.cell_width,
            height: self.cell_height,
        }
    }

    /// How many cells fit in one atlas row.
    pub fn cells_per_row(&self) -> (r: u32)
        requires
            self.wf(),
        ensures
            r == self.spec_cells_per_row(),
    {
        self.atlas_width / self.cell_width
    }

    /// How many cell rows fit in the atlas.
    pub fn cells_per_column(&self) -> (r: u32)
        requires
            self.wf(),
        ensures
            r == self.spec_cells_per_column(),
    {
        self.atlas_height / self.cell_height
    }

    /// Lays out an inventory in a fully transparent atlas: checks
    /// capacity up front, and on success builds the lookup table mapping
    /// each character's code point to its slot.  Succeeds exactly when
    /// the inventory fits; an inventory one character over capacity gives
    /// the capacity error and no atlas at all.
    #[verifier::rlimit(100)]
    pub fn with_layout(cell_width: u32, cell_height: u32, chars: &Vec<char>) -> (r: Result<
        GlyphAtlas,
        AtlasError,
    >)
        requires
            cell_width >= 1,
            cell_height >= 1,
        ensures
            r is Ok <==> chars@.len() <= spec_layout_capacity(
                cell_width as int,
                cell_height as int,
            ),
            r is Err ==> r->Err_0 == AtlasError::CapacityExceeded,
            r is Ok ==> {
                let a = r->Ok_0;
                &&& a.wf()
                &&& a.cell_width == cell_width
                &&& a.cell_height == cell_height
                &&& a.atlas_width == ATLAS_SIZE
                &&& a.atlas_height == ATLAS_SIZE
                &&& forall|n: int| 0 <= n < a.texture_data@.len() ==> a.texture_data@[n] == 0
                &&& spec_indexes_chars(a.uv_map@, chars@)
                &&& (distinct_codepoints(chars@) ==> a.uv_map@.len() == chars@.len())
            },
    {
        let atlas_width = ATLAS_SIZE;
        let atlas_height = ATLAS_SIZE;
        let cells_per_row = atlas_width / cell_width;
        let cells_per_column = atlas_height / cell_height;
        proof {
            assert(cells_per_row <= 4096 && cells_per_column <= 4096) by (nonlinear_arith)
                requires
                    cells_per_row == 4096 as int / (cell_width as int),
                    cells_per_column == 4096 as int / (cell_height as int),
                    cell_width >= 1,
                    cell_height >= 1,
            ;
        }
        proof {
            assert((cells_per_row as int) * (cells_per_column as int) <= 0x1000000)
                by (nonlinear_arith)
                requires
                    0 <= cells_per_row <= 4096,
                    0 <= cells_per_column <= 4096,
            ;
        }
        let max_chars: u64 = (cells_per_row as u64) * (cells_per_column as u64);
        if chars.len() as u64 > max_chars {
            return Err(AtlasError::CapacityExceeded);
        }
        proof {
            assert((atlas_width as int) * (atlas_height as int) * 4 == 0x4000000)
                by (nonlinear_arith)
                requires
                    atlas_width == 4096,
                    atlas_height == 4096,
            ;
        }
        let texture_len: usize = (atlas_width as usize) * (atlas_height as usize) * 4;
        let texture_data: Vec<u8> = vec![0u8; texture_len];
        let mut uv_map: HashMap<u32, u32> = HashMap::new();
        let mut i: usize = 0;
        while i < chars.len()
            invariant
                i <= chars@.len(),
                chars@.len() <= max_chars <= 0x1000000,
                forall|j: int|
                    0 <= j < i ==> uv_map@.contains_key(#[trigger] (chars@[j] as u32)),
                forall|cp: u32| #[trigger]
                    uv_map@.contains_key(cp) ==> exists|j: int|
                        0 <= j < i && chars@[j] as u32 == cp,
                forall|cp: u32| #[trigger] uv_map@.contains_key(cp) ==> uv_map@[cp] < i,
                forall|j: int|
                    0 <= j < i && (forall|k: int|
                        j < k < i ==> (chars@[k] as u32) != (chars@[j] as u32)) ==> uv_map@[
                        #[trigger] (chars@[j] as u32)] == j,
                distinct_codepoints(chars@) ==> uv_map@.len() == i,
            decreases chars@.len() - i,
        {
            let cp = chars[i] as u32;
            proof {
                if distinct_codepoints(chars@) && uv_map@.contains_key(cp) {
                    let j = choose|j: int| 0 <= j < i && chars@[j] as u32 == cp;
                    assert((chars@[j] as u32) != (chars@[i as int] as u32));
                }
            }
            uv_map.insert(cp, i as u32);
            i = i + 1;
        }
        Ok(
            GlyphAtlas {
                texture_data,
                atlas_width,
                atlas_height,
                uv_map,
                cell_width,
                cell_height,
            },
        )
    }

    /// Rasterizes an inventory into a fresh atlas: checks capacity before
    /// any pixel work, lays out the lookup table, and blits each
    /// character's coverage samples into its slot — horizontally centered
    /// by half the leftover width (clamped to zero) and vertically
    /// positioned on the baseline.  A character with no outline leaves
    /// its cell fully transparent, and so does every pixel outside the
    /// inventory's slots.  `rasters` holds one rasterization per
    /// character, in the same order.
    #[verifier::rlimit(100)]
    pub fn generate(metrics: &FontMetrics, chars: &Vec<char>, rasters: &Vec<GlyphRaster>) -> (r:
        Result<GlyphAtlas, AtlasError>)
        requires
            metrics.wf(),
            rasters@.len() == chars@.len(),
        ensures
            r is Ok <==> chars@.len() <= spec_layout_capacity(
                metrics.cell_width as int,
                metrics.cell_height as int,
            ),
            r is Err ==> r->Err_0 == AtlasError::CapacityExceeded,
            r is Ok ==> {
                let a = r->Ok_0;
                &&& a.wf()
                &&& a.cell_width == metrics.cell_width
                &&& a.cell_height == metrics.cell_height
                &&& a.atlas_width == ATLAS_SIZE
                &&& a.atlas_height == ATLAS_SIZE
                &&& spec_indexes_chars(a.uv_map@, chars@)
                &&& (distinct_codepoints(chars@) ==> a.uv_map@.len() == chars@.len())
                &&& forall|j: int|
                    0 <= j < chars@.len() && (#[trigger] rasters@[j].bounds) is None
                        ==> slot_transparent(a, j)
                &&& forall|j: int|
                    0 <= j < chars@.len() && (#[trigger] rasters@[j].bounds) is Some
                        ==> slot_rendered(
                        a,
                        rasters@[j].samples@,
                        spec_h_off(metrics.cell_width as int, rasters@[j].bounds->0),
                        spec_v_off(metrics.baseline as int, rasters@[j].bounds->0),
                        j,
                    )
                &&& forall|px: int, py: int, c: int|
                    0 <= px < a.atlas_width && 0 <= py < a.atlas_height && 0 <= c < 4
                        && !covered_by_slot(a, chars@.len() as int, px, py) ==> #[trigger] a
                        .texture_data@[pixel_byte_index(a.atlas_width as int, px, py) + c] == 0
            },
    {
        let mut atlas = match Self::with_layout(metrics.cell_width, metrics.cell_height, chars) {
            Ok(atlas) => atlas,
            Err(e) => {
                return Err(e);
            },
        };
        let ghost map0 = atlas.uv_map@;
        let ghost a0 = atlas;
        proof {
            assert(a0.spec_cells_per_row() <= 4096 && a0.spec_cells_per_column() <= 4096)
                by (nonlinear_arith)
                requires
                    a0.spec_cells_per_row() == 4096 as int / (a0.cell_width as int),
                    a0.spec_cells_per_column() == 4096 as int / (a0.cell_height as int),
                    a0.cell_width >= 1,
                    a0.cell_height >= 1,
                    a0.atlas_width == 4096,
                    a0.atlas_height == 4096,
            ;
            assert(a0.spec_capacity() <= 0x1000000) by (nonlinear_arith)
                requires
                    a0.spec_capacity() == a0.spec_cells_per_row() * a0.spec_cells_per_column(),
                    0 <= a0.spec_cells_per_row() <= 4096,
                    0 <= a0.spec_cells_per_column() <= 4096,
            ;
            let aw = atlas.atlas_width as int;
            assert forall|px: int, py: int, c: int|
                0 <= px < atlas.atlas_width && 0 <= py < atlas.atlas_height && 0 <= c < 4
                    implies #[trigger] atlas.texture_data@[pixel_byte_index(aw, px, py) + c]
                == 0 by {
                lemma_pixel_index_in_bounds(aw, atlas.atlas_height as int, px, py);
            }
        }
        let mut i: usize = 0;
        while i < chars.len()
            invariant
                i <= chars@.len(),
                rasters@.len() == chars@.len(),
                atlas.wf(),
                atlas.uv_map@ == map0,
                atlas.atlas_width == a0.atlas_width && atlas.atlas_height == a0.atlas_height,
                atlas.cell_width == a0.cell_width && atlas.cell_height == a0.cell_height,
                a0.atlas_width == ATLAS_SIZE && a0.atlas_height == ATLAS_SIZE,
                chars@.len() <= a0.spec_capacity(),
                a0.spec_capacity() <= 0x1000000,
                atlas.cell_width == metrics.cell_width,
                forall|j: int|
                    0 <= j < i && (#[trigger] rasters[j].bounds) is None ==> slot_transparent(
                        atlas,
                        j,
                    ),
                forall|j: int|
                    0 <= j < i && (#[trigger] rasters[j].bounds) is Some ==> slot_rendered(
                        atlas,
                        rasters[j].samples@,
                        spec_h_off(metrics.cell_width as int, rasters[j].bounds->0),
                        spec_v_off(metrics.baseline as int, rasters[j].bounds->0),
                        j,
                    ),
                forall|px: int, py: int, c: int|
                    0 <= px < atlas.atlas_width && 0 <= py < atlas.atlas_height && 0 <= c < 4
                        && !covered_by_slot(atlas, i as int, px, py) ==> #[trigger] atlas
                        .texture_data@[pixel_byte_index(atlas.atlas_width as int, px, py) + c]
                        == 0,
            decreases chars@.len() - i,
        {
            let ghost pre = atlas;
            proof {
                lemma_slot_rect_in_bounds(atlas, i as int);
            }
            let cpr = atlas.cells_per_row();
            let slot = i as u32;
            proof {
                assert(slot == i as int);
                assert((slot % cpr) as int == (i as int) % atlas.spec_cells_per_row());
                assert((slot / cpr) as int == (i as int) / atlas.spec_cells_per_row());
            }
            let rect = CellRect {
                x: (slot % cpr) * atlas.cell_width,
                y: (slot / cpr) * atlas.cell_height,
                width: atlas.cell_width,
                height: atlas.cell_height,
            };
            proof {
                assert(rect == atlas.spec_slot_rect(i as int));
            }
            let raster = &rasters[i];
            match raster.bounds {
                None => {
                    proof {
                        lemma_generate_step_none(atlas, rasters@, i as int);
                    }
                },
                Some(gb) => {
                    let h_off: u32 = if gb.width < atlas.cell_width {
                        (atlas.cell_width - gb.width) / 2
                    } else {
                        0
                    };
                    let v_off: i64 = metrics.baseline as i64 - gb.min_y as i64;
                    proof {
                        assert(h_off as int == spec_h_off(atlas.cell_width as int, gb));
                        assert(v_off as int == spec_v_off(metrics.baseline as int, gb));
                        assert(rect.x as int == pre.spec_slot_x(i as int));
                        assert(rect.y as int == pre.spec_slot_y(i as int));
                    }
                    let atlas_width = atlas.atlas_width;
                    let atlas_height = atlas.atlas_height;
                    blit_glyph(
                        &mut atlas.texture_data,
                        atlas_width,
                        atlas_height,
                        rect,
                        h_off,
                        v_off,
                        &raster.samples,
                    );
                    proof {
                        assert forall|j: int|
                            0 <= j < i && (#[trigger] rasters@[j].bounds) is Some
                            implies slot_rendered(
                            pre,
                            rasters@[j].samples@,
                            spec_h_off(pre.cell_width as int, rasters@[j].bounds->0),
                            spec_v_off(metrics.baseline as int, rasters@[j].bounds->0),
                            j,
                        ) by {
                            assert(pre.cell_width == metrics.cell_width);
                            assert(slot_rendered(
                                pre,
                                rasters@[j].samples@,
                                spec_h_off(metrics.cell_width as int, rasters@[j].bounds->0),
                                spec_v_off(metrics.baseline as int, rasters@[j].bounds->0),
                                j,
                            ));
                        }
                        lemma_generate_step_blit(
                            pre,
                            atlas,
                            rasters@,
                            metrics.baseline as int,
                            i as int,
                        );
                    }
                },
            }
            i = i + 1;
        }
        Ok(atlas)
    }

    /// Rasterizes the full default inventory — ASCII, box drawing and
    /// block elements, 255 characters — into a fresh atlas.  `rasters`
    /// holds their rasterizations in inventory order: ASCII from code
    /// point 32 first, then the box-drawing block, then the block
    /// elements.
    pub fn generate_mvp(metrics: &FontMetrics, rasters: &Vec<GlyphRaster>) -> (r: Result<
        GlyphAtlas,
        AtlasError,
    >)
        requires
            metrics.wf(),
            rasters@.len() == 255,
        ensures
            r is Ok <==> 255 <= spec_layout_capacity(
                metrics.cell_width as int,
                metrics.cell_height as int,
            ),
            r is Err ==> r->Err_0 == AtlasError::CapacityExceeded,
            r is Ok ==> {
                let a = r->Ok_0;
                &&& a.wf()
                &&& a.cell_width == metrics.cell_width
                &&& a.cell_height == metrics.cell_height
                &&& a.uv_map@.len() == 255
                &&& forall|cp: u32|
                    32 <= cp <= 126 ==> #[trigger] a.uv_map@.contains_key(cp) && a.uv_map@[cp]
                        == cp - 32
                &&& forall|cp: u32|
                    0x2500 <= cp <= 0x257f ==> #[trigger] a.uv_map@.contains_key(cp)
                        && a.uv_map@[cp] == 95 + (cp - 0x2500)
                &&& forall|cp: u32|
                    0x2580 <= cp <= 0x259f ==> #[trigger] a.uv_map@.contains_key(cp)
                        && a.uv_map@[cp] == 223 + (cp - 0x2580)
            },
    {
        let chars = CharacterSets::all_mvp();
        let r = Self::generate(metrics, &chars, rasters);
        proof {
            if r is Ok {
                let a = r->Ok_0;
                assert forall|cp: u32| 32 <= cp <= 126 implies #[trigger] a.uv_map@.contains_key(
                    cp,
                ) && a.uv_map@[cp] == cp - 32 by {
                    let i = cp - 32;
                    assert(chars@[i as int] as u32 == cp);
                    assert(forall|j: int|
                        i < j < chars@.len() ==> (chars@[j] as u32) != (chars@[i as int] as u32));
                }
                assert forall|cp: u32| 0x2500 <= cp <= 0x257f implies #[trigger] a.uv_map@
                    .contains_key(cp) && a.uv_map@[cp] == 95 + (cp - 0x2500) by {
                    let i = 95 + (cp - 0x2500);
                    assert(chars@[i as int] as u32 == cp);
                    assert(forall|j: int|
                        i < j < chars@.len() ==> (chars@[j] as u32) != (chars@[i as int] as u32));
                }
                assert forall|cp: u32| 0x2580 <= cp <= 0x259f implies #[trigger] a.uv_map@
                    .contains_key(cp) && a.uv_map@[cp] == 223 + (cp - 0x2580) by {
                    let i = 223 + (cp - 0x2580);
                    assert(chars@[i as int] as u32 == cp);
                    assert(forall|j: int|
                        i < j < chars@.len() ==> (chars@[j] as u32) != (chars@[i as int] as u32));
                }
            }
        }
        r
    }

    /// Looks up the flat slot index of a character; `None` when the
    /// character is not in the atlas.  Absence is expected — the consumer
    /// substitutes a fallback glyph, it is no atlas error.
    pub fn get_glyph_index(&self, character: char) -> (r: Option<u32>)
        requires
            self.wf(),
        ensures
            r is Some <==> self.uv_map@.contains_key(character as u32),
            r is Some ==> r->0 == self.uv_map@[character as u32] && r->0
                < self.spec_capacity(),
    {
        match self.uv_map.get(&(character as u32)) {
            Some(slot) => Some(*slot),
            None => None,
        }
    }

    /// The pixel rectangle of a character's cell in the atlas; `None`
    /// when the character is not in the atlas.
    pub fn get_uv(&self, character: char) -> (r: Option<CellRect>)
        requires
            self.wf(),
        ensures
            r is Some <==> self.uv_map@.contains_key(character as u32),
            r is Some ==> r->0 == self.spec_slot_rect(
                self.uv_map@[character as u32] as int,
            ),
    {
        match self.get_glyph_index(character) {
            Some(slot) => {
                let cpr = self.cells_per_row();
                proof {
                    lemma_slot_rect_in_bounds(*self, slot as int);
                }
                Some(
                    CellRect {
                        x: (slot % cpr) * self.cell_width,
                        y: (slot / cpr) * self.cell_height,
                        width: self.cell_width,
                        height: self.cell_height,
                    },
                )
            },
            None => None,
        }
    }
}

/// Flat byte index of the pixel `(px, py)` in a row-major RGBA buffer.
pub open spec fn pixel_byte_index(atlas_width: int, px: int, py: int) -> int {
    (py * atlas_width + px) * 4
}

/// Whether a coverage sample, placed at the glyph offsets inside a cell,
/// covers the pixel `(px, py)`.
pub open spec fn sample_lands_at(
    s: CoverageSample,
    cell_x: int,
    cell_y: int,
    h_off: int,
    v_off: int,
    px: int,
    py: int,
) -> bool {
    px == cell_x + h_off + s.dx && py == cell_y + v_off + s.dy
}

/// Whether any sample of the sequence covers the pixel `(px, py)`.
pub open spec fn some_sample_lands(
    samples: Seq<CoverageSample>,
    cell_x: int,
    cell_y: int,
    h_off: int,
    v_off: int,
    px: int,
    py: int,
) -> bool {
    exists|k: int|
        0 <= k < samples.len() && sample_lands_at(
            #[trigger] samples[k],
            cell_x,
            cell_y,
            h_off,
            v_off,
            px,
            py,
        )
}

/// Distinct pixels of the buffer own disjoint groups of four bytes.
proof fn lemma_pixel_index_injective(atlas_width: int, px1: int, py1: int, px2: int, py2: int)
    requires
        0 <= px1 < atlas_width,
        0 <= px2 < atlas_width,
        0 <= py1,
        0 <= py2,
        !(px1 == px2 && py1 == py2),
    ensures
        pixel_byte_index(atlas_width, px1, py1) + 4 <= pixel_byte_index(atlas_width, px2, py2)
            || pixel_byte_index(atlas_width, px2, py2) + 4 <= pixel_byte_index(
            atlas_width,
            px1,
            py1,
        ),
{
    let i1 = py1 * atlas_width + px1;
    let i2 = py2 * atlas_width + px2;
    assert(i1 != i2) by (nonlinear_arith)
        requires
            i1 == py1 * atlas_width + px1,
            i2 == py2 * atlas_width + px2,
            0 <= px1 < atlas_width,
            0 <= px2 < atlas_width,
            0 <= py1,
            0 <= py2,
            !(px1 == px2 && py1 == py2),
    ;
    assert(i1 * 4 + 4 <= i2 * 4 || i2 * 4 + 4 <= i1 * 4) by (nonlinear_arith)
        requires
            i1 != i2,
    ;
}

/// A pixel of the cell rectangle indexes inside the buffer.
pub proof fn lemma_pixel_index_in_bounds(atlas_width: int, atlas_height: int, px: int, py: int)
    requires
        0 <= px < atlas_width,
        0 <= py < atlas_height,
    ensures
        0 <= pixel_byte_index(atlas_width, px, py),
        pixel_byte_index(atlas_width, px, py) + 4 <= atlas_width * atlas_height * 4,
{
    assert(0 <= (py * atlas_width + px) * 4 && (py * atlas_width + px) * 4 + 4 <= atlas_width
        * atlas_height * 4) by (nonlinear_arith)
        requires
            0 <= px < atlas_width,
            0 <= py < atlas_height,
    ;
}

/// A landing among the first `m1` samples is a landing among any longer
/// prefix.
proof fn lemma_lands_prefix_mono(
    samples: Seq<CoverageSample>,
    m1: int,
    m2: int,
    cx: int,
    cy: int,
    ho: int,
    vo: int,
    px: int,
    py: int,
)
    requires
        0 <= m1 <= m2 <= samples.len(),
        some_sample_lands(samples.take(m1), cx, cy, ho, vo, px, py),
    ensures
        some_sample_lands(samples.take(m2), cx, cy, ho, vo, px, py),
{
    let k = choose|k: int|
        0 <= k < samples.take(m1).len() && sample_lands_at(
            #[trigger] samples.take(m1)[k],
            cx,
            cy,
            ho,
            vo,
            px,
            py,
        );
    assert(sample_lands_at(samples.take(m2)[k], cx, cy, ho, vo, px, py));
}

/// A landing among the first `m + 1` samples that is not among the first
/// `m` can only be the landing of sample `m` itself.
proof fn lemma_lands_last_sample(
    samples: Seq<CoverageSample>,
    m: int,
    cx: int,
    cy: int,
    ho: int,
    vo: int,
    px: int,
    py: int,
)
    requires
        0 <= m < samples.len(),
        some_sample_lands(samples.take(m + 1), cx, cy, ho, vo, px, py),
        !some_sample_lands(samples.take(m), cx, cy, ho, vo, px, py),
    ensures
        px == cx + ho + samples[m].dx,
        py == cy + vo + samples[m].dy,
{
    let k = choose|k: int|
        0 <= k < samples.take(m + 1).len() && sample_lands_at(
            #[trigger] samples.take(m + 1)[k],
            cx,
            cy,
            ho,
            vo,
            px,
            py,
        );
    if k < m {
        assert(sample_lands_at(samples.take(m)[k], cx, cy, ho, vo, px, py));
    } else {
        assert(samples.take(m + 1)[m] == samples[m]);
    }
}

/// A pixel that some landing sample covered: opaque white, its alpha
/// taken from one sample (among the first `bound`) that covers it.
pub open spec fn pixel_is_glyph_white(
    tex: Seq<u8>,
    atlas_width: int,
    samples: Seq<CoverageSample>,
    bound: int,
    cell_x: int,
    cell_y: int,
    h_off: int,
    v_off: int,
    px: int,
    py: int,
) -> bool {
    let base = pixel_byte_index(atlas_width, px, py);
    &&& tex[base] == 255
    &&& tex[base + 1] == 255
    &&& tex[base + 2] == 255
    &&& exists|k: int|
        0 <= k < bound && sample_lands_at(
            #[trigger] samples[k],
            cell_x,
            cell_y,
            h_off,
            v_off,
            px,
            py,
        ) && tex[base + 3] == samples[k].alpha
}

/// Writes a glyph's coverage samples into one cell of the atlas as
/// opaque-white pixels whose alpha is the coverage.  A sample whose
/// target pixel falls outside the cell is silently discarded: outlines
/// that overflow their cell cannot corrupt neighboring cells or overrun
/// the buffer.  Every pixel no sample covers — in the cell or anywhere
/// else in the atlas — is left untouched.
#[verifier::rlimit(100)]
pub fn blit_glyph(
    texture_data: &mut Vec<u8>,
    atlas_width: u32,
    atlas_height: u32,
    rect: CellRect,
    h_off: u32,
    v_off: i64,
    samples: &Vec<CoverageSample>,
)
    requires
        old(texture_data)@.len() == atlas_width as int * atlas_height as int * 4,
        rect.x + rect.width <= atlas_width,
        rect.y + rect.height <= atlas_height,
        h_off <= 0x1_0000_0000,
        -0x2_0000_0000 <= v_off <= 0x2_0000_0000,
    ensures
        final(texture_data)@.len() == old(texture_data)@.len(),
        forall|px: int, py: int, c: int|
            0 <= px < atlas_width && 0 <= py < atlas_height && 0 <= c < 4 && !(rect_contains(
                rect,
                px,
                py,
            ) && some_sample_lands(
                samples@,
                rect.x as int,
                rect.y as int,
                h_off as int,
                v_off as int,
                px,
                py,
            )) ==> #[trigger] final(texture_data)@[pixel_byte_index(atlas_width as int, px, py)
                + c] == old(texture_data)@[pixel_byte_index(atlas_width as int, px, py) + c],
        forall|px: int, py: int|
            #![trigger rect_contains(rect, px, py)]
            rect_contains(rect, px, py) && some_sample_lands(
                samples@,
                rect.x as int,
                rect.y as int,
                h_off as int,
                v_off as int,
                px,
                py,
            ) ==> pixel_is_glyph_white(
                final(texture_data)@,
                atlas_width as int,
                samples@,
                samples@.len() as int,
                rect.x as int,
                rect.y as int,
                h_off as int,
                v_off as int,
                px,
                py,
            ),
{
    let ghost cx = rect.x as int;
    let ghost cy = rect.y as int;
    let ghost ho = h_off as int;
    let ghost vo = v_off as int;
    let ghost aw = atlas_width as int;
    let mut m: usize = 0;
    while m < samples.len()
        invariant
            m <= samples@.len(),
            texture_data@.len() == old(texture_data)@.len(),
            old(texture_data)@.len() == aw * atlas_height * 4,
            aw == atlas_width as int,
            cx == rect.x as int && cy == rect.y as int && ho == h_off as int && vo == v_off as int,
            rect.x + rect.width <= atlas_width,
            rect.y + rect.height <= atlas_height,
            h_off <= 0x1_0000_0000,
            -0x2_0000_0000 <= v_off <= 0x2_0000_0000,
            forall|px: int, py: int, c: int|
                0 <= px < atlas_width && 0 <= py < atlas_height && 0 <= c < 4 && !(rect_contains(
                    rect,
                    px,
                    py,
                ) && some_sample_lands(samples@.take(m as int), cx, cy, ho, vo, px, py))
                    ==> #[trigger] texture_data@[pixel_byte_index(aw, px, py) + c] == old(
                    texture_data,
                )@[pixel_byte_index(aw, px, py) + c],
            forall|px: int, py: int|
                #![trigger rect_contains(rect, px, py)]
                rect_contains(rect, px, py) && some_sample_lands(
                    samples@.take(m as int),
                    cx,
                    cy,
                    ho,
                    vo,
                    px,
                    py,
                ) ==> pixel_is_glyph_white(
                    texture_data@,
                    aw,
                    samples@,
                    m as int,
                    cx,
                    cy,
                    ho,
                    vo,
                    px,
                    py,
                ),
        decreases samples@.len() - m,
    {
        let s = samples[m];
        let px: i64 = rect.x as i64 + h_off as i64 + s.dx as i64;
        let py: i64 = rect.y as i64 + v_off + s.dy as i64;
        let ghost pre = texture_data@;
        proof {
            assert(samples@.take(m + 1) =~= samples@.take(m as int).push(samples@[m as int]));
        }
        if px < rect.x as i64 + rect.width as i64 && py >= rect.y as i64 && py < rect.y as i64
            + rect.height as i64 {
            let pxu: usize = px as usize;
            let pyu: usize = py as usize;
            let total_len: usize = texture_data.len();
            proof {
                lemma_pixel_index_in_bounds(aw, atlas_height as int, px as int, py as int);
                assert((pyu * (atlas_width as usize) + pxu) * 4 == pixel_byte_index(
                    aw,
                    px as int,
                    py as int,
                )) by (nonlinear_arith)
                    requires
                        pxu == px as int,
                        pyu == py as int,
                        aw == atlas_width as int,
                ;
                assert(pixel_byte_index(aw, px as int, py as int) + 4 <= total_len as int);
            }
            let idx: usize = (pyu * (atlas_width as usize) + pxu) * 4;
            texture_data[idx] = 255;
            texture_data[idx + 1] = 255;
            texture_data[idx + 2] = 255;
            texture_data[idx + 3] = s.alpha;
            proof {
                let gx = px as int;
                let gy = py as int;
                assert(sample_lands_at(samples@[m as int], cx, cy, ho, vo, gx, gy));
                assert forall|qx: int, qy: int, c: int|
                    0 <= qx < atlas_width && 0 <= qy < atlas_height && 0 <= c < 4 && !(qx == gx
                        && qy == gy) implies #[trigger] texture_data@[pixel_byte_index(aw, qx, qy)
                    + c] == pre[pixel_byte_index(aw, qx, qy) + c] by {
                    lemma_pixel_index_injective(aw, qx, qy, gx, gy);
                    lemma_pixel_index_in_bounds(aw, atlas_height as int, qx, qy);
                }
                assert forall|qx: int, qy: int|
                    #![trigger rect_contains(rect, qx, qy)]
                    rect_contains(rect, qx, qy) && some_sample_lands(
                        samples@.take(m + 1),
                        cx,
                        cy,
                        ho,
                        vo,
                        qx,
                        qy,
                    ) implies pixel_is_glyph_white(
                    texture_data@,
                    aw,
                    samples@,
                    m + 1,
                    cx,
                    cy,
                    ho,
                    vo,
                    qx,
                    qy,
                ) by {
                    if qx == gx && qy == gy {
                        let base = pixel_byte_index(aw, qx, qy);
                        assert(base == idx as int);
                        assert(texture_data@[base] == 255);
                        assert(texture_data@[base + 1] == 255);
                        assert(texture_data@[base + 2] == 255);
                        assert(texture_data@[base + 3] == samples@[m as int].alpha);
                        assert(sample_lands_at(samples@[m as int], cx, cy, ho, vo, qx, qy));
                    } else {
                        if some_sample_lands(samples@.take(m as int), cx, cy, ho, vo, qx, qy) {
                            assert(pixel_is_glyph_white(pre, aw, samples@, m as int, cx, cy, ho,
                                vo, qx, qy));
                            let base = pixel_byte_index(aw, qx, qy);
                            let k0 = choose|k0: int|
                                0 <= k0 < m && sample_lands_at(
                                    #[trigger] samples@[k0],
                                    cx,
                                    cy,
                                    ho,
                                    vo,
                                    qx,
                                    qy,
                                ) && pre[pixel_byte_index(aw, qx, qy) + 3] == samples@[k0].alpha;
                            assert(texture_data@[base + 0] == pre[base + 0]);
                            assert(texture_data@[base + 1] == pre[base + 1]);
                            assert(texture_data@[base + 2] == pre[base + 2]);
                            assert(texture_data@[base + 3] == pre[base + 3]);
                            assert(sample_lands_at(samples@[k0], cx, cy, ho, vo, qx, qy)
                                && texture_data@[base + 3] == samples@[k0].alpha);
                        } else {
                            let k1 = choose|k1: int|
                                0 <= k1 < samples@.take(m + 1).len() && sample_lands_at(
                                    #[trigger] samples@.take(m + 1)[k1],
                                    cx,
                                    cy,
                                    ho,
                                    vo,
                                    qx,
                                    qy,
                                );
                            if k1 < m {
                                assert(sample_lands_at(samples@.take(m as int)[k1], cx, cy, ho,
                                    vo, qx, qy));
                            } else {
                                assert(samples@.take(m + 1)[m as int] == samples@[m as int]);
                                assert(qx == gx && qy == gy);
                            }
                            assert(false);
                        }
                    }
                }
                assert forall|qx: int, qy: int, c: int|
                    0 <= qx < atlas_width && 0 <= qy < atlas_height && 0 <= c < 4 && !(
                    rect_contains(rect, qx, qy) && some_sample_lands(
                        samples@.take(m + 1),
                        cx,
                        cy,
                        ho,
                        vo,
                        qx,
                        qy,
                    )) implies #[trigger] texture_data@[pixel_byte_index(aw, qx, qy) + c] == old(
                    texture_data,
                )@[pixel_byte_index(aw, qx, qy) + c] by {
                    if qx == gx && qy == gy {
                        assert(sample_lands_at(samples@.take(m + 1)[m as int], cx, cy, ho, vo,
                            gx, gy));
                        assert(false);
                    } else {
                        if rect_contains(rect, qx, qy) && some_sample_lands(
                            samples@.take(m as int),
                            cx,
                            cy,
                            ho,
                            vo,
                            qx,
                            qy,
                        ) {
                            lemma_lands_prefix_mono(samples@, m as int, m + 1, cx, cy, ho, vo,
                                qx, qy);
                            assert(false);
                        }
                    }
                }
            }
        } else {
            proof {
                let gx = cx + ho + s.dx;
                let gy = cy + vo + s.dy;
                assert(!(rect.x <= gx < rect.x + rect.width && rect.y <= gy < rect.y
                    + rect.height));
                assert forall|qx: int, qy: int|
                    #![trigger rect_contains(rect, qx, qy)]
                    rect_contains(rect, qx, qy) && some_sample_lands(
                        samples@.take(m + 1),
                        cx,
                        cy,
                        ho,
                        vo,
                        qx,
                        qy,
                    ) implies some_sample_lands(samples@.take(m as int), cx, cy, ho, vo, qx, qy)
                    by {
                    if !some_sample_lands(samples@.take(m as int), cx, cy, ho, vo, qx, qy) {
                        lemma_lands_last_sample(samples@, m as int, cx, cy, ho, vo, qx, qy);
                        assert(qx == gx && qy == gy);
                        assert(false);
                    }
                }
            }
        }
        m = m + 1;
    }
    proof {
        assert(samples@.take(samples@.len() as int) =~= samples@);
    }
}

/// Whether the pixel lies in the rectangle of one of the first
/// `n_slots` slots.
pub open spec fn covered_by_slot(a: GlyphAtlas, n_slots: int, px: int, py: int) -> bool {
    exists|j: int| 0 <= j < n_slots && rect_contains(#[trigger] a.spec_slot_rect(j), px, py)
}

/// Every pixel of the slot's cell is fully transparent.
pub open spec fn slot_transparent(a: GlyphAtlas, slot: int) -> bool {
    forall|px: int, py: int, c: int|
        rect_contains(a.spec_slot_rect(slot), px, py) && 0 <= c < 4 ==> #[trigger] a
            .texture_data@[pixel_byte_index(a.atlas_width as int, px, py) + c] == 0
}

/// Every byte of the pixel is zero: fully transparent.
pub open spec fn pixel_transparent(tex: Seq<u8>, atlas_width: int, px: int, py: int) -> bool {
    forall|c: int| 0 <= c < 4 ==> #[trigger] tex[pixel_byte_index(atlas_width, px, py) + c] == 0
}

/// The horizontal offset that centers a glyph in its cell: half the
/// leftover width, clamped to zero for outlines wider than the cell.
pub open spec fn spec_h_off(cell_width: int, gb: GlyphBounds) -> int {
    if gb.width < cell_width {
        (cell_width - gb.width) / 2
    } else {
        0
    }
}

/// The vertical offset that puts a glyph on the baseline.
pub open spec fn spec_v_off(baseline: int, gb: GlyphBounds) -> int {
    baseline - gb.min_y
}

/// A slot rendered from a set of coverage samples at the given glyph
/// offsets: each cell pixel a landing sample covers is opaque white
/// with that coverage as alpha, and every other cell pixel is fully
/// transparent.
pub open spec fn slot_rendered(
    a: GlyphAtlas,
    samples: Seq<CoverageSample>,
    h_off: int,
    v_off: int,
    slot: int,
) -> bool {
    forall|px: int, py: int|
        #![trigger rect_contains(a.spec_slot_rect(slot), px, py)]
        rect_contains(a.spec_slot_rect(slot), px, py) ==> {
            if some_sample_lands(samples, a.spec_slot_x(slot), a.spec_slot_y(slot), h_off, v_off,
                px, py) {
                pixel_is_glyph_white(
                    a.texture_data@,
                    a.atlas_width as int,
                    samples,
                    samples.len() as int,
                    a.spec_slot_x(slot),
                    a.spec_slot_y(slot),
                    h_off,
                    v_off,
                    px,
                    py,
                )
            } else {
                pixel_transparent(a.texture_data@, a.atlas_width as int, px, py)
            }
        }
}

/// A glyph-white pixel stays glyph-white when its bytes are unchanged.
proof fn lemma_glyph_white_unchanged(
    tex1: Seq<u8>,
    tex2: Seq<u8>,
    atlas_width: int,
    samples: Seq<CoverageSample>,
    bound: int,
    cx: int,
    cy: int,
    ho: int,
    vo: int,
    px: int,
    py: int,
)
    requires
        pixel_is_glyph_white(tex1, atlas_width, samples, bound, cx, cy, ho, vo, px, py),
        forall|c: int|
            0 <= c < 4 ==> #[trigger] tex2[pixel_byte_index(atlas_width, px, py) + c] == tex1[
                pixel_byte_index(atlas_width, px, py) + c],
    ensures
        pixel_is_glyph_white(tex2, atlas_width, samples, bound, cx, cy, ho, vo, px, py),
{
    let base = pixel_byte_index(atlas_width, px, py);
    assert(tex2[base + 0] == tex1[base + 0]);
    assert(tex2[base + 1] == tex1[base + 1]);
    assert(tex2[base + 2] == tex1[base + 2]);
    assert(tex2[base + 3] == tex1[base + 3]);
    let k = choose|k: int|
        0 <= k < bound && sample_lands_at(#[trigger] samples[k], cx, cy, ho, vo, px, py) && tex1[
            base + 3] == samples[k].alpha;
    assert(tex2[base + 3] == samples[k].alpha);
}

/// Skipping a slot with no outline keeps its cell transparent and
/// extends the coverage invariant by one slot.
proof fn lemma_generate_step_none(atlas: GlyphAtlas, rasters: Seq<GlyphRaster>, i: int)
    requires
        atlas.wf(),
        0 <= i < rasters.len(),
        rasters.len() <= atlas.spec_capacity(),
        rasters[i].bounds is None,
        forall|j: int|
            0 <= j < i && (#[trigger] rasters[j].bounds) is None ==> slot_transparent(atlas, j),
        forall|px: int, py: int, c: int|
            0 <= px < atlas.atlas_width && 0 <= py < atlas.atlas_height && 0 <= c < 4
                && !covered_by_slot(atlas, i, px, py) ==> #[trigger] atlas.texture_data@[
            pixel_byte_index(atlas.atlas_width as int, px, py) + c] == 0,
    ensures
        forall|j: int|
            0 <= j < i + 1 && (#[trigger] rasters[j].bounds) is None ==> slot_transparent(
                atlas,
                j,
            ),
        forall|px: int, py: int, c: int|
            0 <= px < atlas.atlas_width && 0 <= py < atlas.atlas_height && 0 <= c < 4
                && !covered_by_slot(atlas, i + 1, px, py) ==> #[trigger] atlas.texture_data@[
            pixel_byte_index(atlas.atlas_width as int, px, py) + c] == 0,
{
    let aw = atlas.atlas_width as int;
    assert forall|j: int| 0 <= j < i + 1 && (#[trigger] rasters[j].bounds) is None
        implies slot_transparent(atlas, j) by {
        if j == i {
            lemma_slot_rect_in_bounds(atlas, i);
            assert forall|px: int, py: int, c: int|
                rect_contains(atlas.spec_slot_rect(i), px, py) && 0 <= c < 4 implies #[trigger]
                atlas.texture_data@[pixel_byte_index(aw, px, py) + c] == 0 by {
                assert forall|j2: int| 0 <= j2 < i implies !rect_contains(
                    #[trigger] atlas.spec_slot_rect(j2),
                    px,
                    py,
                ) by {
                    lemma_slot_rects_disjoint(atlas, j2, i, px, py);
                }
                assert(!covered_by_slot(atlas, i, px, py));
            }
        }
    }
    assert forall|px: int, py: int, c: int|
        0 <= px < atlas.atlas_width && 0 <= py < atlas.atlas_height && 0 <= c < 4
            && !covered_by_slot(atlas, i + 1, px, py) implies #[trigger] atlas.texture_data@[
    pixel_byte_index(aw, px, py) + c] == 0 by {
        if covered_by_slot(atlas, i, px, py) {
            let j = choose|j: int|
                0 <= j < i && rect_contains(#[trigger] atlas.spec_slot_rect(j), px, py);
            assert(rect_contains(atlas.spec_slot_rect(j), px, py));
            assert(false);
        }
    }
}

/// After blitting slot `i`, that slot is rendered from its samples,
/// earlier slots keep their rendering or transparency, and pixels
/// beyond the first `i + 1` slots stay untouched.
#[verifier::rlimit(100)]
proof fn lemma_generate_step_blit(
    pre: GlyphAtlas,
    post: GlyphAtlas,
    rasters: Seq<GlyphRaster>,
    baseline: int,
    i: int,
)
    requires
        pre.wf(),
        0 <= i < rasters.len(),
        rasters.len() <= pre.spec_capacity(),
        post.atlas_width == pre.atlas_width && post.atlas_height == pre.atlas_height,
        post.cell_width == pre.cell_width && post.cell_height == pre.cell_height,
        post.texture_data@.len() == pre.texture_data@.len(),
        rasters[i].bounds is Some,
        // what the blit guarantees: pixels without a landing sample of
        // slot `i` unchanged, landing pixels glyph-white
        forall|px: int, py: int, c: int|
            0 <= px < pre.atlas_width && 0 <= py < pre.atlas_height && 0 <= c < 4 && !(
            rect_contains(pre.spec_slot_rect(i), px, py) && some_sample_lands(
                rasters[i].samples@,
                pre.spec_slot_x(i),
                pre.spec_slot_y(i),
                spec_h_off(pre.cell_width as int, rasters[i].bounds->0),
                spec_v_off(baseline, rasters[i].bounds->0),
                px,
                py,
            )) ==> #[trigger] post.texture_data@[pixel_byte_index(pre.atlas_width as int, px, py)
                + c] == pre.texture_data@[pixel_byte_index(pre.atlas_width as int, px, py) + c],
        forall|px: int, py: int|
            #![trigger rect_contains(pre.spec_slot_rect(i), px, py)]
            rect_contains(pre.spec_slot_rect(i), px, py) && some_sample_lands(
                rasters[i].samples@,
                pre.spec_slot_x(i),
                pre.spec_slot_y(i),
                spec_h_off(pre.cell_width as int, rasters[i].bounds->0),
                spec_v_off(baseline, rasters[i].bounds->0),
                px,
                py,
            ) ==> pixel_is_glyph_white(
                post.texture_data@,
                pre.atlas_width as int,
                rasters[i].samples@,
                rasters[i].samples@.len() as int,
                pre.spec_slot_x(i),
                pre.spec_slot_y(i),
                spec_h_off(pre.cell_width as int, rasters[i].bounds->0),
                spec_v_off(baseline, rasters[i].bounds->0),
                px,
                py,
            ),
        forall|j: int|
            0 <= j < i && (#[trigger] rasters[j].bounds) is None ==> slot_transparent(pre, j),
        forall|j: int|
            0 <= j < i && (#[trigger] rasters[j].bounds) is Some ==> slot_rendered(
                pre,
                rasters[j].samples@,
                spec_h_off(pre.cell_width as int, rasters[j].bounds->0),
                spec_v_off(baseline, rasters[j].bounds->0),
                j,
            ),
        forall|px: int, py: int, c: int|
            0 <= px < pre.atlas_width && 0 <= py < pre.atlas_height && 0 <= c < 4
                && !covered_by_slot(pre, i, px, py) ==> #[trigger] pre.texture_data@[
            pixel_byte_index(pre.atlas_width as int, px, py) + c] == 0,
    ensures
        forall|j: int|
            0 <= j < i + 1 && (#[trigger] rasters[j].bounds) is None ==> slot_transparent(
                post,
                j,
            ),
        forall|j: int|
            0 <= j < i + 1 && (#[trigger] rasters[j].bounds) is Some ==> slot_rendered(
                post,
                rasters[j].samples@,
                spec_h_off(post.cell_width as int, rasters[j].bounds->0),
                spec_v_off(baseline, rasters[j].bounds->0),
                j,
            ),
        forall|px: int, py: int, c: int|
            0 <= px < post.atlas_width && 0 <= py < post.atlas_height && 0 <= c < 4
                && !covered_by_slot(post, i + 1, px, py) ==> #[trigger] post.texture_data@[
            pixel_byte_index(post.atlas_width as int, px, py) + c] == 0,
{
    let aw = pre.atlas_width as int;
    assert(forall|j2: int| #[trigger] post.spec_slot_rect(j2) == pre.spec_slot_rect(j2));
    assert forall|j: int| 0 <= j < i + 1 && (#[trigger] rasters[j].bounds) is None
        implies slot_transparent(post, j) by {
        assert(j < i);
        assert(slot_transparent(pre, j));
        assert forall|px: int, py: int, c: int|
            rect_contains(post.spec_slot_rect(j), px, py) && 0 <= c < 4 implies #[trigger] post
            .texture_data@[pixel_byte_index(aw, px, py) + c] == 0 by {
            lemma_slot_rect_in_bounds(pre, j);
            lemma_slot_rects_disjoint(pre, j, i, px, py);
            assert(rect_contains(pre.spec_slot_rect(j), px, py));
            assert(pre.texture_data@[pixel_byte_index(aw, px, py) + c] == 0);
        }
    }
    assert forall|j: int| 0 <= j < i + 1 && (#[trigger] rasters[j].bounds) is Some
        implies slot_rendered(
        post,
        rasters[j].samples@,
        spec_h_off(post.cell_width as int, rasters[j].bounds->0),
        spec_v_off(baseline, rasters[j].bounds->0),
        j,
    ) by {
        let samples_j = rasters[j].samples@;
        let hoj = spec_h_off(pre.cell_width as int, rasters[j].bounds->0);
        let voj = spec_v_off(baseline, rasters[j].bounds->0);
        if j == i {
            assert forall|px: int, py: int|
                #![trigger rect_contains(post.spec_slot_rect(i), px, py)]
                rect_contains(post.spec_slot_rect(i), px, py) implies ({
                if some_sample_lands(samples_j, post.spec_slot_x(i), post.spec_slot_y(i), hoj,
                    voj, px, py) {
                    pixel_is_glyph_white(
                        post.texture_data@,
                        post.atlas_width as int,
                        samples_j,
                        samples_j.len() as int,
                        post.spec_slot_x(i),
                        post.spec_slot_y(i),
                        hoj,
                        voj,
                        px,
                        py,
                    )
                } else {
                    pixel_transparent(post.texture_data@, post.atlas_width as int, px, py)
                }
            }) by {
                lemma_slot_rect_in_bounds(pre, i);
                if !some_sample_lands(samples_j, pre.spec_slot_x(i), pre.spec_slot_y(i), hoj,
                    voj, px, py) {
                    assert forall|j2: int| 0 <= j2 < i implies !rect_contains(
                        #[trigger] pre.spec_slot_rect(j2),
                        px,
                        py,
                    ) by {
                        lemma_slot_rects_disjoint(pre, j2, i, px, py);
                    }
                    assert(!covered_by_slot(pre, i, px, py));
                    assert forall|c: int| 0 <= c < 4 implies #[trigger] post.texture_data@[
                    pixel_byte_index(aw, px, py) + c] == 0 by {
                        assert(pre.texture_data@[pixel_byte_index(aw, px, py) + c] == 0);
                    }
                }
            }
        } else {
            assert(slot_rendered(pre, samples_j, hoj, voj, j));
            assert forall|px: int, py: int|
                #![trigger rect_contains(post.spec_slot_rect(j), px, py)]
                rect_contains(post.spec_slot_rect(j), px, py) implies ({
                if some_sample_lands(samples_j, post.spec_slot_x(j), post.spec_slot_y(j), hoj,
                    voj, px, py) {
                    pixel_is_glyph_white(
                        post.texture_data@,
                        post.atlas_width as int,
                        samples_j,
                        samples_j.len() as int,
                        post.spec_slot_x(j),
                        post.spec_slot_y(j),
                        hoj,
                        voj,
                        px,
                        py,
                    )
                } else {
                    pixel_transparent(post.texture_data@, post.atlas_width as int, px, py)
                }
            }) by {
                lemma_slot_rect_in_bounds(pre, j);
                lemma_slot_rects_disjoint(pre, j, i, px, py);
                assert(rect_contains(pre.spec_slot_rect(j), px, py));
                assert forall|c: int| 0 <= c < 4 implies #[trigger] post.texture_data@[
                pixel_byte_index(aw, px, py) + c] == pre.texture_data@[pixel_byte_index(
                    aw,
                    px,
                    py,
                ) + c] by {}
                if some_sample_lands(samples_j, pre.spec_slot_x(j), pre.spec_slot_y(j), hoj, voj,
                    px, py) {
                    lemma_glyph_white_unchanged(
                        pre.texture_data@,
                        post.texture_data@,
                        aw,
                        samples_j,
                        samples_j.len() as int,
                        pre.spec_slot_x(j),
                        pre.spec_slot_y(j),
                        hoj,
                        voj,
                        px,
                        py,
                    );
                }
            }
        }
    }
    assert forall|px: int, py: int, c: int|
        0 <= px < post.atlas_width && 0 <= py < post.atlas_height && 0 <= c < 4
            && !covered_by_slot(post, i + 1, px, py) implies #[trigger] post.texture_data@[
    pixel_byte_index(aw, px, py) + c] == 0 by {
        assert(post.spec_slot_rect(i) == pre.spec_slot_rect(i));
        assert(!rect_contains(post.spec_slot_rect(i), px, py));
        assert(!rect_contains(pre.spec_slot_rect(i), px, py));
        if covered_by_slot(pre, i, px, py) {
            let j = choose|j: int|
                0 <= j < i && rect_contains(#[trigger] pre.spec_slot_rect(j), px, py);
            assert(rect_contains(post.spec_slot_rect(j), px, py));
            assert(false);
        }
        assert(pre.texture_data@[pixel_byte_index(aw, px, py) + c] == 0);
    }
}

/// A slot within capacity has a rectangle that lies inside the atlas,
/// and its stored pixel coordinates equal the layout arithmetic exactly.
pub proof fn lemma_slot_rect_in_bounds(a: GlyphAtlas, slot: int)
    requires
        a.wf(),
        0 <= slot < a.spec_capacity(),
    ensures
        0 <= a.spec_slot_x(slot),
        a.spec_slot_x(slot) + a.cell_width <= a.atlas_width,
        0 <= a.spec_slot_y(slot),
        a.spec_slot_y(slot) + a.cell_height <= a.atlas_height,
        a.spec_slot_rect(slot).x == a.spec_slot_x(slot),
        a.spec_slot_rect(slot).y == a.spec_slot_y(slot),
        a.spec_cells_per_row() > 0,
{
    let cpr = a.spec_cells_per_row();
    let cpc = a.spec_cells_per_column();
    let cw = a.cell_width as int;
    let ch = a.cell_height as int;
    assert(cpr > 0) by (nonlinear_arith)
        requires
            cpr * cpc > slot >= 0,
            cpc >= 0,
    ;
    let col = slot % cpr;
    let row = slot / cpr;
    assert(0 <= col < cpr && 0 <= row < cpc) by (nonlinear_arith)
        requires
            cpr > 0,
            0 <= slot < cpr * cpc,
            col == slot % cpr,
            row == slot / cpr,
    ;
    assert(0 <= col * cw && (col + 1) * cw <= cpr * cw) by (nonlinear_arith)
        requires
            0 <= col,
            col + 1 <= cpr,
            cw >= 0,
    ;
    assert(cpr * cw <= a.atlas_width) by (nonlinear_arith)
        requires
            cpr == a.atlas_width as int / cw,
            cw >= 1,
    ;
    assert((col + 1) * cw == col * cw + cw) by (nonlinear_arith);
    assert(0 <= row * ch && (row + 1) * ch <= cpc * ch) by (nonlinear_arith)
        requires
            0 <= row,
            row + 1 <= cpc,
            ch >= 0,
    ;
    assert(cpc * ch <= a.atlas_height) by (nonlinear_arith)
        requires
            cpc == a.atlas_height as int / ch,
            ch >= 1,
    ;
    assert((row + 1) * ch == row * ch + ch) by (nonlinear_arith);
}

/// After laying out a duplicate-free inventory, the lookup table covers
/// it exactly: each character resolves to the slot of its position, the
/// slot's rectangle lies inside the atlas, and the rectangles of two
/// different characters never share a pixel.  Together with the lookup
/// table's size — equal to the inventory's, by the layout contract —
/// this pins one distinct rectangle per inventory character.
pub proof fn lemma_lookup_covers_inventory(
    a: GlyphAtlas,
    chars: Seq<char>,
    i: int,
    j: int,
    px: int,
    py: int,
)
    requires
        a.wf(),
        spec_indexes_chars(a.uv_map@, chars),
        distinct_codepoints(chars),
        chars.len() <= a.spec_capacity(),
        0 <= i < chars.len(),
        0 <= j < chars.len(),
    ensures
        a.uv_map@.contains_key(chars[i] as u32),
        a.uv_map@[chars[i] as u32] == i,
        0 <= a.spec_slot_x(i) && a.spec_slot_x(i) + a.cell_width <= a.atlas_width,
        0 <= a.spec_slot_y(i) && a.spec_slot_y(i) + a.cell_height <= a.atlas_height,
        i != j ==> !(rect_contains(a.spec_slot_rect(i), px, py) && rect_contains(
            a.spec_slot_rect(j),
            px,
            py,
        )),
{
    assert(a.uv_map@.contains_key(chars[i] as u32));
    assert(forall|k: int| i < k < chars.len() ==> (chars[k] as u32) != (chars[i] as u32));
    assert(a.uv_map@[chars[i] as u32] == i);
    lemma_slot_rect_in_bounds(a, i);
    if i != j {
        lemma_slot_rects_disjoint(a, i, j, px, py);
    }
}

/// Distinct slots have disjoint rectangles: no pixel belongs to two
/// cells.
pub proof fn lemma_slot_rects_disjoint(a: GlyphAtlas, s1: int, s2: int, px: int, py: int)
    requires
        a.wf(),
        0 <= s1 < a.spec_capacity(),
        0 <= s2 < a.spec_capacity(),
        s1 != s2,
    ensures
        !(rect_contains(a.spec_slot_rect(s1), px, py) && rect_contains(
            a.spec_slot_rect(s2),
            px,
            py,
        )),
{
    let cpr = a.spec_cells_per_row();
    let cw = a.cell_width as int;
    let ch = a.cell_height as int;
    lemma_slot_rect_in_bounds(a, s1);
    lemma_slot_rect_in_bounds(a, s2);
    assert(cpr > 0) by (nonlinear_arith)
        requires
            cpr * a.spec_cells_per_column() > s1 >= 0,
            a.spec_cells_per_column() >= 0,
    ;
    if rect_contains(a.spec_slot_rect(s1), px, py) && rect_contains(a.spec_slot_rect(s2), px, py) {
        let c1 = s1 % cpr;
        let r1 = s1 / cpr;
        let c2 = s2 % cpr;
        let r2 = s2 / cpr;
        assert(c1 == c2) by (nonlinear_arith)
            requires
                cw >= 1,
                c1 * cw <= px < c1 * cw + cw,
                c2 * cw <= px < c2 * cw + cw,
        ;
        assert(r1 == r2) by (nonlinear_arith)
            requires
                ch >= 1,
                r1 * ch <= py < r1 * ch + ch,
                r2 * ch <= py < r2 * ch + ch,
        ;
        assert(s1 == s2) by (nonlinear_arith)
            requires
                cpr > 0,
                c1 == s1 % cpr && r1 == s1 / cpr,
                c2 == s2 % cpr && r2 == s2 / cpr,
                c1 == c2 && r1 == r2,
        ;
    }
}

} // verus!
