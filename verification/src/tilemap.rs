//! Decisions of the tile-animation adapter that applies animator frames to
//! tilemap tiles.
use vstd::prelude::*;
use crate::animation::{LdtkTileAnimation, LdtkTileAnimationFrame, LdtkTileAnimator};
use crate::catalog::{LdtkIntPoint, LdtkLevelInfo, LdtkMapCatalog, LdtkTileMetadata};

verus! {

/// Rust's integer division of `a` by a positive `b`, rounding toward zero.
pub open spec fn div_toward_zero(a: int, b: int) -> int {
    if a >= 0 {
        a / b
    } else {
        -((-a) / b)
    }
}

/// The grid cell that holds pixel `position` in a layer whose cells are
/// `grid_size` pixels wide (a positive size).
pub open spec fn grid_cell(position: LdtkIntPoint, grid_size: int) -> LdtkIntPoint {
    LdtkIntPoint {
        x: div_toward_zero(position.x as int, grid_size) as i32,
        y: div_toward_zero(position.y as int, grid_size) as i32,
    }
}

/// The grid cell of a tile at pixel `position` in a layer whose cells are
/// `grid_size` pixels wide; `None` for a layer without a positive grid size.
pub fn tile_grid_position(position: LdtkIntPoint, grid_size: i32) -> (r: Option<LdtkIntPoint>)
    ensures
        grid_size <= 0 ==> r is None,
        grid_size > 0 ==> r == Some(grid_cell(position, grid_size as int)),
{
    if grid_size <= 0 {
        return None;
    }
    Some(LdtkIntPoint { x: position.x / grid_size, y: position.y / grid_size })
}

/// One animated tile, to be looked up by layer and grid cell: the IIDs of its
/// level and layer, its grid cell, and its animation.
#[derive(Debug, Clone)]
pub struct LdtkTileAnimationEntry {
    /// IID of the level that holds the tile.
    pub level_iid: String,
    /// IID of the layer that holds the tile.
    pub layer_iid: String,
    /// Grid cell of the tile within its layer.
    pub cell: LdtkIntPoint,
    /// The tile's animation.
    pub animation: LdtkTileAnimation,
}

/// What an entry holds: level IID, layer IID, grid cell, frames, and whether
/// the animation repeats.
pub type TileEntryView = (Seq<char>, Seq<char>, LdtkIntPoint, Seq<LdtkTileAnimationFrame>, bool);

impl LdtkTileAnimationEntry {
    /// What the entry holds.
    pub open spec fn view_of(self) -> TileEntryView {
        (self.level_iid@, self.layer_iid@, self.cell, self.animation.frames@, self.animation.repeat)
    }
}

/// What a list of entries holds, in order.
pub open spec fn entries_view(entries: Seq<LdtkTileAnimationEntry>) -> Seq<TileEntryView> {
    entries.map_values(|e: LdtkTileAnimationEntry| e.view_of())
}

/// The entry of a tile of the level with IID `level_iid`: present when the
/// tile has an animation and its layer is in the catalog with a positive grid
/// size.
pub open spec fn tile_entry(catalog: LdtkMapCatalog, level_iid: Seq<char>, tile: LdtkTileMetadata) -> Option<
    TileEntryView,
> {
    match tile.animation {
        None => None,
        Some(animation) => match catalog.spec_layer(tile.layer_iid@) {
            None => None,
            Some(layer) => if layer.grid_size <= 0 {
                None
            } else {
                Some(
                    (
                        level_iid,
                        tile.layer_iid@,
                        grid_cell(tile.layer_position, layer.grid_size as int),
                        animation.frames@,
                        animation.repeat,
                    ),
                )
            },
        },
    }
}

/// The entries of `tiles`, in order, for the level with IID `level_iid`.
pub open spec fn tile_entries(catalog: LdtkMapCatalog, level_iid: Seq<char>, tiles: Seq<LdtkTileMetadata>) -> Seq<
    TileEntryView,
>
    decreases tiles.len(),
{
    if tiles.len() == 0 {
        Seq::empty()
    } else {
        let rest = tile_entries(catalog, level_iid, tiles.drop_last());
        match tile_entry(catalog, level_iid, tiles.last()) {
            Some(entry) => rest.push(entry),
            None => rest,
        }
    }
}

/// The entries of the tiles of `levels`, level by level, in order.
pub open spec fn level_entries(catalog: LdtkMapCatalog, levels: Seq<LdtkLevelInfo>) -> Seq<TileEntryView>
    decreases levels.len(),
{
    if levels.len() == 0 {
        Seq::empty()
    } else {
        level_entries(catalog, levels.drop_last()) + tile_entries(
            catalog,
            levels.last().iid@,
            levels.last().tiles@,
        )
    }
}

proof fn lemma_grid_cell_fits(v: i32, g: i32)
    requires
        g > 0,
    ensures
        i32::MIN <= div_toward_zero(v as int, g as int) <= i32::MAX,
{
    if v >= 0 {
        assert(0 <= (v as int) / (g as int) <= v) by (nonlinear_arith)
            requires
                v >= 0,
                g > 0,
        ;
    } else {
        assert(0 <= (-(v as int)) / (g as int) <= -(v as int)) by (nonlinear_arith)
            requires
                v < 0,
                g > 0,
        ;
    }
}

/// Lists every animated tile of the catalog's levels, level by level in
/// catalog order and tile by tile: the tiles with an animation whose layer is
/// in the catalog with a positive grid size, at the grid cell that holds
/// their pixel position. Indexed by layer and cell, a later entry replaces an
/// earlier one.
pub fn tile_animation_entries(catalog: &LdtkMapCatalog) -> (r: Vec<LdtkTileAnimationEntry>)
    ensures
        entries_view(r@) == level_entries(*catalog, catalog.levels_seq()),
{
    let levels = catalog.levels();
    let mut out: Vec<LdtkTileAnimationEntry> = Vec::new();
    let mut i: usize = 0;
    while i < levels.len()
        invariant
            i <= levels@.len(),
            levels@ == catalog.levels_seq(),
            entries_view(out@) == level_entries(*catalog, levels@.take(i as int)),
        decreases levels@.len() - i,
    {
        let level = &levels[i];
        let ghost before = entries_view(out@);
        let mut j: usize = 0;
        while j < level.tiles.len()
            invariant
                j <= level.tiles@.len(),
                entries_view(out@) == before + tile_entries(*catalog, level.iid@, level.tiles@.take(j as int)),
            decreases level.tiles@.len() - j,
        {
            let tile = &level.tiles[j];
            let ghost prefix = level.tiles@.take(j as int);
            assert(level.tiles@.take(j + 1).drop_last() == prefix);
            assert(level.tiles@.take(j + 1).last() == *tile);
            if let Some(animation) = &tile.animation {
                if let Some(layer) = catalog.layer(tile.layer_iid.as_str()) {
                    if layer.grid_size > 0 {
                        proof {
                            lemma_grid_cell_fits(tile.layer_position.x, layer.grid_size);
                            lemma_grid_cell_fits(tile.layer_position.y, layer.grid_size);
                        }
                        let cell = tile_grid_position(tile.layer_position, layer.grid_size);
                        if let Some(cell) = cell {
                            let entry = LdtkTileAnimationEntry {
                                level_iid: level.iid.clone(),
                                layer_iid: tile.layer_iid.clone(),
                                cell,
                                animation: animation.clone(),
                            };
                            let ghost old_out = out@;
                            out.push(entry);
                            assert(entries_view(out@) == entries_view(old_out).push(entry.view_of()));
                        }
                    }
                }
            }
            j = j + 1;
        }
        assert(level.tiles@.take(level.tiles@.len() as int) == level.tiles@);
        assert(levels@.take(i + 1).drop_last() == levels@.take(i as int));
        assert(levels@.take(i + 1).last() == *level);
        i = i + 1;
    }
    assert(levels@.take(levels@.len() as int) == levels@);
    out
}

/// The IID of the level that tile metadata names by `level_id`, which may be
/// an IID or an identifier: the catalog level's IID when the catalog knows
/// it, else `level_id` itself.
pub fn resolve_level_iid_from_metadata(catalog: &LdtkMapCatalog, level_id: &str) -> (r: String)
    ensures
        r@ == match catalog.spec_level_by_id_or_iid(level_id@) {
            Some(level) => level.iid@,
            None => level_id@,
        },
{
    match catalog.level_by_id_or_iid(level_id) {
        Some(level) => level.iid.clone(),
        None => String::from_str(level_id),
    }
}

/// The texture index of the first frame of `animation`, if it has frames.
pub fn first_frame_texture_index(animation: &LdtkTileAnimation) -> (r: Option<u32>)
    ensures
        animation.frames@.len() == 0 ==> r is None,
        animation.frames@.len() > 0 ==> r == Some(animation.frames@[0].tile_id as u32),
{
    if animation.frames.len() == 0 {
        None
    } else {
        Some(animation.frames[0].tile_id as u32)
    }
}

/// The texture index that shows the animator's current frame; `None` when the
/// frame index is outside the animation.
pub fn animator_texture_index(animator: &LdtkTileAnimator) -> (r: Option<u32>)
    ensures
        animator.frame_index < animator.animation.frames@.len() ==> r == Some(
            animator.animation.frames@[animator.frame_index as int].tile_id as u32,
        ),
        animator.frame_index >= animator.animation.frames@.len() ==> r is None,
{
    if animator.frame_index < animator.animation.frames.len() {
        Some(animator.animation.frames[animator.frame_index].tile_id as u32)
    } else {
        None
    }
}

} // verus!
