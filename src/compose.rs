//! The compositor: which blocks a render draws, storing their rasters, and flattening the
//! layers into the final page.
use vstd::prelude::*;

use crate::document::{layer_wf, Document, Error, Missing, State, TextBlock, TextShaderEffect};
use crate::layout::{render_plan, render_plan_spec, RenderPlan};
use crate::raster::{blend, lemma_index, overlaid, overlay, Raster, RasterView};

verus! {

/// The plans of the first `n` blocks that have something to draw, each with its index.
pub open spec fn plans_upto(blocks: Seq<TextBlock>, n: nat, effect: TextShaderEffect) -> Seq<(usize, RenderPlan)>
    decreases n,
{
    if n == 0 {
        Seq::empty()
    } else {
        let before = plans_upto(blocks, (n - 1) as nat, effect);
        match render_plan_spec(blocks[n - 1], effect) {
            Some(p) => before.push(((n - 1) as usize, p)),
            None => before,
        }
    }
}

/// A float-to-`i64` cast of a position in thousandths of a pixel: whole pixels, rounded
/// towards zero.
pub open spec fn pixel_offset(v: i64) -> int {
    if v >= 0 {
        v / 1000
    } else {
        -((-v) / 1000)
    }
}

/// The inpainted page with the brush overlay composited over it, where there is one.
pub open spec fn with_brush(inpainted: RasterView, brush: Option<Raster>) -> RasterView {
    match brush {
        Some(b) => overlaid(inpainted, b@, 0, 0),
        None => inpainted,
    }
}

/// `base` with the rendered text of the first `n` blocks composited over it in block order, each
/// at its block's position.
pub open spec fn composed(base: RasterView, blocks: Seq<TextBlock>, n: nat) -> RasterView
    decreases n,
{
    if n == 0 {
        base
    } else {
        let below = composed(base, blocks, (n - 1) as nat);
        let b = blocks[n - 1];
        match b.rendered {
            Some(r) => overlaid(below, r@, pixel_offset(b.x), pixel_offset(b.y)),
            None => below,
        }
    }
}

/// The flattened page: `None` before there is an inpainted base.
pub open spec fn flattened(d: Document) -> Option<RasterView> {
    match d.inpainted {
        Some(p) => Some(composed(with_brush(p@, d.brush_layer), d.text_blocks@, d.text_blocks@.len())),
        None => None,
    }
}

/// The rendered text of block `b` covers pixel `(x, y)` of the page.
pub open spec fn covers(b: TextBlock, x: int, y: int) -> bool {
    b.rendered matches Some(r) && r@.in_bounds(x - pixel_offset(b.x), y - pixel_offset(b.y))
}

/// `after` is `before` with the rendered text of block `index` replaced by `rendered`.
pub open spec fn rendered_stored(before: Document, after: Document, index: int, rendered: Raster) -> bool {
    &&& after.text_blocks@ == before.text_blocks@.update(
        index,
        TextBlock { rendered: Some(rendered), ..before.text_blocks@[index] },
    )
    &&& after == Document { text_blocks: after.text_blocks, ..before }
}

/// `after` is `before` with `rendered` set to the flattened page, where there is one.
pub open spec fn flatten_applied(before: Document, after: Document) -> bool {
    match flattened(before) {
        None => after == before,
        Some(v) => {
            &&& after.rendered matches Some(r) && r@ == v
            &&& after == Document { rendered: after.rendered, ..before }
        },
    }
}

/// `blocks` with each `(index, raster)` of `items` stored as the rendered text of its block,
/// in order, so that a later item for one block wins.
pub open spec fn with_rendered(blocks: Seq<TextBlock>, items: Seq<(usize, Raster)>) -> Seq<TextBlock>
    decreases items.len(),
{
    if items.len() == 0 {
        blocks
    } else {
        let before = with_rendered(blocks, items.drop_last());
        let k = items.last().0 as int;
        before.update(k, TextBlock { rendered: Some(items.last().1), ..before[k] })
    }
}

/// Storing rendered text keeps the number of blocks.
pub proof fn lemma_with_rendered_len(blocks: Seq<TextBlock>, items: Seq<(usize, Raster)>)
    requires
        forall|j: int| 0 <= j < items.len() ==> (#[trigger] items[j]).0 < blocks.len(),
    ensures
        with_rendered(blocks, items).len() == blocks.len(),
    decreases items.len(),
{
    if items.len() > 0 {
        lemma_with_rendered_len(blocks, items.drop_last());
    }
}

/// Block `k` is drawn by a render of `text_block_index`: it is the block asked for (or any
/// block where none is), and it has a non-empty translation.
pub open spec fn is_planned(blocks: Seq<TextBlock>, text_block_index: Option<usize>, k: int) -> bool {
    &&& 0 <= k < blocks.len()
    &&& match text_block_index {
        Some(i) => i == k,
        None => true,
    }
    &&& blocks[k].translation matches Some(t) && t@.len() > 0
}

/// Every raster in `items` belongs to a block that the render planned.
pub open spec fn items_planned(blocks: Seq<TextBlock>, text_block_index: Option<usize>, items: Seq<(usize, Raster)>) -> bool {
    forall|j: int| 0 <= j < items.len() ==> is_planned(blocks, text_block_index, (#[trigger] items[j]).0 as int)
}

/// A render changes no field of a block but its rendered text, and leaves the blocks it did
/// not plan as they were.
pub open spec fn render_confined(before: Seq<TextBlock>, after: Seq<TextBlock>, text_block_index: Option<usize>) -> bool {
    &&& after.len() == before.len()
    &&& forall|k: int|
        0 <= k < before.len() ==> (#[trigger] after[k]) == (TextBlock { rendered: after[k].rendered, ..before[k] })
    &&& forall|k: int| 0 <= k < before.len() && !is_planned(before, text_block_index, k) ==> #[trigger] after[k] == before[k]
}

/// Storing rasters for planned blocks only is confined to those blocks' rendered text.
pub proof fn lemma_with_rendered_confined(
    blocks: Seq<TextBlock>,
    items: Seq<(usize, Raster)>,
    text_block_index: Option<usize>,
)
    requires
        items_planned(blocks, text_block_index, items),
    ensures
        render_confined(blocks, with_rendered(blocks, items), text_block_index),
    decreases items.len(),
{
    if items.len() > 0 {
        let rest = items.drop_last();
        assert forall|j: int| 0 <= j < rest.len() implies is_planned(blocks, text_block_index, (#[trigger] rest[j]).0 as int) by {
            assert(rest[j] == items[j]);
        }
        lemma_with_rendered_confined(blocks, rest, text_block_index);
        assert(is_planned(blocks, text_block_index, items[items.len() - 1].0 as int));
    }
}

/// `after` is what a render leaves of `before` once the rasters in `items` are back: the
/// rendered text of the blocks stored, and the page flattened where every block was rendered.
pub open spec fn render_committed(
    before: Document,
    after: Document,
    text_block_index: Option<usize>,
    items: Seq<(usize, Raster)>,
) -> bool {
    let stored = Document { text_blocks: after.text_blocks, ..before };
    &&& after.text_blocks@ == with_rendered(before.text_blocks@, items)
    &&& text_block_index is None ==> flatten_applied(stored, after)
    &&& text_block_index is Some ==> after == stored
}

fn planned_block(blocks: &Vec<TextBlock>, text_block_index: Option<usize>, k: usize) -> (r: bool)
    ensures
        r == is_planned(blocks@, text_block_index, k as int),
{
    if k >= blocks.len() {
        return false;
    }
    match text_block_index {
        Some(i) => if i != k {
            return false;
        },
        None => {},
    }
    match &blocks[k].translation {
        Some(t) => !t.as_str().is_empty(),
        None => false,
    }
}

fn offset_of(v: i64) -> (r: i64)
    ensures
        r == pixel_offset(v),
        -0x4000_0000_0000_0000 <= r <= 0x4000_0000_0000_0000,
{
    if v >= 0 {
        v / 1000
    } else {
        let a: u64 = (-(v as i128)) as u64;
        -((a / 1000) as i64)
    }
}

/// Compositing keeps the size of the base.
pub proof fn lemma_composed_size(base: RasterView, blocks: Seq<TextBlock>, n: nat)
    requires
        base.wf(),
        n <= blocks.len(),
    ensures
        composed(base, blocks, n).wf(),
        composed(base, blocks, n).width == base.width,
        composed(base, blocks, n).height == base.height,
    decreases n,
{
    if n > 0 {
        lemma_composed_size(base, blocks, (n - 1) as nat);
    }
}

/// Blocks after `m` that do not cover a pixel leave it as the first `m` blocks left it.
pub proof fn lemma_uncovered_unchanged(base: RasterView, blocks: Seq<TextBlock>, m: nat, n: nat, x: int, y: int)
    requires
        base.wf(),
        base.in_bounds(x, y),
        m <= n <= blocks.len(),
        forall|k: int| m <= k < n ==> !covers(#[trigger] blocks[k], x, y),
    ensures
        composed(base, blocks, n).at(x, y) == composed(base, blocks, m).at(x, y),
    decreases n,
{
    if n > m {
        lemma_uncovered_unchanged(base, blocks, m, (n - 1) as nat, x, y);
        lemma_composed_size(base, blocks, (n - 1) as nat);
        lemma_index(base.width as int, base.height as int, x, y);
        assert(!covers(blocks[n - 1], x, y));
    }
}

/// The later of overlapping blocks is drawn over the earlier ones: where block `j`'s rendered
/// text covers a pixel of the flattened page and no later block covers it, the pixel is block
/// `j`'s pixel composited over what the blocks before `j` left there, and so is exactly block
/// `j`'s pixel wherever that pixel is opaque.
pub proof fn lemma_later_block_on_top(d: Document, j: int, x: int, y: int)
    requires
        d.wf(),
        d.inpainted is Some,
        0 <= j < d.text_blocks@.len(),
        d.image@.in_bounds(x, y),
        covers(d.text_blocks@[j], x, y),
        forall|k: int| j < k < d.text_blocks@.len() ==> !covers(#[trigger] d.text_blocks@[k], x, y),
    ensures
        ({
            let b = d.text_blocks@[j];
            let top = b.rendered->Some_0@.at(x - pixel_offset(b.x), y - pixel_offset(b.y));
            let base = with_brush(d.inpainted->Some_0@, d.brush_layer);
            &&& flattened(d)->Some_0.at(x, y) == blend(composed(base, d.text_blocks@, j as nat).at(x, y), top)
            &&& top.a == 255 ==> flattened(d)->Some_0.at(x, y) == top
        }),
{
    let blocks = d.text_blocks@;
    let base = with_brush(d.inpainted->Some_0@, d.brush_layer);
    let n = blocks.len();
    assert(base.wf() && base.width == d.width && base.height == d.height);
    lemma_uncovered_unchanged(base, blocks, (j + 1) as nat, n, x, y);
    lemma_composed_size(base, blocks, j as nat);
    lemma_index(base.width as int, base.height as int, x, y);
}

impl Document {
    /// The blocks that a render call draws, each with its plan: the one block asked for, or
    /// all of them, less those without a translation or with an empty one.
    pub fn render_plans(&self, text_block_index: Option<usize>, effect: TextShaderEffect) -> (r: Result<
        Vec<(usize, RenderPlan)>,
        Error,
    >)
        ensures
            match text_block_index {
                Some(i) => if i >= self.text_blocks@.len() {
                    r == Err::<Vec<(usize, RenderPlan)>, Error>(Error::NotFound(Missing::TextBlock))
                } else {
                    r matches Ok(v) && v@ == match render_plan_spec(self.text_blocks@[i as int], effect) {
                        Some(p) => seq![(i, p)],
                        None => Seq::empty(),
                    }
                },
                None => r matches Ok(v) && v@ == plans_upto(self.text_blocks@, self.text_blocks@.len(), effect),
            },
    {
        let mut plans: Vec<(usize, RenderPlan)> = Vec::new();
        match text_block_index {
            Some(i) => {
                if i >= self.text_blocks.len() {
                    return Err(Error::NotFound(Missing::TextBlock));
                }
                if let Some(p) = render_plan(&self.text_blocks[i], effect) {
                    plans.push((i, p));
                }
                assert(plans@ =~= match render_plan_spec(self.text_blocks@[i as int], effect) {
                    Some(p) => seq![(i, p)],
                    None => Seq::<(usize, RenderPlan)>::empty(),
                });
            },
            None => {
                let mut i: usize = 0;
                while i < self.text_blocks.len()
                    invariant
                        i <= self.text_blocks@.len(),
                        plans@ == plans_upto(self.text_blocks@, i as nat, effect),
                    decreases self.text_blocks@.len() - i,
                {
                    if let Some(p) = render_plan(&self.text_blocks[i], effect) {
                        plans.push((i, p));
                    }
                    i = i + 1;
                }
            },
        }
        Ok(plans)
    }

    /// Stores the rasterised text of block `index`.
    pub fn store_rendered(&mut self, index: usize, rendered: Raster) -> (r: Result<(), Error>)
        requires
            old(self).wf(),
            rendered.wf(),
        ensures
            final(self).wf(),
            index >= old(self).text_blocks@.len() ==> r == Err::<(), Error>(Error::NotFound(Missing::TextBlock))
                && *final(self) == *old(self),
            index < old(self).text_blocks@.len() ==> r is Ok && rendered_stored(
                *old(self),
                *final(self),
                index as int,
                rendered,
            ),
    {
        if index >= self.text_blocks.len() {
            return Err(Error::NotFound(Missing::TextBlock));
        }
        let ghost blocks = self.text_blocks@;
        let block = &mut self.text_blocks[index];
        block.rendered = Some(rendered);
        proof {
            assert forall|i: int| 0 <= i < self.text_blocks@.len() implies layer_wf(
                #[trigger] self.text_blocks@[i].rendered,
            ) by {
                if i != index {
                    assert(self.text_blocks@[i] == blocks[i]);
                }
            }
        }
        Ok(())
    }

    /// Stores the rasterised text that came back for each planned block and, where the render
    /// covered all blocks (`text_block_index` is `None`), flattens the page. A raster for a
    /// block the render did not plan (out of range, not the one asked for, or without a
    /// non-empty translation) fails the whole call before anything is stored.
    pub fn commit_render(&mut self, text_block_index: Option<usize>, rendered: Vec<(usize, Raster)>) -> (r: Result<
        (),
        Error,
    >)
        requires
            old(self).wf(),
            forall|i: int| 0 <= i < rendered@.len() ==> (#[trigger] rendered@[i]).1.wf(),
        ensures
            final(self).wf(),
            !items_planned(old(self).text_blocks@, text_block_index, rendered@) ==> r == Err::<(), Error>(
                Error::NotFound(Missing::TextBlock),
            ) && *final(self) == *old(self),
            items_planned(old(self).text_blocks@, text_block_index, rendered@) ==> r is Ok && render_committed(
                *old(self),
                *final(self),
                text_block_index,
                rendered@,
            ) && render_confined(old(self).text_blocks@, final(self).text_blocks@, text_block_index),
    {
        let mut i: usize = 0;
        while i < rendered.len()
            invariant
                self.wf(),
                *self == *old(self),
                i <= rendered@.len(),
                forall|j: int| 0 <= j < i ==> is_planned(self.text_blocks@, text_block_index, (#[trigger] rendered@[j]).0 as int),
            decreases rendered@.len() - i,
        {
            if !planned_block(&self.text_blocks, text_block_index, rendered[i].0) {
                return Err(Error::NotFound(Missing::TextBlock));
            }
            i = i + 1;
        }
        proof {
            lemma_with_rendered_confined(self.text_blocks@, rendered@, text_block_index);
        }
        let ghost start = *self;
        let ghost items = rendered@;
        for item in it: rendered.into_iter()
            invariant
                it.seq() == items,
                self.wf(),
                forall|j: int| 0 <= j < items.len() ==> (#[trigger] items[j]).0 < start.text_blocks@.len(),
                forall|j: int| 0 <= j < items.len() ==> (#[trigger] items[j]).1.wf(),
                self.text_blocks@ == with_rendered(start.text_blocks@, items.take(it.index() as int)),
                *self == (Document { text_blocks: self.text_blocks, ..start }),
        {
            let (k, raster) = item;
            proof {
                assert forall|j: int| 0 <= j < items.take(it.index() as int).len() implies (#[trigger] items.take(
                    it.index() as int,
                )[j]).0 < start.text_blocks@.len() by {
                    assert(items.take(it.index() as int)[j] == items[j]);
                }
                lemma_with_rendered_len(start.text_blocks@, items.take(it.index() as int));
                assert(items.take(it.index() + 1).drop_last() =~= items.take(it.index() as int));
                assert(items[it.index() as int] == (k, raster));
            }
            let stored = self.store_rendered(k, raster);
        }
        proof {
            assert(items.take(items.len() as int) =~= items);
        }
        if text_block_index.is_none() {
            self.flatten();
        }
        Ok(())
    }

    /// Composites the layers into `rendered`: the inpainted page, the brush overlay over it, then
    /// each block's rendered text at its position, in block order. Before there is an inpainted
    /// page nothing changes.
    pub fn flatten(&mut self)
        requires
            old(self).wf(),
        ensures
            final(self).wf(),
            flatten_applied(*old(self), *final(self)),
    {
        let mut canvas = match &self.inpainted {
            Some(p) => p.duplicate(),
            None => return ,
        };
        if let Some(b) = &self.brush_layer {
            overlay(&mut canvas, b, 0, 0);
        }
        let ghost base = canvas@;
        assert(base == with_brush(self.inpainted->Some_0@, self.brush_layer));
        let mut i: usize = 0;
        while i < self.text_blocks.len()
            invariant
                self.wf(),
                i <= self.text_blocks@.len(),
                canvas.wf(),
                canvas@.width == self.width,
                canvas@.height == self.height,
                base.wf(),
                canvas@ == composed(base, self.text_blocks@, i as nat),
            decreases self.text_blocks@.len() - i,
        {
            let block = &self.text_blocks[i];
            if let Some(r) = &block.rendered {
                assert(layer_wf(self.text_blocks@[i as int].rendered));
                let ox = offset_of(block.x);
                let oy = offset_of(block.y);
                overlay(&mut canvas, r, ox, oy);
            }
            i = i + 1;
        }
        self.rendered = Some(canvas);
    }
}

/// The blocks of document `index` to rasterise, with their plans (see
/// [`Document::render_plans`]).
pub fn render(state: &State, index: usize, text_block_index: Option<usize>, effect: TextShaderEffect) -> (r: Result<
    Vec<(usize, RenderPlan)>,
    Error,
>)
    requires
        state.wf(),
    ensures
        index >= state.documents@.len() ==> r == Err::<Vec<(usize, RenderPlan)>, Error>(
            Error::NotFound(Missing::Document),
        ),
        index < state.documents@.len() ==> {
            let blocks = state.documents@[index as int].text_blocks@;
            match text_block_index {
                Some(i) => if i >= blocks.len() {
                    r == Err::<Vec<(usize, RenderPlan)>, Error>(Error::NotFound(Missing::TextBlock))
                } else {
                    r matches Ok(v) && v@ == match render_plan_spec(blocks[i as int], effect) {
                        Some(p) => seq![(i, p)],
                        None => Seq::empty(),
                    }
                },
                None => r matches Ok(v) && v@ == plans_upto(blocks, blocks.len(), effect),
            }
        },
{
    if index >= state.documents.len() {
        return Err(Error::NotFound(Missing::Document));
    }
    state.documents[index].render_plans(text_block_index, effect)
}

/// Stores the rasterised text of a render of document `index` and flattens the page where the
/// render covered all blocks (see [`Document::commit_render`]).
pub fn complete_render(
    state: &mut State,
    index: usize,
    text_block_index: Option<usize>,
    rendered: Vec<(usize, Raster)>,
) -> (r: Result<(), Error>)
    requires
        old(state).wf(),
        forall|i: int| 0 <= i < rendered@.len() ==> (#[trigger] rendered@[i]).1.wf(),
    ensures
        final(state).wf(),
        index >= old(state).documents@.len() ==> r == Err::<(), Error>(Error::NotFound(Missing::Document))
            && final(state).documents@ == old(state).documents@,
        index < old(state).documents@.len() ==> {
            let d = old(state).documents@[index as int];
            let e = final(state).documents@[index as int];
            &&& final(state).documents@ == old(state).documents@.update(index as int, e)
            &&& !items_planned(d.text_blocks@, text_block_index, rendered@) ==> r == Err::<(), Error>(
                Error::NotFound(Missing::TextBlock),
            ) && final(state).documents@ == old(state).documents@
            &&& items_planned(d.text_blocks@, text_block_index, rendered@) ==> r is Ok && render_committed(
                d,
                e,
                text_block_index,
                rendered@,
            ) && render_confined(d.text_blocks@, e.text_blocks@, text_block_index)
        },
{
    if index >= state.documents.len() {
        return Err(Error::NotFound(Missing::Document));
    }
    let ghost before = state.documents@;
    let doc = &mut state.documents[index];
    let r = doc.commit_render(text_block_index, rendered);
    proof {
        if r is Err {
            assert(state.documents@ =~= before);
        }
    }
    r
}

} // verus!
