//! Script detection and the per-block decisions that precede rasterising text: writing mode,
//! centring, colour and effect.
use vstd::prelude::*;

use crate::document::{TextBlock, TextShaderEffect};
use crate::raster::Rgba;

verus! {

/// The Unicode scripts that layout decisions look at; every other script is `Other`.
#[derive(Clone, Copy, PartialEq, Eq, Structural, Debug)]
pub enum Script {
    Han,
    Hiragana,
    Katakana,
    Hangul,
    Bopomofo,
    Latin,
    Common,
    Inherited,
    Other,
}

/// The direction in which text flows.
#[derive(Clone, Copy, PartialEq, Eq, Structural, Debug)]
pub enum WritingMode {
    Horizontal,
    /// Top to bottom, columns from right to left.
    VerticalRl,
}

/// The Unicode Script property of a character, as icu's compiled data gives it.
pub uninterp spec fn script_of(c: char) -> Script;

/// Relies on icu's `CodePointMapData::<Script>::get`: the Unicode Script property of `c`.
#[verifier::external_body]
fn script(c: char) -> (s: Script)
    ensures
        s == script_of(c),
{
    match icu::properties::CodePointMapData::<icu::properties::props::Script>::new().get(c) {
        icu::properties::props::Script::Han => Script::Han,
        icu::properties::props::Script::Hiragana => Script::Hiragana,
        icu::properties::props::Script::Katakana => Script::Katakana,
        icu::properties::props::Script::Hangul => Script::Hangul,
        icu::properties::props::Script::Bopomofo => Script::Bopomofo,
        icu::properties::props::Script::Latin => Script::Latin,
        icu::properties::props::Script::Common => Script::Common,
        icu::properties::props::Script::Inherited => Script::Inherited,
        _ => Script::Other,
    }
}

/// Scripts of the CJK family: Han, Hiragana, Katakana, Hangul and Bopomofo.
pub open spec fn is_cjk_script(s: Script) -> bool {
    s == Script::Han || s == Script::Hiragana || s == Script::Katakana || s == Script::Hangul || s
        == Script::Bopomofo
}

/// Scripts that read as Latin text: Latin itself, and the neutral Common and Inherited.
pub open spec fn is_latin_script(s: Script) -> bool {
    s == Script::Latin || s == Script::Common || s == Script::Inherited
}

pub open spec fn scripts_of(text: Seq<char>) -> Seq<Script> {
    text.map_values(|c: char| script_of(c))
}

/// At least one character of `text` belongs to a CJK script.
pub open spec fn has_cjk(text: Seq<char>) -> bool {
    exists|i: int| 0 <= i < text.len() && is_cjk_script(script_of(#[trigger] text[i]))
}

/// Every character of `text` is Latin, Common or Inherited.
pub open spec fn latin_only(text: Seq<char>) -> bool {
    forall|i: int| 0 <= i < text.len() ==> is_latin_script(script_of(#[trigger] text[i]))
}

/// Horizontal, unless the translation has CJK characters and the block is taller than wide:
/// such narrow bubbles are set vertically, right to left.
pub open spec fn writing_mode_spec(b: TextBlock) -> WritingMode {
    match b.translation {
        None => WritingMode::Horizontal,
        Some(t) => if has_cjk(t@) && b.width < b.height {
            WritingMode::VerticalRl
        } else {
            WritingMode::Horizontal
        },
    }
}

/// The scripts of the characters of `text`, in order.
pub fn scripts(text: &str) -> (r: Vec<Script>)
    ensures
        r@ == scripts_of(text@),
{
    let mut out: Vec<Script> = Vec::new();
    let ghost chars = text@;
    for c in it: text.chars()
        invariant
            it.seq() == chars,
            chars == text@,
            out@.len() == it.index(),
            forall|i: int| 0 <= i < out@.len() ==> #[trigger] out@[i] == script_of(chars[i]),
    {
        out.push(script(c));
    }
    assert(out@ =~= scripts_of(text@));
    out
}

/// Whether any of `scripts` is a CJK script.
pub fn any_cjk(scripts: &[Script]) -> (r: bool)
    ensures
        r == exists|i: int| 0 <= i < scripts@.len() && is_cjk_script(#[trigger] scripts@[i]),
{
    let mut i: usize = 0;
    while i < scripts.len()
        invariant
            i <= scripts@.len(),
            forall|j: int| 0 <= j < i ==> !is_cjk_script(#[trigger] scripts@[j]),
        decreases scripts@.len() - i,
    {
        let s = scripts[i];
        if s == Script::Han || s == Script::Hiragana || s == Script::Katakana || s == Script::Hangul || s
            == Script::Bopomofo {
            return true;
        }
        i = i + 1;
    }
    false
}

/// Whether every one of `scripts` is Latin, Common or Inherited.
pub fn all_latin(scripts: &[Script]) -> (r: bool)
    ensures
        r == forall|i: int| 0 <= i < scripts@.len() ==> is_latin_script(#[trigger] scripts@[i]),
{
    let mut i: usize = 0;
    while i < scripts.len()
        invariant
            i <= scripts@.len(),
            forall|j: int| 0 <= j < i ==> is_latin_script(#[trigger] scripts@[j]),
        decreases scripts@.len() - i,
    {
        let s = scripts[i];
        if !(s == Script::Latin || s == Script::Common || s == Script::Inherited) {
            return false;
        }
        i = i + 1;
    }
    true
}

/// Whether `text` holds a character of a CJK script.
pub fn is_cjk(text: &str) -> (r: bool)
    ensures
        r == has_cjk(text@),
{
    let s = scripts(text);
    let r = any_cjk(s.as_slice());
    proof {
        if r {
            let i = choose|i: int| 0 <= i < s@.len() && is_cjk_script(#[trigger] s@[i]);
            assert(is_cjk_script(script_of(text@[i])));
        } else {
            assert forall|i: int| 0 <= i < text@.len() implies !is_cjk_script(script_of(#[trigger] text@[i])) by {
                assert(s@[i] == script_of(text@[i]));
            }
        }
    }
    r
}

/// Whether every character of `text` is Latin, Common or Inherited; this gates the horizontal
/// centring of a laid-out translation.
pub fn is_latin_only(text: &str) -> (r: bool)
    ensures
        r == latin_only(text@),
{
    let s = scripts(text);
    let r = all_latin(s.as_slice());
    proof {
        if !r {
            let i = choose|i: int| 0 <= i < s@.len() && !is_latin_script(#[trigger] s@[i]);
            assert(!is_latin_script(script_of(text@[i])));
        } else {
            assert forall|i: int| 0 <= i < text@.len() implies is_latin_script(script_of(#[trigger] text@[i])) by {
                assert(s@[i] == script_of(text@[i]));
            }
        }
    }
    r
}

/// The writing mode from what it depends on: whether the translation has CJK characters, and
/// the block's size.
pub fn select_writing_mode(cjk: bool, width: i64, height: i64) -> (m: WritingMode)
    ensures
        m == (if cjk && width < height {
            WritingMode::VerticalRl
        } else {
            WritingMode::Horizontal
        }),
{
    if !cjk || width >= height {
        WritingMode::Horizontal
    } else {
        WritingMode::VerticalRl
    }
}

/// The writing mode of a block (see [`writing_mode_spec`]).
pub fn writing_mode(block: &TextBlock) -> (m: WritingMode)
    ensures
        m == writing_mode_spec(*block),
{
    match &block.translation {
        None => WritingMode::Horizontal,
        Some(t) => select_writing_mode(is_cjk(t.as_str()), block.width, block.height),
    }
}

/// How one block is to be rasterised: the decisions that precede the call into a text
/// renderer. The text, the font chain and the box come from the block itself.
#[derive(Clone, Copy, PartialEq, Eq, Structural, Debug)]
pub struct RenderPlan {
    pub color: Rgba,
    pub writing_mode: WritingMode,
    /// Each laid-out line is centred across the block's width.
    pub center: bool,
    pub effect: TextShaderEffect,
}

/// The text colour: the style's, else the predicted one made opaque, else opaque black.
pub open spec fn block_color(b: TextBlock) -> Rgba {
    match b.style {
        Some(s) => s.color,
        None => match b.font_prediction {
            Some(p) => Rgba { r: p.text_color.r, g: p.text_color.g, b: p.text_color.b, a: 255 },
            None => Rgba { r: 0, g: 0, b: 0, a: 255 },
        },
    }
}

/// The style's effect where it sets one, else the one the render call asks for.
pub open spec fn block_effect(b: TextBlock, requested: TextShaderEffect) -> TextShaderEffect {
    match b.style {
        Some(s) => match s.effect {
            Some(e) => e,
            None => requested,
        },
        None => requested,
    }
}

/// Nothing to draw for a block without a translation or with an empty one; otherwise the plan.
pub open spec fn render_plan_spec(b: TextBlock, requested: TextShaderEffect) -> Option<RenderPlan> {
    match b.translation {
        None => None,
        Some(t) => if t@.len() == 0 {
            None
        } else {
            Some(
                RenderPlan {
                    color: block_color(b),
                    writing_mode: writing_mode_spec(b),
                    center: writing_mode_spec(b) == WritingMode::Horizontal && latin_only(t@),
                    effect: block_effect(b, requested),
                },
            )
        },
    }
}

/// Plans the rasterisation of one block, or `None` where there is nothing to draw.
pub fn render_plan(block: &TextBlock, effect: TextShaderEffect) -> (r: Option<RenderPlan>)
    ensures
        r == render_plan_spec(*block, effect),
{
    let t = match &block.translation {
        None => return None,
        Some(t) => t,
    };
    if t.as_str().is_empty() {
        return None;
    }
    let color = match &block.style {
        Some(s) => s.color,
        None => match &block.font_prediction {
            Some(p) => Rgba { r: p.text_color.r, g: p.text_color.g, b: p.text_color.b, a: 255 },
            None => Rgba::opaque_black(),
        },
    };
    let block_effect = match &block.style {
        Some(s) => match s.effect {
            Some(e) => e,
            None => effect,
        },
        None => effect,
    };
    let mode = writing_mode(block);
    let center = match mode {
        WritingMode::Horizontal => is_latin_only(t.as_str()),
        WritingMode::VerticalRl => false,
    };
    Some(RenderPlan { color, writing_mode: mode, center, effect: block_effect })
}

} // verus!
