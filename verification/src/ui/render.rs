//! What is drawn of the user interface: backgrounds, and texts over them.

use vstd::prelude::*;
use vstd::string::*;

use crate::float_order::{is_at_most_zero, at_most_zero};
use crate::ui::components::{ComputedLayout, Style, Text, TextAlign};

verus! {

/// The layer of backgrounds.
pub const QUAD_LAYER: i32 = 0;

/// The layer of texts.
pub const TEXT_LAYER: i32 = 1;

/// A filled rectangle.
#[derive(Clone, Copy, Debug)]
pub struct UiQuad {
    pub rect: [u32; 4],
    pub color: [u32; 4],
    pub border_radius: u32,
    pub layer: i32,
}

/// A text to draw.
pub struct UiTextCmd {
    pub rect: [u32; 4],
    pub content: String,
    pub font_size: u32,
    pub color: [u32; 4],
    pub alignment: TextAlign,
    pub layer: i32,
}

/// Everything to draw, layer by layer.
pub struct UiDrawList {
    pub quads: Vec<UiQuad>,
    pub texts: Vec<UiTextCmd>,
}

/// An element with a background.
#[derive(Clone, Copy, Debug)]
pub struct StyledElement {
    pub layout: ComputedLayout,
    pub style: Style,
}

/// An element with a text.
pub struct TextElement {
    pub layout: ComputedLayout,
    pub text: Text,
}

/// The background is drawn: the element is visible and not fully transparent.
pub open spec fn shows_background(e: StyledElement) -> bool {
    e.style.visible && !at_most_zero(e.style.background@[3])
}

/// The background of an element.
pub open spec fn quad_of(e: StyledElement) -> UiQuad {
    UiQuad {
        rect: e.layout.rect,
        color: e.style.background,
        border_radius: e.style.border_radius,
        layer: QUAD_LAYER,
    }
}

/// The backgrounds of the first `n` elements.
pub open spec fn quads_of(elements: Seq<StyledElement>, n: nat) -> Seq<UiQuad>
    decreases n,
{
    if n == 0 {
        Seq::empty()
    } else {
        let before = quads_of(elements, (n - 1) as nat);
        if shows_background(elements[n - 1]) {
            before.push(quad_of(elements[n - 1]))
        } else {
            before
        }
    }
}

/// The command draws the text of the element.
pub open spec fn draws(cmd: UiTextCmd, e: TextElement) -> bool {
    &&& cmd.rect == e.layout.rect
    &&& cmd.content@ == e.text.content@
    &&& cmd.font_size == e.text.font_size
    &&& cmd.color == e.text.color
    &&& cmd.alignment == e.text.alignment
    &&& cmd.layer == TEXT_LAYER
}

/// The places of the elements, among the first `n`, that have something to say.
pub open spec fn spoken(elements: Seq<TextElement>, n: nat) -> Seq<int>
    decreases n,
{
    if n == 0 {
        Seq::empty()
    } else {
        let before = spoken(elements, (n - 1) as nat);
        if elements[n - 1].text.content@.len() > 0 {
            before.push(n - 1)
        } else {
            before
        }
    }
}

/// Collects what is drawn in a frame: the visible backgrounds, and the texts that are
/// not empty, each in the order of the elements.
pub fn ui_render_system(styled: &Vec<StyledElement>, texts: &Vec<TextElement>) -> (r: UiDrawList)
    ensures
        r.quads@ == quads_of(styled@, styled@.len()),
        r.texts@.len() == spoken(texts@, texts@.len()).len(),
        forall|k: int|
            0 <= k < r.texts@.len() ==> draws(
                #[trigger] r.texts@[k],
                texts@[spoken(texts@, texts@.len())[k]],
            ),
{
    let mut quads: Vec<UiQuad> = Vec::new();
    let mut i: usize = 0;
    while i < styled.len()
        invariant
            i <= styled.len(),
            quads@ == quads_of(styled@, i as nat),
        decreases styled.len() - i,
    {
        let e = styled[i];
        if e.style.visible && !is_at_most_zero(e.style.background[3]) {
            quads.push(
                UiQuad {
                    rect: e.layout.rect,
                    color: e.style.background,
                    border_radius: e.style.border_radius,
                    layer: QUAD_LAYER,
                },
            );
        }
        i = i + 1;
    }
    let mut list: Vec<UiTextCmd> = Vec::new();
    let mut j: usize = 0;
    while j < texts.len()
        invariant
            j <= texts.len(),
            list@.len() == spoken(texts@, j as nat).len(),
            forall|k: int|
                0 <= k < list@.len() ==> draws(
                    #[trigger] list@[k],
                    texts@[spoken(texts@, j as nat)[k]],
                ),
        decreases texts.len() - j,
    {
        let e = &texts[j];
        if e.text.content.as_str().unicode_len() > 0 {
            list.push(
                UiTextCmd {
                    rect: e.layout.rect,
                    content: e.text.content.as_str().to_owned(),
                    font_size: e.text.font_size,
                    color: e.text.color,
                    alignment: e.text.alignment,
                    layer: TEXT_LAYER,
                },
            );
        }
        j = j + 1;
    }
    UiDrawList { quads, texts: list }
}

proof fn lemma_quad_layers(elements: Seq<StyledElement>, n: nat)
    requires
        n <= elements.len(),
    ensures
        forall|k: int|
            0 <= k < quads_of(elements, n).len() ==> (#[trigger] quads_of(elements, n)[k]).layer
                == QUAD_LAYER,
    decreases n,
{
    if n > 0 {
        lemma_quad_layers(elements, (n - 1) as nat);
        let before = quads_of(elements, (n - 1) as nat);
        assert forall|k: int| 0 <= k < quads_of(elements, n).len() implies (#[trigger] quads_of(
            elements,
            n,
        )[k]).layer == QUAD_LAYER by {
            if k < before.len() {
                assert(quads_of(elements, n)[k] == before[k]);
            }
        }
    }
}

/// The list is in the order of its layers, and every text lies over every background.
pub proof fn draw_list_is_layered(
    elements: Seq<StyledElement>,
    texts: Seq<UiTextCmd>,
    from: Seq<TextElement>,
    a: int,
    b: int,
)
    requires
        texts.len() == spoken(from, from.len()).len(),
        forall|k: int|
            0 <= k < texts.len() ==> draws(#[trigger] texts[k], from[spoken(from, from.len())[k]]),
        0 <= a < quads_of(elements, elements.len()).len(),
        0 <= b < texts.len(),
    ensures
        quads_of(elements, elements.len())[a].layer < texts[b].layer,
        forall|i: int, j: int|
            0 <= i <= j < quads_of(elements, elements.len()).len() ==> (#[trigger] quads_of(
                elements,
                elements.len(),
            )[i]).layer <= (#[trigger] quads_of(elements, elements.len())[j]).layer,
        forall|i: int, j: int|
            0 <= i <= j < texts.len() ==> (#[trigger] texts[i]).layer <= (
            #[trigger] texts[j]).layer,
{
    lemma_quad_layers(elements, elements.len());
    assert(draws(texts[b], from[spoken(from, from.len())[b]]));
    assert forall|i: int, j: int| 0 <= i <= j < texts.len() implies (#[trigger] texts[i]).layer <= (
    #[trigger] texts[j]).layer by {
        assert(draws(texts[i], from[spoken(from, from.len())[i]]));
        assert(draws(texts[j], from[spoken(from, from.len())[j]]));
    }
}

/// How many of the first `n` elements show a background.
pub open spec fn shown_count(elements: Seq<StyledElement>, n: nat) -> nat
    decreases n,
{
    if n == 0 {
        0
    } else {
        shown_count(elements, (n - 1) as nat) + (if elements[n - 1].style.visible && !at_most_zero(
            elements[n - 1].style.background@[3],
        ) {
            1nat
        } else {
            0
        })
    }
}

/// Every element that is visible and not fully transparent is drawn, in its place among
/// those, with its own rectangle, color and corners, and nothing else is.
pub proof fn every_visible_background_is_drawn(elements: Seq<StyledElement>, n: nat, i: int)
    requires
        0 <= i < n <= elements.len(),
    ensures
        quads_of(elements, n).len() == shown_count(elements, n),
        elements[i].style.visible && !at_most_zero(elements[i].style.background@[3]) ==> {
            let place = shown_count(elements, i as nat) as int;
            &&& place < quads_of(elements, n).len()
            &&& quads_of(elements, n)[place].rect == elements[i].layout.rect
            &&& quads_of(elements, n)[place].color == elements[i].style.background
            &&& quads_of(elements, n)[place].border_radius == elements[i].style.border_radius
        },
    decreases n,
{
    lemma_shown(elements, (n - 1) as nat);
    if i < n - 1 {
        every_visible_background_is_drawn(elements, (n - 1) as nat, i);
    }
}

proof fn lemma_shown(elements: Seq<StyledElement>, n: nat)
    ensures
        quads_of(elements, n).len() == shown_count(elements, n),
    decreases n,
{
    if n > 0 {
        lemma_shown(elements, (n - 1) as nat);
    }
}

/// How many of the first `n` elements have a text that is not empty.
pub open spec fn text_count(elements: Seq<TextElement>, n: nat) -> nat
    decreases n,
{
    if n == 0 {
        0
    } else {
        text_count(elements, (n - 1) as nat) + (if elements[n - 1].text.content@.len() > 0 {
            1nat
        } else {
            0
        })
    }
}

proof fn lemma_spoken(elements: Seq<TextElement>, n: nat)
    ensures
        spoken(elements, n).len() == text_count(elements, n),
        forall|i: int|
            0 <= i < n && (#[trigger] elements[i]).text.content@.len() > 0 ==> text_count(
                elements,
                i as nat,
            ) < spoken(elements, n).len() && spoken(elements, n)[text_count(
                elements,
                i as nat,
            ) as int] == i,
    decreases n,
{
    if n > 0 {
        lemma_spoken(elements, (n - 1) as nat);
    }
}

/// Every text that is not empty is drawn, in its place among those, as it is written.
pub proof fn every_text_is_drawn(elements: Seq<TextElement>, texts: Seq<UiTextCmd>, i: int)
    requires
        texts.len() == spoken(elements, elements.len()).len(),
        forall|k: int|
            0 <= k < texts.len() ==> draws(
                #[trigger] texts[k],
                elements[spoken(elements, elements.len())[k]],
            ),
        0 <= i < elements.len(),
        elements[i].text.content@.len() > 0,
    ensures
        texts.len() == text_count(elements, elements.len()),
        ({
            let cmd = texts[text_count(elements, i as nat) as int];
            &&& text_count(elements, i as nat) < texts.len()
            &&& cmd.content@ == elements[i].text.content@
            &&& cmd.rect == elements[i].layout.rect
            &&& cmd.font_size == elements[i].text.font_size
            &&& cmd.color == elements[i].text.color
            &&& cmd.alignment == elements[i].text.alignment
        }),
{
    lemma_spoken(elements, elements.len());
    assert(elements[i].text.content@.len() > 0);
    let place = text_count(elements, i as nat) as int;
    assert(draws(texts[place], elements[spoken(elements, elements.len())[place]]));
}

} // verus!
