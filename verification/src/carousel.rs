//! The strip of thumbnails: what each card shows, how large it is, how opaque,
//! and where it stands.
//!
//! Sizes are counted in ten-thousandths of a pixel, so that scaling by two
//! percentages leaves whole numbers.

use crate::window::Window;
#[allow(unused_imports)]
use crate::window::{window_views, WindowView};
use vstd::prelude::*;
use vstd::string::{StrSliceExecFns, StringExecFns};
#[allow(unused_imports)]
use vstd::utf8::encode_utf8;

verus! {

/// The parts that a pixel is counted in.
pub const PIXEL: u32 = 10_000;

/// The width of an unscaled card, in pixels.
pub const CARD_WIDTH: u32 = 405;

/// The height of an unscaled card, in pixels.
pub const CARD_HEIGHT: u32 = 270;

/// The height that a card keeps for title and padding, in pixels.
pub const TITLE_HEIGHT: u32 = 48;

/// The longest title that is shown whole, in bytes.
pub const TITLE_BYTES: usize = 32;

/// The characters that are left of a longer title.
pub const TITLE_CHARS: usize = 31;

/// The size of the selected card, in percent.
pub const SELECTED_PERCENT: u32 = 110;

/// What a card loses of its size and its opacity per step away from the
/// selection, in percent.
pub const STEP_PERCENT: u32 = 8;

/// What a card keeps however far from the selection it is, in percent.
pub const FAR_PERCENT: u32 = 75;

/// The space between two cards, in pixels.
pub const CARD_SPACING: u32 = 16;

/// What the middle of a card shows.
#[derive(Debug, Clone, Copy, PartialEq, Eq, Structural)]
pub enum Preview {
    Screenshot,
    Icon,
}

/// A card in the strip.
#[derive(Debug, Clone, PartialEq, Eq)]
pub struct Card {
    /// The place in the strip: a click on the card activates this index.
    pub index: usize,
    pub handle: u64,
    pub selected: bool,
    /// The opacity, in hundredths of the parts that the overlay's is counted in.
    pub alpha: u64,
    pub width: u32,
    pub height: u32,
    pub preview_height: u32,
    /// The width of the border, in pixels.
    pub border: u32,
    pub preview: Preview,
    pub title: String,
    pub app_id: String,
}

/// The contents of a [`Card`].
pub struct CardView {
    pub index: int,
    pub handle: u64,
    pub selected: bool,
    pub alpha: int,
    pub width: int,
    pub height: int,
    pub preview_height: int,
    pub border: int,
    pub preview: Preview,
    pub title: Seq<char>,
    pub app_id: Seq<char>,
}

impl View for Card {
    type V = CardView;

    open spec fn view(&self) -> CardView {
        CardView {
            index: self.index as int,
            handle: self.handle,
            selected: self.selected,
            alpha: self.alpha as int,
            width: self.width as int,
            height: self.height as int,
            preview_height: self.preview_height as int,
            border: self.border as int,
            preview: self.preview,
            title: self.title@,
            app_id: self.app_id@,
        }
    }
}

/// The empty space to the left and to the right of the cards.
#[derive(Debug, Clone, Copy, PartialEq, Eq, Structural)]
pub struct Margins {
    pub left: u128,
    pub right: u128,
}

/// What the overlay shows.
#[derive(Debug, Clone, PartialEq, Eq)]
pub enum Overlay {
    /// A note that there are no windows.
    NoWindows,
    /// The cards between their margins, in the middle of an overlay whose opacity
    /// is counted in parts of the fade's duration.
    Strip { alpha: u64, margins: Margins, cards: Vec<Card> },
}

/// The distance between two places can be taken as a difference of 32-bit
/// integers.
pub open spec fn comparable(i: usize, selected: usize) -> bool {
    i32::MIN <= (i as i32) - (selected as i32) <= i32::MAX
}

/// How many steps two places are apart, as 32-bit integers.
pub open spec fn steps_between(i: usize, selected: usize) -> int {
    let difference = (i as i32) - (selected as i32);
    if difference >= 0 {
        difference
    } else {
        -difference
    }
}

/// The size and the opacity of a card so many steps from the selection, in
/// percent.
pub open spec fn distance_percent(steps: int) -> int {
    if 100 - steps * STEP_PERCENT >= FAR_PERCENT {
        100 - steps * STEP_PERCENT
    } else {
        FAR_PERCENT as int
    }
}

/// The size of a card, in ten-thousandths of its unscaled size.
pub open spec fn card_scale(selected: bool, percent: int) -> int {
    (if selected {
        SELECTED_PERCENT as int
    } else {
        100
    }) * percent
}

/// A title as it is shown: one that takes more than 32 bytes is cut after 31
/// characters and gets an ellipsis.
pub open spec fn shown_title(title: Seq<char>) -> Seq<char> {
    if encode_utf8(title).len() > TITLE_BYTES {
        (if title.len() > TITLE_CHARS {
            title.take(TITLE_CHARS as int)
        } else {
            title
        }).push('\u{2026}')
    } else {
        title
    }
}

/// The card of a window at an index, on an overlay of an opacity, sized and faded
/// to a percentage for its distance.
pub open spec fn card_of(
    window: WindowView,
    selected: bool,
    index: int,
    alpha: int,
    percent: int,
) -> CardView {
    let scale = card_scale(selected, percent);
    CardView {
        index,
        handle: window.handle,
        selected,
        alpha: alpha * percent,
        width: CARD_WIDTH * scale,
        height: CARD_HEIGHT * scale,
        preview_height: CARD_HEIGHT * scale - TITLE_HEIGHT * PIXEL,
        border: if selected {
            3
        } else {
            1
        },
        preview: if window.thumbnail is Some {
            Preview::Screenshot
        } else {
            Preview::Icon
        },
        title: shown_title(window.info.title),
        app_id: window.info.app_id,
    }
}

/// The cards of the windows, in their order, on an overlay of an opacity.
pub open spec fn cards_of(windows: Seq<WindowView>, selected: nat, alpha: int) -> Seq<CardView> {
    Seq::new(
        windows.len(),
        |i: int|
            card_of(
                windows[i],
                i == selected,
                i,
                alpha,
                distance_percent(steps_between(i as usize, selected as usize)),
            ),
    )
}

/// The contents of a list of cards.
pub open spec fn card_views(cards: Seq<Card>) -> Seq<CardView> {
    cards.map_values(|card: Card| card@)
}

/// The width of some cards, with the space that parts each from its neighbour.
pub open spec fn extent(cards: Seq<CardView>) -> int
    decreases cards.len(),
{
    if cards.len() == 0 {
        0
    } else {
        extent(cards.drop_last()) + cards.last().width + CARD_SPACING * PIXEL
    }
}

/// The margins that bring a card to the middle: the side on which less stands is
/// filled up. If there is no such card, there are none.
pub open spec fn margins_of(cards: Seq<CardView>, selected: nat) -> Margins {
    if selected < cards.len() {
        let before = extent(cards.take(selected as int));
        let after = extent(cards.skip(selected as int + 1));
        if before <= after {
            Margins { left: (after - before) as u128, right: 0 }
        } else {
            Margins { left: 0, right: (before - after) as u128 }
        }
    } else {
        Margins { left: 0, right: 0 }
    }
}

/// Where a card begins, counted from the left end of the strip with its margins.
pub open spec fn card_left(cards: Seq<CardView>, margins: Margins, i: int) -> int {
    margins.left + extent(cards.take(i))
}

/// The width of the strip with its margins. The space behind the last card parts it
/// from none, and is taken off.
pub open spec fn strip_width(cards: Seq<CardView>, margins: Margins) -> int {
    margins.left + extent(cards) - CARD_SPACING * PIXEL + margins.right
}

/// The middle of a card is the middle of the strip with its margins.
pub open spec fn is_centered(cards: Seq<CardView>, margins: Margins, i: int) -> bool {
    2 * card_left(cards, margins, i) + cards[i].width == strip_width(cards, margins)
}

/// Whether the distance between two places can be taken as a difference of 32-bit
/// integers.
pub fn distance_fits(i: usize, selected: usize) -> (fits: bool)
    ensures
        fits == comparable(i, selected),
{
    let difference: i64 = (i as i32) as i64 - (selected as i32) as i64;
    (i32::MIN as i64) <= difference && difference <= (i32::MAX as i64)
}

/// The size and the opacity of the card at an index, in percent: the selected one
/// is whole, and each step away loses 8 percent, down to 75.
pub fn distance_scale(i: usize, selected: usize) -> (percent: u32)
    requires
        comparable(i, selected),
    ensures
        percent == distance_percent(steps_between(i, selected)),
        FAR_PERCENT <= percent <= 100,
{
    let difference: i32 = (i as i32) - (selected as i32);
    let steps: i64 = if difference >= 0 {
        difference as i64
    } else {
        -(difference as i64)
    };
    let percent: i64 = 100 - steps * (STEP_PERCENT as i64);
    if percent >= FAR_PERCENT as i64 {
        percent as u32
    } else {
        FAR_PERCENT
    }
}

/// Shortens a title for its card.
pub fn truncate_title(title: &String) -> (shown: String)
    ensures
        shown@ == shown_title(title@),
{
    if title.as_str().as_bytes().len() > TITLE_BYTES {
        let chars: usize = title.as_str().unicode_len();
        let kept: usize = if chars > TITLE_CHARS {
            TITLE_CHARS
        } else {
            chars
        };
        let mut shown: String = title.as_str().substring_char(0, kept).to_owned();
        shown.append("\u{2026}");
        proof {
            reveal_strlit("\u{2026}");
            assert(title@.subrange(0, title@.len() as int) =~= title@);
            assert(shown@ =~= shown_title(title@));
        }
        shown
    } else {
        title.clone()
    }
}

/// Lays out the card of a window.
fn window_thumbnail(
    window: &Window,
    selected: bool,
    index: usize,
    alpha: u64,
    percent: u32,
) -> (card: Card)
    requires
        FAR_PERCENT <= percent <= 100,
        alpha * 100 <= u64::MAX,
    ensures
        card@ == card_of(window@, selected, index as int, alpha as int, percent as int),
{
    assert(alpha * percent <= alpha * 100) by (nonlinear_arith)
        requires
            percent <= 100,
    ;
    let scale: u32 = if selected {
        SELECTED_PERCENT * percent
    } else {
        100 * percent
    };
    Card {
        index,
        handle: window.handle,
        selected,
        alpha: alpha * (percent as u64),
        width: CARD_WIDTH * scale,
        height: CARD_HEIGHT * scale,
        preview_height: CARD_HEIGHT * scale - TITLE_HEIGHT * PIXEL,
        border: if selected {
            3
        } else {
            1
        },
        preview: if window.thumbnail.is_some() {
            Preview::Screenshot
        } else {
            Preview::Icon
        },
        title: truncate_title(&window.info.title),
        app_id: window.info.app_id.clone(),
    }
}

/// Lays out the cards of a list of windows, on an overlay of an opacity.
pub fn layout_cards(windows: &Vec<Window>, selected: usize, alpha: u64) -> (cards: Vec<Card>)
    requires
        forall|i: usize| i < windows@.len() ==> #[trigger] comparable(i, selected),
        alpha * 100 <= u64::MAX,
    ensures
        card_views(cards@) == cards_of(window_views(windows@), selected as nat, alpha as int),
{
    let ghost all = cards_of(window_views(windows@), selected as nat, alpha as int);
    let mut cards: Vec<Card> = Vec::new();
    let mut i: usize = 0;
    while i < windows.len()
        invariant
            i <= windows.len(),
            forall|j: usize| j < windows@.len() ==> #[trigger] comparable(j, selected),
            alpha * 100 <= u64::MAX,
            all == cards_of(window_views(windows@), selected as nat, alpha as int),
            card_views(cards@) == all.take(i as int),
        decreases windows.len() - i,
    {
        assert(comparable(i, selected));
        let percent: u32 = distance_scale(i, selected);
        let ghost before = cards@;
        let card = window_thumbnail(&windows[i], i == selected, i, alpha, percent);
        cards.push(card);
        proof {
            assert(card@ == all[i as int]);
            assert(card_views(cards@) =~= card_views(before).push(card@));
            assert(all.take(i + 1) =~= all.take(i as int).push(all[i as int]));
        }
        i += 1;
    }
    assert(all.take(i as int) =~= all);
    cards
}

/// Measures the cards from one index up to another, each with the space that parts
/// it from its neighbour.
fn measure(cards: &Vec<Card>, from: usize, to: usize) -> (width: u128)
    requires
        from <= to <= cards@.len(),
    ensures
        width == extent(card_views(cards@).subrange(from as int, to as int)),
        width <= cards@.len() * 0x2_0000_0000,
{
    let ghost views = card_views(cards@);
    let mut width: u128 = 0;
    let mut i: usize = from;
    while i < to
        invariant
            from <= i <= to <= cards@.len(),
            views == card_views(cards@),
            width == extent(views.subrange(from as int, i as int)),
            width <= (i - from) * 0x2_0000_0000,
        decreases to - i,
    {
        proof {
            let next = views.subrange(from as int, i + 1);
            assert(next.drop_last() =~= views.subrange(from as int, i as int));
            assert(next.last() == cards@[i as int]@);
        }
        width = width + cards[i].width as u128 + (CARD_SPACING * PIXEL) as u128;
        i += 1;
    }
    width
}

/// Finds the margins that bring the selected card to the middle.
pub fn center(cards: &Vec<Card>, selected: usize) -> (margins: Margins)
    ensures
        margins == margins_of(card_views(cards@), selected as nat),
        selected < cards@.len() ==> is_centered(card_views(cards@), margins, selected as int),
{
    if selected >= cards.len() {
        return Margins { left: 0, right: 0 };
    }
    let ghost views = card_views(cards@);
    let before: u128 = measure(cards, 0, selected);
    let after: u128 = measure(cards, selected + 1, cards.len());
    proof {
        assert(views.subrange(0, selected as int) =~= views.take(selected as int));
        assert(views.subrange(selected + 1, views.len() as int) =~= views.skip(selected + 1));
        lemma_extent_around(views, selected as int);
    }
    if before <= after {
        Margins { left: after - before, right: 0 }
    } else {
        Margins { left: 0, right: before - after }
    }
}

/// The cards before a card, the card, and the cards behind it make up the strip.
proof fn lemma_extent_around(cards: Seq<CardView>, i: int)
    requires
        0 <= i < cards.len(),
    ensures
        extent(cards) == extent(cards.take(i)) + cards[i].width + CARD_SPACING * PIXEL + extent(
            cards.skip(i + 1),
        ),
    decreases cards.len(),
{
    if i == cards.len() - 1 {
        assert(cards.take(i) =~= cards.drop_last());
        assert(cards.skip(i + 1).len() == 0);
    } else {
        let rest = cards.drop_last();
        lemma_extent_around(rest, i);
        assert(rest.take(i) =~= cards.take(i));
        assert(cards.skip(i + 1).drop_last() =~= rest.skip(i + 1));
        assert(cards.skip(i + 1).last() == cards.last());
    }
}

/// For places that 32-bit integers can count, the steps between them are the
/// difference of the places, whichever comes first.
pub proof fn law_steps_are_the_distance(i: usize, selected: usize)
    requires
        i <= i32::MAX,
        selected <= i32::MAX,
    ensures
        comparable(i, selected),
        steps_between(i, selected) == (if i >= selected {
            i - selected
        } else {
            selected - i
        }),
        steps_between(i, selected) == steps_between(selected, i),
{
}

/// The further a card is from the selection, the smaller it is, though never
/// under 75 percent. At the selection it is whole.
pub proof fn law_cards_shrink_with_distance(near: int, far: int)
    requires
        0 <= near <= far,
    ensures
        FAR_PERCENT <= distance_percent(far) <= distance_percent(near) <= 100,
        distance_percent(near) == 100 <==> near == 0,
{
}

/// The further a card is from the selection, the fainter it is. The selected card
/// is as opaque as the overlay, and on an overlay that can be seen every other
/// card is fainter than it, though never under 75 percent of it.
pub proof fn law_cards_fade_with_distance(
    windows: Seq<WindowView>,
    selected: nat,
    alpha: int,
    near: int,
    far: int,
)
    requires
        selected < windows.len() <= i32::MAX,
        0 <= alpha,
        0 <= near < windows.len(),
        0 <= far < windows.len(),
        steps_between(near as usize, selected as usize) <= steps_between(
            far as usize,
            selected as usize,
        ),
    ensures
        ({
            let cards = cards_of(windows, selected, alpha);
            let chosen = cards[selected as int];
            &&& chosen.alpha == alpha * 100
            &&& alpha * FAR_PERCENT <= cards[far].alpha <= cards[near].alpha <= chosen.alpha
            &&& alpha > 0 && far != selected ==> cards[far].alpha < chosen.alpha
        }),
{
    let near_steps = steps_between(near as usize, selected as usize);
    let far_steps = steps_between(far as usize, selected as usize);
    law_steps_are_the_distance(selected as usize, selected as usize);
    law_steps_are_the_distance(far as usize, selected as usize);
    law_cards_shrink_with_distance(near_steps, far_steps);
    law_cards_shrink_with_distance(far_steps, far_steps);
    let near_percent = distance_percent(near_steps);
    let far_percent = distance_percent(far_steps);
    assert(alpha * FAR_PERCENT <= alpha * far_percent <= alpha * near_percent <= alpha * 100)
        by (nonlinear_arith)
        requires
            0 <= alpha,
            FAR_PERCENT <= far_percent <= near_percent <= 100,
    ;
    if alpha > 0 && far != selected {
        assert(alpha * far_percent < alpha * 100) by (nonlinear_arith)
            requires
                0 < alpha,
                far_percent < 100,
        ;
    }
}

/// The selected card is larger than every other card.
pub proof fn law_selected_card_is_largest(
    windows: Seq<WindowView>,
    selected: nat,
    alpha: int,
    other: int,
)
    requires
        selected < windows.len() <= i32::MAX,
        0 <= other < windows.len(),
        other != selected,
    ensures
        ({
            let cards = cards_of(windows, selected, alpha);
            let chosen = cards[selected as int];
            &&& chosen.selected && !cards[other].selected
            &&& chosen.width > cards[other].width
            &&& chosen.height > cards[other].height
            &&& chosen.preview_height > cards[other].preview_height > 0
        }),
{
    law_steps_are_the_distance(selected as usize, selected as usize);
    law_steps_are_the_distance(other as usize, selected as usize);
    law_cards_shrink_with_distance(0, steps_between(other as usize, selected as usize));
}

/// Wherever the selection is, the margins bring the selected card to the middle,
/// and empty space is added on one side at most.
pub proof fn law_selected_card_is_centered(windows: Seq<WindowView>, selected: nat, alpha: int)
    requires
        selected < windows.len() <= usize::MAX,
    ensures
        ({
            let cards = cards_of(windows, selected, alpha);
            let margins = margins_of(cards, selected);
            &&& is_centered(cards, margins, selected as int)
            &&& margins.left == 0 || margins.right == 0
        }),
{
    let cards = cards_of(windows, selected, alpha);
    lemma_extent_around(cards, selected as int);
    lemma_extent_bound(cards.take(selected as int));
    lemma_extent_bound(cards.skip(selected as int + 1));
}

/// The width of cards that are not larger than a card can be.
proof fn lemma_extent_bound(cards: Seq<CardView>)
    requires
        forall|i: int| 0 <= i < cards.len() ==> 0 <= (#[trigger] cards[i]).width <= u32::MAX,
    ensures
        0 <= extent(cards) <= cards.len() * 0x2_0000_0000,
    decreases cards.len(),
{
    if cards.len() > 0 {
        assert(cards.last() == cards[cards.len() - 1]);
        assert forall|i: int| 0 <= i < cards.drop_last().len() implies 0 <= (
        #[trigger] cards.drop_last()[i]).width <= u32::MAX by {
            assert(cards.drop_last()[i] == cards[i]);
        }
        lemma_extent_bound(cards.drop_last());
    }
}

/// A card stands at the index that a click on it activates, and shows the window
/// at that index.
pub proof fn law_card_belongs_to_its_window(
    windows: Seq<WindowView>,
    selected: nat,
    alpha: int,
    i: int,
)
    requires
        0 <= i < windows.len(),
    ensures
        cards_of(windows, selected, alpha).len() == windows.len(),
        cards_of(windows, selected, alpha)[i].index == i,
        cards_of(windows, selected, alpha)[i].handle == windows[i].handle,
        cards_of(windows, selected, alpha)[i].selected == (i == selected),
{
}

/// A text has no more characters than bytes.
proof fn lemma_chars_within_bytes(text: Seq<char>)
    ensures
        text.len() <= encode_utf8(text).len(),
    decreases text.len(),
{
    if text.len() > 0 {
        lemma_chars_within_bytes(text.drop_first());
    }
}

/// A shown title has at most 32 characters. A title of at most 32 bytes is shown
/// as it is. Of a longer one the first 31 characters are shown, or all if there are
/// fewer, and an ellipsis.
pub proof fn law_titles_are_short(title: Seq<char>)
    ensures
        shown_title(title).len() <= TITLE_CHARS + 1,
        encode_utf8(title).len() <= TITLE_BYTES ==> shown_title(title) == title,
        encode_utf8(title).len() > TITLE_BYTES ==> {
            &&& shown_title(title).last() == '\u{2026}'
            &&& shown_title(title).drop_last().is_prefix_of(title)
            &&& title.len() <= 31 ==> shown_title(title).len() == title.len() + 1
            &&& title.len() >= 31 ==> shown_title(title).len() == 32
        },
{
    lemma_chars_within_bytes(title);
    if encode_utf8(title).len() > TITLE_BYTES {
        let kept = if title.len() > TITLE_CHARS {
            title.take(TITLE_CHARS as int)
        } else {
            title
        };
        assert(shown_title(title).drop_last() =~= kept);
    }
}

/// A card shows its own window, wherever the selection is and however opaque the
/// overlay: the screenshot exactly if there is one, the shown form of its title, and
/// its application.
pub proof fn law_cards_show_their_windows(
    windows: Seq<WindowView>,
    selected: nat,
    alpha: int,
    i: int,
)
    requires
        0 <= i < windows.len(),
    ensures
        ({
            let card = cards_of(windows, selected, alpha)[i];
            &&& card.preview == Preview::Screenshot <==> windows[i].thumbnail is Some
            &&& card.preview == Preview::Icon <==> windows[i].thumbnail is None
            &&& card.title == shown_title(windows[i].info.title)
            &&& card.app_id == windows[i].info.app_id
            &&& card.handle == windows[i].handle
            &&& card.index == i
        }),
{
}

/// What a card shows depends on its window alone: not on the selection, not on the
/// opacity of the overlay, and not on the other windows.
pub proof fn law_contents_depend_on_the_window_only(
    windows: Seq<WindowView>,
    others: Seq<WindowView>,
    selected: nat,
    other_selected: nat,
    alpha: int,
    other_alpha: int,
    i: int,
    j: int,
)
    requires
        0 <= i < windows.len(),
        0 <= j < others.len(),
        windows[i] == others[j],
    ensures
        ({
            let card = cards_of(windows, selected, alpha)[i];
            let other = cards_of(others, other_selected, other_alpha)[j];
            &&& card.preview == other.preview
            &&& card.title == other.title
            &&& card.app_id == other.app_id
            &&& card.handle == other.handle
        }),
{
}

/// How large, how opaque and how framed a card is depends on its place alone, not on
/// what any window shows, and not on how many windows there are.
pub proof fn law_sizes_depend_on_the_place_only(
    windows: Seq<WindowView>,
    others: Seq<WindowView>,
    selected: nat,
    alpha: int,
    i: int,
)
    requires
        0 <= i < windows.len(),
        i < others.len(),
    ensures
        ({
            let card = cards_of(windows, selected, alpha)[i];
            let other = cards_of(others, selected, alpha)[i];
            &&& card.width == other.width
            &&& card.height == other.height
            &&& card.preview_height == other.preview_height
            &&& card.alpha == other.alpha
            &&& card.border == other.border
            &&& card.selected == other.selected
        }),
{
}

/// The selected card is 445.5 by 297 pixels, as opaque as the overlay, with a border
/// of 3 pixels. Another is 405 by 270 pixels before it is scaled, with a border of 1
/// pixel, and loses the same share of its width and its opacity. Every card is one
/// and a half times as wide as it is high and keeps 48 pixels below the preview.
pub proof fn law_cards_have_their_sizes(
    windows: Seq<WindowView>,
    selected: nat,
    alpha: int,
    i: int,
)
    requires
        0 <= i < windows.len() <= i32::MAX,
        selected < windows.len(),
    ensures
        ({
            let card = cards_of(windows, selected, alpha)[i];
            let steps = if i >= selected {
                i - selected
            } else {
                selected - i
            };
            &&& i == selected ==> {
                &&& card.width == 4_455_000
                &&& card.height == 2_970_000
                &&& card.alpha == 100 * alpha
                &&& card.border == 3
                &&& card.selected
            }
            &&& i != selected ==> {
                &&& card.width == 40_500 * distance_percent(steps)
                &&& card.alpha == alpha * distance_percent(steps)
                &&& card.border == 1
                &&& !card.selected
            }
            &&& 2 * card.width == 3 * card.height
            &&& card.height - card.preview_height == 480_000
        }),
{
    law_steps_are_the_distance(i as usize, selected as usize);
}

/// A selection beyond the windows marks no card.
pub proof fn law_no_card_is_selected_beyond_the_windows(
    windows: Seq<WindowView>,
    selected: nat,
    alpha: int,
    i: int,
)
    requires
        0 <= i < windows.len() <= selected,
    ensures
        ({
            let card = cards_of(windows, selected, alpha)[i];
            &&& !card.selected
            &&& card.border == 1
            &&& margins_of(cards_of(windows, selected, alpha), selected) == (Margins {
                left: 0,
                right: 0,
            })
        }),
{
}

/// Each step away from the selection loses 8 percent, as long as 75 percent are left,
/// and from there on nothing.
pub proof fn law_each_step_loses_the_same(steps: int)
    requires
        0 <= steps,
    ensures
        distance_percent(0) == 100,
        distance_percent(steps) >= 83 ==> distance_percent(steps + 1) == distance_percent(steps)
            - 8,
        distance_percent(steps) < 83 ==> distance_percent(steps + 1) == 75,
{
}

/// Places are compared by their low 32 bits, the highest of them as a sign. The
/// distance can be taken exactly if it is a 32-bit integer too.
pub proof fn law_far_places_wrap(i: usize, selected: usize, low: u64)
    requires
        i <= 0x7fff_ffff,
        low == selected as u64 % 0x1_0000_0000,
    ensures
        low <= 0x7fff_ffff ==> comparable(i, selected) && steps_between(i, selected) == (if i
            >= low {
            i - low
        } else {
            low - i
        }),
        low > 0x7fff_ffff ==> steps_between(i, selected) == i + 0x1_0000_0000 - low && (comparable(
            i,
            selected,
        ) <==> i + 0x1_0000_0000 - low <= 0x7fff_ffff),
{
    let place = selected as u64;
    assert((selected as i32) == (place as i32)) by (bit_vector)
        requires
            place == selected as u64,
    ;
    if low <= 0x7fff_ffff {
        assert((place as i32) == low) by (bit_vector)
            requires
                low == place % 0x1_0000_0000,
                low <= 0x7fff_ffff,
        ;
    } else {
        assert((place as i32) == low - 0x1_0000_0000) by (bit_vector)
            requires
                low == place % 0x1_0000_0000,
                low > 0x7fff_ffff,
        ;
    }
}

/// Cards stand side by side, 16 pixels apart.
pub proof fn law_cards_stand_side_by_side(cards: Seq<CardView>, card: CardView)
    ensures
        extent(Seq::<CardView>::empty()) == 0,
        extent(cards.push(card)) == extent(cards) + card.width + 160_000,
{
    assert(cards.push(card).drop_last() =~= cards);
}

/// As much stands to the left of the selected card as to its right, margins
/// included. One of the margins is empty.
pub proof fn law_both_sides_of_the_selected_card_are_equal(
    windows: Seq<WindowView>,
    selected: nat,
    alpha: int,
)
    requires
        selected < windows.len() <= usize::MAX,
    ensures
        ({
            let cards = cards_of(windows, selected, alpha);
            let margins = margins_of(cards, selected);
            &&& margins.left + extent(cards.take(selected as int)) == extent(
                cards.skip(selected as int + 1),
            ) + margins.right
            &&& margins.left == 0 || margins.right == 0
        }),
{
    let cards = cards_of(windows, selected, alpha);
    lemma_extent_bound(cards.take(selected as int));
    lemma_extent_bound(cards.skip(selected as int + 1));
}

/// What a card holds is all there to see, card by card and in order.
pub proof fn law_cards_are_seen_whole(cards: Seq<Card>, i: int)
    requires
        0 <= i < cards.len(),
    ensures
        card_views(cards).len() == cards.len(),
        card_views(cards)[i] == cards[i]@,
        cards[i]@.index == cards[i].index,
        cards[i]@.handle == cards[i].handle,
        cards[i]@.selected == cards[i].selected,
        cards[i]@.alpha == cards[i].alpha,
        cards[i]@.width == cards[i].width,
        cards[i]@.height == cards[i].height,
        cards[i]@.preview_height == cards[i].preview_height,
        cards[i]@.border == cards[i].border,
        cards[i]@.preview == cards[i].preview,
        cards[i]@.title == cards[i].title@,
        cards[i]@.app_id == cards[i].app_id@,
{
}

/// The size and the opacity of a card for every selection, also beyond the windows,
/// by the steps between its place and the selection.
pub proof fn law_sizes_follow_the_steps(
    windows: Seq<WindowView>,
    selected: nat,
    alpha: int,
    i: int,
)
    requires
        0 <= i < windows.len(),
    ensures
        ({
            let card = cards_of(windows, selected, alpha)[i];
            let percent = distance_percent(steps_between(i as usize, selected as usize));
            &&& i == selected ==> {
                &&& card.width == 4_455_000
                &&& card.height == 2_970_000
                &&& card.preview_height == 2_490_000
                &&& card.alpha == 100 * alpha
            }
            &&& i != selected ==> {
                &&& card.width == 40_500 * percent
                &&& card.height == 27_000 * percent
                &&& card.preview_height == 27_000 * percent - 480_000
                &&& card.alpha == alpha * percent
            }
        }),
{
    let percent = distance_percent(steps_between(i as usize, selected as usize));
    if i == selected {
        assert(i as usize == selected as usize);
        assert(percent == 100);
    } else {
        assert(card_scale(false, percent) == 100 * percent);
    }
}

} // verus!
