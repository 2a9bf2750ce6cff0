//! The windows that the switcher knows.

#[allow(unused_imports)]
use crate::message::{ToplevelInfo, ToplevelInfoView};
use std::sync::Arc;
use vstd::prelude::*;

verus! {

/// A screenshot of a window, as rows of RGBA pixels.
#[derive(Debug, Clone, PartialEq, Eq)]
pub struct Thumbnail {
    pub width: u32,
    pub height: u32,
    pub pixels: Vec<u8>,
}

/// The contents of a [`Thumbnail`].
pub struct ThumbnailView {
    pub width: u32,
    pub height: u32,
    pub pixels: Seq<u8>,
}

impl View for Thumbnail {
    type V = ThumbnailView;

    open spec fn view(&self) -> ThumbnailView {
        ThumbnailView { width: self.width, height: self.height, pixels: self.pixels@ }
    }
}

/// A window in the strip.
#[derive(Debug, Clone, PartialEq, Eq)]
pub struct Window {
    pub handle: u64,
    pub info: ToplevelInfo,
    pub thumbnail: Option<Thumbnail>,
}

/// The contents of a [`Window`].
pub struct WindowView {
    pub handle: u64,
    pub info: ToplevelInfoView,
    pub thumbnail: Option<ThumbnailView>,
}

impl View for Window {
    type V = WindowView;

    open spec fn view(&self) -> WindowView {
        WindowView {
            handle: self.handle,
            info: self.info@,
            thumbnail: match self.thumbnail {
                Some(thumbnail) => Some(thumbnail@),
                None => None,
            },
        }
    }
}

/// The contents of a list of windows.
pub open spec fn window_views(windows: Seq<Window>) -> Seq<WindowView> {
    windows.map_values(|window: Window| window@)
}

/// The index `i` holds the first window with the given handle.
pub open spec fn first_with_handle(windows: Seq<WindowView>, handle: u64, i: int) -> bool {
    &&& 0 <= i < windows.len()
    &&& windows[i].handle == handle
    &&& forall|j: int| 0 <= j < i ==> (#[trigger] windows[j]).handle != handle
}

/// Some window has the given handle.
pub open spec fn has_handle(windows: Seq<WindowView>, handle: u64) -> bool {
    exists|i: int| 0 <= i < windows.len() && (#[trigger] windows[i]).handle == handle
}

/// The list in which `new` stands in place of the first window with the given
/// handle. A list without such a window stays as it is.
pub open spec fn replace_first(
    windows: Seq<WindowView>,
    handle: u64,
    new: spec_fn(WindowView) -> WindowView,
) -> Seq<WindowView>
    decreases windows.len(),
{
    if windows.len() == 0 {
        windows
    } else if windows[0].handle == handle {
        windows.update(0, new(windows[0]))
    } else {
        seq![windows[0]] + replace_first(windows.drop_first(), handle, new)
    }
}

/// The windows with other handles, in their order.
pub open spec fn without_handle(windows: Seq<WindowView>, handle: u64) -> Seq<WindowView> {
    windows.filter(|window: WindowView| window.handle != handle)
}

/// Replacing at the first index with a handle is replacing the first window
/// with it.
pub proof fn lemma_replace_first_at(
    windows: Seq<WindowView>,
    handle: u64,
    new: spec_fn(WindowView) -> WindowView,
    i: int,
)
    requires
        first_with_handle(windows, handle, i),
    ensures
        replace_first(windows, handle, new) == windows.update(i, new(windows[i])),
    decreases windows.len(),
{
    if i > 0 {
        let rest = windows.drop_first();
        assert(forall|j: int| 0 <= j < rest.len() ==> rest[j] == windows[j + 1]);
        lemma_replace_first_at(rest, handle, new, i - 1);
        assert(seq![windows[0]] + rest.update(i - 1, new(rest[i - 1])) =~= windows.update(
            i,
            new(windows[i]),
        ));
    }
}

/// Nothing is replaced where no window has the handle.
pub proof fn lemma_replace_first_absent(
    windows: Seq<WindowView>,
    handle: u64,
    new: spec_fn(WindowView) -> WindowView,
)
    requires
        !has_handle(windows, handle),
    ensures
        replace_first(windows, handle, new) == windows,
    decreases windows.len(),
{
    if windows.len() > 0 {
        let rest = windows.drop_first();
        assert(forall|j: int| 0 <= j < rest.len() ==> rest[j] == windows[j + 1]);
        lemma_replace_first_absent(rest, handle, new);
        assert(seq![windows[0]] + rest =~= windows);
    }
}

/// Finds the first window with the given handle.
pub fn find_window(windows: &Vec<Window>, handle: u64) -> (found: Option<usize>)
    ensures
        match found {
            Some(i) => first_with_handle(window_views(windows@), handle, i as int),
            None => !has_handle(window_views(windows@), handle),
        },
{
    let mut i: usize = 0;
    while i < windows.len()
        invariant
            i <= windows.len(),
            forall|j: int|
                0 <= j < i ==> (#[trigger] window_views(windows@)[j]).handle != handle,
        decreases windows.len() - i,
    {
        if windows[i].handle == handle {
            return Some(i);
        }
        i += 1;
    }
    None
}

/// Removes every window with the given handle.
pub fn remove_windows(windows: &mut Vec<Window>, handle: u64)
    ensures
        window_views(final(windows)@) == without_handle(window_views(old(windows)@), handle),
{
    let ghost keep = |window: WindowView| window.handle != handle;
    let ghost before = window_views(windows@);
    let mut i: usize = 0;
    while i < windows.len()
        invariant
            i <= windows.len(),
            keep == (|window: WindowView| window.handle != handle),
            window_views(windows@).filter(keep) == before.filter(keep),
            forall|j: int| 0 <= j < i ==> keep(#[trigger] window_views(windows@)[j]),
        decreases windows.len() - i,
    {
        if windows[i].handle == handle {
            let ghost views = window_views(windows@);
            windows.remove(i);
            proof {
                assert(window_views(windows@) =~= views.remove(i as int));
                lemma_filter_remove(views, keep, i as int);
            }
        } else {
            i += 1;
        }
    }
    proof {
        lemma_filter_all(window_views(windows@), keep);
    }
}

/// Dropping an element that a filter drops leaves the filtered list as it is.
proof fn lemma_filter_remove<A>(list: Seq<A>, keep: spec_fn(A) -> bool, i: int)
    requires
        0 <= i < list.len(),
        !keep(list[i]),
    ensures
        list.remove(i).filter(keep) == list.filter(keep),
    decreases list.len(),
{
    reveal(Seq::filter);
    if i == list.len() - 1 {
        assert(list.remove(i) =~= list.drop_last());
    } else {
        lemma_filter_remove(list.drop_last(), keep, i);
        assert(list.remove(i).drop_last() =~= list.drop_last().remove(i));
        assert(list.remove(i).last() == list.last());
    }
}

/// A filter that keeps every element keeps the list.
proof fn lemma_filter_all<A>(list: Seq<A>, keep: spec_fn(A) -> bool)
    requires
        forall|i: int| 0 <= i < list.len() ==> keep(#[trigger] list[i]),
    ensures
        list.filter(keep) == list,
    decreases list.len(),
{
    reveal(Seq::filter);
    if list.len() > 0 {
        lemma_filter_all(list.drop_last(), keep);
        assert(list.drop_last().push(list.last()) =~= list);
    }
}

/// Calls `Arc::try_unwrap` on shared pixels. Claimed of it: either the pixels
/// come out, or, where others share them too, the same shared pixels do.
#[verifier::external_body]
fn try_unwrap_pixels(pixels: Arc<Vec<u8>>) -> (owned: Result<Vec<u8>, Arc<Vec<u8>>>)
    ensures
        match owned {
            Ok(bytes) => bytes@ == pixels@,
            Err(shared) => shared@ == pixels@,
        },
{
    Arc::try_unwrap(pixels)
}

/// Takes pixels out of their shared place, by copying them if others need them.
pub fn owned_pixels(pixels: Arc<Vec<u8>>) -> (bytes: Vec<u8>)
    ensures
        bytes@ == pixels@,
{
    match try_unwrap_pixels(pixels) {
        Ok(bytes) => bytes,
        Err(shared) => {
            let bytes = (*shared).clone();
            assert(bytes@ =~= shared@);
            bytes
        },
    }
}

/// What is known of a window is all there to see.
pub proof fn law_views_show_everything(window: Window, info: ToplevelInfo, thumbnail: Thumbnail)
    ensures
        window@.handle == window.handle,
        window@.info == window.info@,
        window.thumbnail is None ==> window@.thumbnail is None,
        window.thumbnail matches Some(picture) ==> window@.thumbnail == Some(picture@),
        info@.title == info.title@,
        info@.app_id == info.app_id@,
        thumbnail@.width == thumbnail.width,
        thumbnail@.height == thumbnail.height,
        thumbnail@.pixels == thumbnail.pixels@,
{
}

/// A list of windows is seen window by window, in its order.
pub proof fn law_lists_are_seen_in_order(windows: Seq<Window>, i: int)
    requires
        0 <= i < windows.len(),
    ensures
        window_views(windows).len() == windows.len(),
        window_views(windows)[i] == windows[i]@,
{
}

} // verus!
