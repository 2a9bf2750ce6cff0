use cosmic_altswitcher::carousel::{
    center, distance_fits, distance_scale, layout_cards, truncate_title, Margins, CARD_SPACING,
    PIXEL,
};
use cosmic_altswitcher::message::ToplevelInfo;
use cosmic_altswitcher::window::{find_window, owned_pixels, remove_windows, Window};
use std::sync::Arc;

fn windows(handles: &[u64]) -> Vec<Window> {
    handles
        .iter()
        .map(|handle| Window {
            handle: *handle,
            info: ToplevelInfo { title: "t".to_string(), app_id: "a".to_string() },
            thumbnail: None,
        })
        .collect()
}

#[test]
fn each_step_loses_eight_percent_down_to_75() {
    let scales: Vec<u32> = (0..7).map(|i| distance_scale(i, 0)).collect();
    assert_eq!(scales, vec![100, 92, 84, 76, 75, 75, 75]);
    assert_eq!(distance_scale(2, 5), 76);
    assert_eq!(distance_scale(5, 2), 76);
}

#[test]
fn card_sizes() {
    let cards = layout_cards(&windows(&[1, 2, 3]), 0, 250);
    let sizes: Vec<(u32, u32, u32, u32)> =
        cards.iter().map(|c| (c.width, c.height, c.preview_height, c.border)).collect();
    assert_eq!(sizes[0], (4_455_000, 2_970_000, 2_490_000, 3));
    assert_eq!(sizes[1], (3_726_000, 2_484_000, 2_004_000, 1));
    assert_eq!(sizes[2], (3_402_000, 2_268_000, 1_788_000, 1));
    assert_eq!(PIXEL, 10_000);
}

#[test]
fn cards_fade_with_distance() {
    let list = windows(&[1, 2, 3, 4, 5, 6, 7]);
    let opacities = |alpha: u64| -> Vec<u64> {
        layout_cards(&list, 1, alpha).iter().map(|card| card.alpha).collect()
    };
    assert_eq!(opacities(250), vec![23_000, 25_000, 23_000, 21_000, 19_000, 18_750, 18_750]);
    assert_eq!(opacities(100), vec![9_200, 10_000, 9_200, 8_400, 7_600, 7_500, 7_500]);
    assert_eq!(opacities(0), vec![0; 7]);
}

#[test]
fn the_selected_card_is_in_the_middle() {
    let list = windows(&[1, 2, 3, 4, 5]);
    let gap = (CARD_SPACING * PIXEL) as u128;
    assert_eq!(gap, 160_000);
    for selected in 0..list.len() {
        let cards = layout_cards(&list, selected, 250);
        let margins = center(&cards, selected);
        let widths: Vec<u128> = cards.iter().map(|card| card.width as u128).collect();
        let before: u128 = widths[..selected].iter().map(|width| width + gap).sum();
        let whole: u128 = margins.left + widths.iter().sum::<u128>() + 4 * gap + margins.right;
        assert_eq!(2 * (margins.left + before) + widths[selected], whole);
        assert!(margins.left == 0 || margins.right == 0);
    }
    let cards = layout_cards(&list, 2, 250);
    assert_eq!(center(&cards, 2), Margins { left: 0, right: 0 });
    assert_eq!(center(&cards, 5), Margins { left: 0, right: 0 });
    assert_eq!(center(&layout_cards(&windows(&[1]), 0, 250), 0), Margins { left: 0, right: 0 });
    let cards = layout_cards(&windows(&[1, 2]), 0, 250);
    assert_eq!(center(&cards, 0), Margins { left: 3_886_000, right: 0 });
}

#[test]
fn distances_of_32_bits() {
    assert!(distance_fits(0, 0));
    assert!(distance_fits(0, i32::MAX as usize));
    assert!(!distance_fits(0, i32::MAX as usize + 1));
    assert!(!distance_fits(i32::MAX as usize + 1, 1));
}

#[test]
fn short_titles_are_shown_whole() {
    let exact = "x".repeat(32);
    assert_eq!(truncate_title(&exact), exact);
    assert_eq!(truncate_title(&String::new()), "");
}

#[test]
fn long_titles_are_cut() {
    let long = "abcdefghijklmnopqrstuvwxyz0123456789".to_string();
    assert_eq!(truncate_title(&long), "abcdefghijklmnopqrstuvwxyz01234\u{2026}");
    assert_eq!(truncate_title(&"x".repeat(33)), format!("{}\u{2026}", "x".repeat(31)));
}

#[test]
fn titles_are_measured_in_bytes_and_cut_in_characters() {
    let few = "\u{7a97}".repeat(11);
    assert_eq!(truncate_title(&few), format!("{}\u{2026}", few));
    let fits = "\u{7a97}".repeat(10);
    assert_eq!(truncate_title(&fits), fits);
    let many = "\u{e9}".repeat(40);
    assert_eq!(truncate_title(&many), format!("{}\u{2026}", "\u{e9}".repeat(31)));
}

#[test]
fn windows_are_found_and_removed_by_handle() {
    let mut list = windows(&[4, 7, 4, 9]);
    assert_eq!(find_window(&list, 4), Some(0));
    assert_eq!(find_window(&list, 9), Some(3));
    assert_eq!(find_window(&list, 5), None);
    remove_windows(&mut list, 4);
    let left: Vec<u64> = list.iter().map(|window| window.handle).collect();
    assert_eq!(left, vec![7, 9]);
}

#[test]
fn pixels_come_out_of_their_shared_place() {
    assert_eq!(owned_pixels(Arc::new(vec![1, 2, 3])), vec![1, 2, 3]);
    let shared = Arc::new(vec![4, 5]);
    assert_eq!(owned_pixels(shared.clone()), vec![4, 5]);
    assert_eq!(*shared, vec![4, 5]);
}
