use solarxy_cli::layout::{
    divide, fits, Direction, Layout, LeafId, PanelType, Preset, Refusal, NARROW_COLUMNS,
};
use solarxy_cli::rect::Rect;

const PANE: Rect = Rect {
    x: 0,
    y: 0,
    width: 140,
    height: 44,
};

fn survey() -> Layout {
    Preset::Survey.layout()
}

fn overlap(a: Rect, b: Rect) -> u32 {
    let left = a.x.max(b.x) as u32;
    let right = ((a.x + a.width) as u32).min((b.x + b.width) as u32);
    let top = a.y.max(b.y) as u32;
    let bottom = ((a.y + a.height) as u32).min((b.y + b.height) as u32);
    if right <= left || bottom <= top {
        0
    } else {
        (right - left) * (bottom - top)
    }
}

#[test]
fn a_single_panel_fills_the_pane_and_holds_focus() {
    let layout = Layout::single(PanelType::Geometry);
    let placements = layout.solve(PANE, None);
    assert_eq!(placements.len(), 1);
    assert_eq!(placements[0].rect, PANE);
    assert!(placements[0].focused);
    assert_eq!(placements[0].address, 1);
}

#[test]
fn siblings_tile_their_parent_with_no_gap_or_overlap() {
    for width in [100u16, 101, 139, 140] {
        for ratio in [330u16, 500, 618] {
            let area = Rect::new(0, 0, width, 44);
            let (a, b) = divide(area, Direction::Vertical, ratio);
            assert_eq!(a.x, area.x);
            assert_eq!(a.x + a.width, b.x, "seam at {width} / {ratio}");
            assert_eq!(b.x + b.width, area.x + area.width);
        }
    }
}

#[test]
fn every_leaf_lands_inside_the_pane_and_none_overlap() {
    let placements = survey().solve(PANE, None);
    assert_eq!(placements.len(), 6, "the survey preset is six panels");
    for placement in &placements {
        assert!(placement.rect.x + placement.rect.width <= PANE.width);
        assert!(placement.rect.y + placement.rect.height <= PANE.height);
        assert!(fits(placement.rect), "{:?} is unusable", placement.rect);
    }
    for (i, a) in placements.iter().enumerate() {
        for b in &placements[i + 1..] {
            assert_eq!(overlap(a.rect, b.rect), 0, "{:?} overlaps {:?}", a.panel, b.panel);
        }
    }
    let covered: u32 = placements
        .iter()
        .map(|p| u32::from(p.rect.width) * u32::from(p.rect.height))
        .sum();
    assert_eq!(covered, u32::from(PANE.width) * u32::from(PANE.height));
}

#[test]
fn addresses_are_assigned_in_reading_order() {
    let placements = survey().solve(PANE, None);
    let names: Vec<&str> = placements.iter().map(|p| p.panel.name()).collect();
    assert_eq!(
        names,
        vec!["silhouette", "geometry", "health", "meshes", "materials", "validation"]
    );
    for (index, placement) in placements.iter().enumerate() {
        assert_eq!(placement.address, u8::try_from(index + 1).expect("small"));
    }
}

#[test]
fn the_survey_preset_reproduces_the_design_at_its_target_size() {
    let placements = survey().solve(PANE, None);
    let by_name = |name: &str| {
        placements
            .iter()
            .find(|p| p.panel.name() == name)
            .unwrap_or_else(|| panic!("{name} missing"))
            .rect
    };
    assert_eq!(by_name("silhouette"), Rect::new(0, 0, 47, 13));
    assert_eq!(by_name("geometry"), Rect::new(47, 0, 47, 13));
    assert_eq!(by_name("health"), Rect::new(94, 0, 46, 13));
    assert_eq!(by_name("meshes"), Rect::new(0, 13, 72, 16));
    assert_eq!(by_name("materials"), Rect::new(72, 13, 68, 16));
    assert_eq!(by_name("validation"), Rect::new(0, 29, 140, 15));
}

#[test]
fn a_split_keeps_focus_and_opens_the_catalogue() {
    let layout = Layout::single(PanelType::Meshes);
    let split = layout.split(PANE, Direction::Vertical).expect("room");
    assert_eq!(split.focus(), layout.focus(), "focus moved");
    assert_eq!(split.panel_of(split.focus()), Some(PanelType::Meshes));
    let leaves = split.leaves();
    assert_eq!(leaves.len(), 2);
    assert!(leaves.iter().any(|(_, p)| *p == PanelType::Catalogue));
}

#[test]
fn assigning_replaces_the_catalogue_leaf() {
    let split = Layout::single(PanelType::Meshes)
        .split(PANE, Direction::Vertical)
        .expect("room");
    let new_leaf = split
        .leaves()
        .into_iter()
        .find(|(_, p)| *p == PanelType::Catalogue)
        .expect("catalogue")
        .0;
    let chosen = split.with_focus(new_leaf).assign(PanelType::Bounds);
    assert_eq!(chosen.panel_of(new_leaf), Some(PanelType::Bounds));
}

#[test]
fn a_refused_split_changes_nothing() {
    let tight = Rect::new(0, 0, 40, 10);
    let layout = Layout::single(PanelType::Meshes);
    let before = layout.encode();
    let refused = layout
        .split(tight, Direction::Vertical)
        .expect_err("40 columns cannot hold two 24-wide panels");
    assert_eq!(refused, Refusal::TooSmall);
    assert_eq!(layout.encode(), before);
    assert_eq!(refused.message(), "cannot split: 24x6 min");
}

#[test]
fn a_split_that_fits_is_allowed_and_one_that_does_not_is_not() {
    let layout = Layout::single(PanelType::Meshes);
    assert!(layout.split(Rect::new(0, 0, 48, 6), Direction::Vertical).is_ok());
    assert!(layout.split(Rect::new(0, 0, 47, 6), Direction::Vertical).is_err());
    assert!(layout.split(Rect::new(0, 0, 24, 12), Direction::Horizontal).is_ok());
    assert!(layout.split(Rect::new(0, 0, 24, 11), Direction::Horizontal).is_err());
}

#[test]
fn closing_a_panel_gives_its_room_to_the_sibling_and_keeps_focus_valid() {
    let layout = survey();
    let closed = layout.close().expect("six panels");
    assert_eq!(closed.leaves().len(), 5);
    assert!(closed.panel_of(closed.focus()).is_some());
    let placements = closed.solve(PANE, None);
    assert_eq!(placements.iter().filter(|p| p.focused).count(), 1);
}

#[test]
fn the_last_panel_cannot_be_closed() {
    let layout = Layout::single(PanelType::Geometry);
    assert_eq!(layout.close().expect_err("only panel"), Refusal::LastPanel);
}

#[test]
fn exactly_one_panel_holds_focus_through_a_sequence_of_mutations() {
    let mut layout = survey();
    for step in 0..5 {
        let placements = layout.solve(PANE, None);
        assert_eq!(
            placements.iter().filter(|p| p.focused).count(),
            1,
            "after {step} closes"
        );
        match layout.close() {
            Ok(next) => layout = next,
            Err(Refusal::LastPanel) => break,
            Err(other) => panic!("{}", other.message()),
        }
    }
    assert!(layout.panel_of(layout.focus()).is_some());
}

#[test]
fn maximize_takes_the_pane_and_leaves_the_tree_alone() {
    let layout = survey();
    let before = layout.encode();
    let placements = layout.solve(PANE, Some(layout.focus()));
    assert_eq!(placements.len(), 1);
    assert_eq!(placements[0].rect, PANE);
    assert_eq!(layout.encode(), before, "maximize touched the tree");
    assert_eq!(layout.solve(PANE, None).len(), 6, "restore lost panels");
}

#[test]
fn resizing_moves_the_divider_and_is_refused_when_it_would_not_fit() {
    let layout = survey();
    let before = layout.solve(PANE, None)[0].rect;
    let wider = layout.resize(PANE, 50).expect("room to move");
    let after = wider.solve(PANE, None)[0].rect;
    assert_ne!(before, after, "the divider did not move");

    let tight = Layout::single(PanelType::Meshes)
        .split(Rect::new(0, 0, 50, 8), Direction::Vertical)
        .expect("just fits");
    assert!(tight.resize(Rect::new(0, 0, 50, 8), 200).is_err());
}

#[test]
fn balancing_evens_every_ratio() {
    let layout = survey().balance(PANE).expect("room");
    let placements = layout.solve(PANE, None);
    assert_eq!(placements.len(), 6);
    for placement in &placements {
        assert!(fits(placement.rect));
    }
}

#[test]
fn a_pane_too_small_for_the_tree_shows_the_focused_panel_whole() {
    let layout = survey();
    let cramped = Rect::new(0, 0, 60, 20);
    let placements = layout.solve(cramped, None);
    assert_eq!(placements.len(), 1);
    assert_eq!(placements[0].rect, cramped);
    assert_eq!(placements[0].id, layout.focus());
    assert_eq!(layout.solve(PANE, None).len(), 6);
}

#[test]
fn re_solving_at_a_new_size_produces_new_rects_from_the_same_tree() {
    let layout = survey();
    let wide = layout.solve(PANE, None);
    let narrow = layout.solve(Rect::new(0, 0, 130, 40), None);
    assert_eq!(wide.len(), narrow.len());
    assert_ne!(wide[0].rect, narrow[0].rect);
    assert_eq!(
        wide.iter().map(|p| p.panel).collect::<Vec<_>>(),
        narrow.iter().map(|p| p.panel).collect::<Vec<_>>()
    );
}

#[test]
fn the_narrow_elision_produces_the_designs_floor_arrangement() {
    let floor = survey().elided(100);
    let names: Vec<&str> = floor
        .solve(Rect::new(0, 0, 100, 29), None)
        .iter()
        .map(|p| p.panel.name())
        .collect();
    assert_eq!(names, vec!["geometry", "health", "meshes", "validation"]);
}

#[test]
fn a_wide_terminal_elides_nothing() {
    let layout = survey();
    assert_eq!(layout.elided(NARROW_COLUMNS).leaves().len(), 6);
    assert_eq!(layout.elided(200).leaves().len(), 6);
}

#[test]
fn elision_does_not_touch_the_original() {
    let layout = survey();
    let before = layout.encode();
    let _ = layout.elided(90);
    assert_eq!(layout.encode(), before);
}

#[test]
fn every_preset_parses_and_round_trips() {
    for preset in Preset::all() {
        let layout = preset.layout();
        assert_eq!(layout.encode(), preset.encoded(), "{}", preset.name());
        let again = Layout::decode(&layout.encode()).expect("re-parses");
        assert_eq!(again.encode(), layout.encode());
    }
}

#[test]
fn a_mutated_tree_round_trips() {
    let built = Layout::single(PanelType::Meshes)
        .split(PANE, Direction::Vertical)
        .expect("room")
        .assign(PanelType::Geometry)
        .split(PANE, Direction::Horizontal)
        .expect("room");
    let text = built.encode();
    let read = Layout::decode(&text).expect("parses");
    assert_eq!(read.encode(), text);
    assert_eq!(
        read.leaves().iter().map(|(_, p)| *p).collect::<Vec<_>>(),
        built.leaves().iter().map(|(_, p)| *p).collect::<Vec<_>>()
    );
}

#[test]
fn the_encoding_reads_the_way_it_looks() {
    let layout = Layout::decode("V0.336(silhouette,V0.505(geometry,health))").expect("parses");
    let placements = layout.solve(PANE, None);
    assert_eq!(placements.len(), 3);
    assert_eq!(placements[0].rect.width, 47);
    assert_eq!(placements[1].rect.width, 47);
    assert_eq!(placements[2].rect.width, 46);
}

#[test]
fn a_single_leaf_is_a_bare_name() {
    assert_eq!(Layout::single(PanelType::Bounds).encode(), "bounds");
    assert_eq!(
        Layout::decode("bounds").expect("parses").leaves(),
        vec![(LeafId(0), PanelType::Bounds)]
    );
}

#[test]
fn a_malformed_layout_says_what_is_wrong() {
    for (source, expected) in [
        ("V0.5(meshes", "expected ','"),
        ("V(meshes,health)", "no ratio"),
        ("V0.5(meshes,nonesuch)", "not a panel"),
        ("V2.0(meshes,health)", "outside 0 to 1"),
        ("meshes extra", "trailing text"),
        ("", "expected a panel"),
    ] {
        let error = Layout::decode(source).expect_err("should be refused");
        assert!(
            error.contains(expected),
            "{source:?} reported {error:?}, expected it to mention {expected:?}"
        );
    }
}

#[test]
fn a_decoded_tree_can_still_be_split() {
    let layout = Layout::decode(Preset::Survey.encoded()).expect("parses");
    let split = layout.split(PANE, Direction::Horizontal).expect("room");
    let ids: Vec<LeafId> = split.leaves().into_iter().map(|(id, _)| id).collect();
    let mut unique = ids.clone();
    unique.sort_unstable();
    unique.dedup();
    assert_eq!(ids.len(), unique.len(), "a new leaf reused an existing id");
}

#[test]
fn presets_cycle_back_to_the_start() {
    let mut preset = Preset::Survey;
    for _ in 0..Preset::all().len() {
        preset = preset.next();
    }
    assert_eq!(preset, Preset::Survey);
}

#[test]
fn malformed_layouts_report_exact_positions_and_values() {
    assert_eq!(
        Layout::decode("V0.5(meshes").unwrap_err(),
        "expected ',' at byte 11"
    );
    assert_eq!(
        Layout::decode("V(meshes,health)").unwrap_err(),
        "split at byte 1 has no ratio"
    );
    assert_eq!(
        Layout::decode("V0.5(meshes,nonesuch)").unwrap_err(),
        "nonesuch is not a panel this version knows"
    );
    assert_eq!(
        Layout::decode("V2.0(meshes,health)").unwrap_err(),
        "ratio 2 is outside 0 to 1"
    );
    assert_eq!(
        Layout::decode("V01.50(meshes,health)").unwrap_err(),
        "ratio 1.5 is outside 0 to 1"
    );
    assert_eq!(
        Layout::decode("V0.5.5(meshes,health)").unwrap_err(),
        "0.5.5 is not a ratio"
    );
    assert_eq!(
        Layout::decode("  meshes extra ").unwrap_err(),
        "trailing text at byte 7"
    );
    assert_eq!(
        Layout::decode("V0.5 meshes").unwrap_err(),
        "expected '(' at byte 5"
    );
    assert_eq!(Layout::decode("").unwrap_err(), "expected a panel or a split at byte 0");
    assert_eq!(
        Layout::decode("V0.5(,health)").unwrap_err(),
        "expected a panel name at byte 5"
    );
}

#[test]
fn ratios_round_to_thousandths_and_spaces_are_allowed_between_parts() {
    let layout = Layout::decode(" H0.33351 ( meshes , V1 (uv,bounds) ) ").expect("parses");
    assert_eq!(layout.encode(), "H0.334(meshes,V1.000(uv,bounds))");
    let exact_one = Layout::decode("V1.000(uv,bounds)").expect("one is a ratio");
    assert_eq!(exact_one.encode(), "V1.000(uv,bounds)");
    let half = Layout::decode("V.5(uv,bounds)").expect("a bare point is a ratio");
    assert_eq!(half.encode(), "V0.500(uv,bounds)");
}

#[test]
fn focus_by_address_follows_reading_order() {
    let layout = survey();
    let moved = layout.with_focus_on_address(PANE, 4);
    assert_eq!(moved.panel_of(moved.focus()), Some(PanelType::Meshes));
    let unmoved = layout.with_focus_on_address(PANE, 9);
    assert_eq!(unmoved.focus(), layout.focus());
}

#[test]
fn elision_keeps_at_least_one_panel() {
    let layout = Layout::decode("V0.5(silhouette,materials)").expect("parses");
    let kept = layout.elided(80);
    assert_eq!(kept.leaves().len(), 1);
    assert!(kept.panel_of(kept.focus()).is_some());
}
