use certmonitor::layout::{
    centered_rect, centering_columns, centering_rows, screen_areas, screen_rows, Area, Part,
};

#[test]
fn screen_has_a_header_a_table_and_a_status_line() {
    assert_eq!(screen_rows(), vec![Part::Length(1), Part::Min(0), Part::Length(1)]);
    let areas = screen_areas(Area { x: 0, y: 0, width: 80, height: 24 });
    assert_eq!(
        areas,
        vec![
            Area { x: 0, y: 0, width: 80, height: 1 },
            Area { x: 0, y: 1, width: 80, height: 22 },
            Area { x: 0, y: 23, width: 80, height: 1 },
        ]
    );
}

#[test]
fn centering_asks_for_the_middle() {
    assert_eq!(centering_rows(13, 24), vec![Part::Fill(1), Part::Length(13), Part::Fill(1)]);
    assert_eq!(centering_rows(13, 5), vec![Part::Fill(1), Part::Length(5), Part::Fill(1)]);
    assert_eq!(
        centering_columns(70),
        vec![Part::Percentage(15), Part::Percentage(70), Part::Percentage(15)]
    );
    assert_eq!(
        centering_columns(75),
        vec![Part::Percentage(12), Part::Percentage(75), Part::Percentage(12)]
    );
}

#[test]
fn popup_is_centered() {
    let r = centered_rect(70, 13, Area { x: 0, y: 0, width: 100, height: 33 });
    assert_eq!(r, Area { x: 15, y: 10, width: 70, height: 13 });
}

#[test]
fn areas_stay_within_the_screen() {
    for (x, y, width, height) in [
        (0, 0, 0, 0),
        (3, 5, 1, 1),
        (0, 0, 9, 12),
        (10, 20, 80, 2),
        (65000, 65000, 535, 535),
        (65000, 65000, 900, 900),
    ] {
        let area = Area { x, y, width, height };
        let right = x.saturating_add(width) as u32;
        let bottom = y.saturating_add(height) as u32;
        for rows in [0, 1, 13, u16::MAX] {
            for pct in [0, 33, 70, 100] {
                let r = centered_rect(pct, rows, area);
                assert!(r.x >= x && r.y >= y);
                assert!(r.x as u32 + r.width as u32 <= right);
                assert!(r.y as u32 + r.height as u32 <= bottom);
            }
        }
        let areas = screen_areas(area);
        assert_eq!(areas.len(), 3);
        for r in areas {
            assert_eq!((r.x, r.width), (x, width));
            assert!(r.y >= y && r.y as u32 + r.height as u32 <= bottom);
        }
    }
}

#[test]
fn screen_rows_are_exact_where_there_is_room() {
    for y in [0, 1, 7, 1000, 65_000, 65_535] {
        for height in (0..200).chain([1000, 30_001, 65_535]) {
            let screen = Area { x: 3, y, width: 80, height };
            let bottom = y.saturating_add(height);
            if bottom - y >= 2 {
                let inner = bottom - y - 2;
                assert_eq!(
                    screen_areas(screen),
                    vec![
                        Area { height: 1, ..screen },
                        Area { y: y + 1, height: inner, ..screen },
                        Area { y: bottom - 1, height: 1, ..screen },
                    ]
                );
            }
        }
    }
}

#[test]
fn popup_is_as_tall_as_asked_and_in_the_middle() {
    for y in [0, 5, 65_000] {
        for height in (0..40).chain([535]) {
            for rows in (0..40).chain([65_535]) {
                let area = Area { x: 0, y, width: 100, height };
                let r = centered_rect(70, rows, area);
                assert_eq!(r.height, rows.min(height));
                let above = r.y - y;
                let below = height - above - r.height;
                assert!(above.abs_diff(below) <= 1);
            }
        }
    }
}

#[test]
fn popup_has_its_share_of_the_width() {
    let r = centered_rect(70, 13, Area { x: 10, y: 0, width: 100, height: 33 });
    assert_eq!((r.x, r.width), (25, 70));
    for x in [0, 10, 65_000, 65_500] {
        for width in (0..120).chain([535, 1000, 65_535]) {
            for pct in (0..=100).step_by(7) {
                let extent = (x as u16).saturating_add(width) as u64 - x as u64;
                let side = (100 - pct as u64) / 2;
                let left = x as u64 + (side * extent + 50) / 100;
                let right = x as u64 + ((side + pct as u64) * extent + 50) / 100;
                let r = centered_rect(pct, 3, Area { x, y: 4, width, height: 9 });
                assert_eq!((r.x as u64, r.x as u64 + r.width as u64), (left, right));
                assert_eq!((r.y, r.height), (7, 3));
            }
        }
    }
    let odd = centered_rect(70, 3, Area { x: 0, y: 4, width: 10, height: 8 });
    assert_eq!((odd.y, odd.height), (7, 3));
}
