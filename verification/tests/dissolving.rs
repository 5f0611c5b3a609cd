use danger_write::canvas::Rect;
use danger_write::dissolve::{cell_noise, Dissolve, NOISE_RANGE};
use danger_write::time::Duration;
use ratatui::buffer::{Buffer, Cell};

fn filled(width: u16, height: u16) -> Buffer {
    let mut cell = Cell::new("x");
    cell.set_fg(ratatui::style::Color::Red);
    Buffer::filled(ratatui::layout::Rect::new(2, 3, width, height), cell)
}

fn under_way() -> Dissolve {
    Dissolve { duration: Duration::from_millis(1400), elapsed: Duration::from_millis(700) }
}

fn gone(buf: &Buffer) -> Vec<(u16, u16)> {
    let area = buf.area;
    let mut gone = Vec::new();
    for y in area.top()..area.bottom() {
        for x in area.left()..area.right() {
            if buf[(x, y)] == Cell::EMPTY {
                gone.push((x, y));
            }
        }
    }
    gone
}

#[test]
fn noise_of_a_cell() {
    assert_eq!(cell_noise(0, 0), 0);
    assert_eq!(cell_noise(1, 0), 1_735_533_767);
    assert_eq!(cell_noise(0, 1), 3_936_583_297);
    assert_eq!(cell_noise(79, 23), 498_870_139);
}

#[test]
fn noise_is_spread_over_its_range() {
    let mut low = 0;
    for y in 0..40 {
        for x in 0..100 {
            if u64::from(cell_noise(x, y)) < NOISE_RANGE / 4 {
                low += 1;
            }
        }
    }
    assert!((800..1200).contains(&low));
}

#[test]
fn ticks_stop_at_the_end() {
    let mut fx = Dissolve::new(Duration::from_millis(1400));
    assert!(!fx.done());
    fx.tick(Duration::from_millis(1000));
    assert_eq!(fx.elapsed, Duration::from_millis(1000));
    assert!(!fx.done());
    fx.tick(Duration::from_millis(399));
    assert!(!fx.done());
    fx.tick(Duration::from_millis(1000));
    assert_eq!(fx.elapsed, Duration::from_millis(1400));
    assert!(fx.done());
}

#[test]
fn an_animation_of_no_length_is_over() {
    assert!(Dissolve::new(Duration::from_secs(0)).done());
}

#[test]
fn frames_add_up() {
    let mut many = Dissolve::new(Duration::from_millis(1400));
    for _ in 0..10 {
        many.tick(Duration::from_millis(70));
    }
    let mut one = Dissolve::new(Duration::from_millis(1400));
    one.tick(Duration::from_millis(700));
    assert_eq!(many, one);
}

#[test]
fn cells_below_the_cut_are_emptied() {
    let cut = NOISE_RANGE / 2;
    let mut buf = filled(30, 10);
    under_way().render(&mut buf, Rect { x: 2, y: 3, width: 30, height: 10 }, cut);
    for y in 3..13 {
        for x in 2..32 {
            let emptied = buf[(x, y)] == Cell::EMPTY;
            assert_eq!(emptied, u64::from(cell_noise(x, y)) < cut);
        }
    }
}

#[test]
fn no_cut_empties_nothing_and_a_full_one_everything() {
    let area = Rect { x: 2, y: 3, width: 30, height: 10 };
    let mut buf = filled(30, 10);
    under_way().render(&mut buf, area, 0);
    assert_eq!(buf, filled(30, 10));
    under_way().render(&mut buf, area, NOISE_RANGE);
    assert_eq!(gone(&buf).len(), 300);
}

#[test]
fn a_dissolve_stays_in_its_area() {
    let mut buf = filled(10, 10);
    under_way().render(&mut buf, Rect { x: 4, y: 5, width: 2, height: 1 }, NOISE_RANGE);
    assert_eq!(gone(&buf), vec![(4, 5), (5, 5)]);
    under_way().render(&mut buf, Rect { x: 11, y: 12, width: 500, height: 65535 }, NOISE_RANGE);
    assert_eq!(gone(&buf), vec![(4, 5), (5, 5), (11, 12)]);
}

#[test]
fn a_dissolve_only_grows() {
    let area = Rect { x: 2, y: 3, width: 20, height: 10 };
    let mut stepwise = filled(20, 10);
    for step in 1..=4 {
        under_way().render(&mut stepwise, area, NOISE_RANGE / 8 * step);
    }
    let mut at_once = filled(20, 10);
    under_way().render(&mut at_once, area, NOISE_RANGE / 2);
    assert_eq!(stepwise, at_once);
}

#[test]
fn the_ends_of_an_animation_have_cuts_of_their_own() {
    let area = Rect { x: 2, y: 3, width: 30, height: 10 };
    let mut fx = Dissolve::new(Duration::from_millis(1400));
    let mut buf = filled(30, 10);
    fx.render(&mut buf, area, NOISE_RANGE);
    assert_eq!(buf, filled(30, 10));
    fx.tick(Duration::from_secs(2));
    fx.render(&mut buf, area, 0);
    assert_eq!(gone(&buf).len(), 300);
    let mut buf = filled(30, 10);
    Dissolve::new(Duration::from_secs(0)).render(&mut buf, area, NOISE_RANGE);
    assert_eq!(buf, filled(30, 10));
}

#[test]
fn cells_never_come_back() {
    let area = Rect { x: 2, y: 3, width: 20, height: 10 };
    let mut fx = Dissolve::new(Duration::from_millis(1400));
    let mut before = Vec::new();
    for step in 0..=15u64 {
        let mut buf = filled(20, 10);
        fx.render(&mut buf, area, NOISE_RANGE / 200 * step * step);
        let after = gone(&buf);
        assert!(before.iter().all(|p| after.contains(p)));
        assert_eq!(after.is_empty(), step == 0);
        before = after;
        fx.tick(Duration::from_millis(100));
    }
    assert_eq!(before.len(), 200);
}
