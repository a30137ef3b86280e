use daily_commando::landscape::{centre_offset, overlay, paint, Act, Color, WorldState};

#[test]
fn voyage_then_cascade_then_abyss() {
    let w1 = WorldState::compute(0, 60, 3, 1, 80, 24, 0);
    assert_eq!(w1.act, Act::Voyage);
    let w2 = WorldState::compute(80, 60, 3, 3, 80, 24, 0);
    assert_eq!(w2.act, Act::Cascade);
    let w3 = WorldState::compute(140, 60, 3, 3, 80, 24, 0);
    assert_eq!(w3.act, Act::Abyss);
}

#[test]
fn n_minus_1_islands() {
    let w = WorldState::compute(10, 60, 5, 2, 80, 24, 0);
    assert_eq!(w.island_xs.len(), 4);
}

#[test]
fn castle_width_clamped() {
    let w_small = WorldState::compute(0, 60, 3, 1, 30, 24, 0);
    assert_eq!(w_small.castle_w, 5);
    let w_big = WorldState::compute(0, 60, 3, 1, 200, 24, 0);
    assert_eq!(w_big.castle_w, 15);
}

#[test]
fn voyage_positions() {
    // cols 80: castle 8 wide at 71; travel 66; islands over a span of 62.
    let w = WorldState::compute(30, 60, 5, 2, 80, 24, 0);
    assert_eq!(w.act, Act::Voyage);
    assert_eq!(w.castle_w, 8);
    assert_eq!(w.castle_x, 71);
    assert!(!w.castle_destroyed);
    assert_eq!(w.sun_x, 38); // 76 - 76 * 30 / 60
    assert_eq!(w.boat_x, 3 + 33); // 66 * 30 / 60
    assert_eq!(w.boat_y, 22);
    assert_eq!(w.boat_rotation, 0);
    assert_eq!(w.horizon_y, 23);
    assert_eq!(w.island_xs, vec![6 + 12, 6 + 24, 6 + 37, 6 + 49]);
    assert_eq!(w.cascade_x, 77);
    assert!(!w.satan_revealed);
    assert_eq!(w.current_soldier, 2);
    assert_eq!(w.soldiers, 5);
}

#[test]
fn cascade_positions() {
    let w = WorldState::compute(70, 60, 3, 3, 80, 24, 1000);
    assert_eq!(w.act, Act::Cascade);
    assert!(w.castle_destroyed);
    assert_eq!(w.sun_x, 0);
    assert_eq!(w.boat_x, 80 - (4 + 4));
    assert_eq!(w.boat_y, 16 * 10 / 60);
    assert_eq!(w.boat_rotation, 0); // 1000 / 250 = 4
    assert_eq!(w.horizon_y, 13); // 23 - 10 seconds of cascade
    let later = WorldState::compute(119, 60, 3, 3, 80, 24, 750);
    assert_eq!(later.horizon_y, 6); // never above a quarter of the screen
    assert_eq!(later.boat_rotation, 3);
}

#[test]
fn abyss_positions() {
    let w = WorldState::compute(500, 60, 3, 3, 80, 24, 1000);
    assert_eq!(w.act, Act::Abyss);
    assert!(w.satan_revealed);
    assert_eq!(w.boat_y, 16);
    assert_eq!(w.horizon_y, 6);
    assert_eq!(w.boat_rotation, 1); // 1000 / 200 = 5
}

#[test]
fn zero_budget_counts_as_one_second() {
    assert_eq!(WorldState::compute(0, 0, 1, 1, 80, 24, 0).act, Act::Voyage);
    assert_eq!(WorldState::compute(1, 0, 1, 1, 80, 24, 0).act, Act::Cascade);
    assert_eq!(WorldState::compute(2, 0, 1, 1, 80, 24, 0).act, Act::Abyss);
    assert!(WorldState::compute(2, 0, 1, 1, 80, 24, 0).island_xs.is_empty());
}

#[test]
fn acts_follow_in_order() {
    let mut last = 0;
    for e in 0..200u32 {
        let rank = match WorldState::compute(e, 60, 3, 1, 80, 24, 0).act {
            Act::Voyage => 0,
            Act::Cascade => 1,
            Act::Abyss => 2,
        };
        assert!(rank >= last);
        last = rank;
    }
}

fn canvas(cols: usize, rows: usize) -> (Vec<Vec<char>>, Vec<Vec<Option<Color>>>) {
    (vec![vec!['.'; cols]; rows], vec![vec![None; cols]; rows])
}

#[test]
fn paint_voyage_scene() {
    let w = WorldState::compute(0, 60, 3, 1, 40, 12, 0);
    let (mut c, mut k) = canvas(40, 12);
    paint(&w, &mut c, &mut k);
    assert_eq!(c.len(), 12);
    assert!(c.iter().all(|r| r.len() == 40));
    // the sea
    assert!(c[11][..3].iter().all(|&ch| ch == '~'));
    assert_eq!(k[11][0], Some(Color::Blue));
    // at t = 0 the sun rises at the east end of its course, column 40 - 4
    assert_eq!(w.sun_x, 36);
    assert_eq!(c[2][36], '☼');
    assert_eq!(k[2][36], Some(Color::Yellow));
    assert_eq!(c[2][37], ' ');
    assert_eq!(k[2][37], None);
    // the boat, with the speaker on deck
    assert_eq!(c[10][3..8].iter().collect::<String>(), "\\_/_/");
    assert_eq!(c[11][3..8].iter().collect::<String>(), "~~~~~");
    assert_eq!(c[9][5], 'o');
    // the castle gate
    assert_eq!(c[10][w.castle_x + w.castle_w / 2], '║');
    // an untouched cell
    assert_eq!(c[0][0], '.');
    assert_eq!(k[0][0], None);
}

#[test]
fn paint_islands_show_waiting_soldiers() {
    let w = WorldState::compute(10, 60, 4, 2, 60, 12, 0);
    let (mut c, mut k) = canvas(60, 12);
    paint(&w, &mut c, &mut k);
    // soldier 2 is on the boat: no one on the first island; 3 and 4 wait
    let first = w.island_xs[0];
    let second = w.island_xs[1];
    assert_eq!(c[9][first], 'Y');
    assert_eq!(c[8][first], '.');
    assert_eq!(c[8][second], 'o');
    assert_eq!(k[10][second], Some(Color::DarkYellow));
}

#[test]
fn paint_abyss_scene() {
    let w = WorldState::compute(130, 60, 3, 3, 40, 12, 0);
    let (mut c, mut k) = canvas(40, 12);
    paint(&w, &mut c, &mut k);
    // the waterfall
    assert_eq!(c[0][37], '║');
    assert_eq!(c[0][36], '~');
    assert_eq!(k[0][37], Some(Color::Cyan));
    // the throne
    assert_eq!(c[11][13..22].iter().collect::<String>(), "█████████");
    assert_eq!(c[9][16], 'o');
    // no sun, no islands
    assert!(!c[2].contains(&'☼'));
}

#[test]
fn paint_on_a_small_canvas_drops_what_falls_off() {
    let w = WorldState::compute(0, 60, 3, 1, 80, 24, 0);
    let (mut c, mut k) = canvas(5, 3);
    paint(&w, &mut c, &mut k);
    assert_eq!(c.len(), 3);
    assert!(c.iter().all(|r| r.len() == 5));
    assert!(k.iter().all(|r| r.len() == 5));
}

#[test]
fn sun_rises_east_and_sets_west() {
    assert_eq!(WorldState::compute(0, 60, 3, 1, 80, 24, 0).sun_x, 76);
    assert_eq!(WorldState::compute(59, 60, 3, 1, 80, 24, 0).sun_x, 76 - 76 * 59 / 60);
    assert_eq!(WorldState::compute(60, 60, 3, 1, 80, 24, 0).sun_x, 0);
}

#[test]
fn big_timer_over_the_scene() {
    let mut c = vec![vec!['.'; 10]; 4];
    let mut k = vec![vec![None; 10]; 4];
    let lines = vec!["ab".to_string(), "c d".to_string()];
    assert_eq!(centre_offset(10, 3), 3);
    assert_eq!(centre_offset(2, 3), 0);
    overlay(&mut c, &mut k, &lines, 1, centre_offset(10, 3), Color::Red);
    assert_eq!(c[1].iter().collect::<String>(), "...ab.....");
    assert_eq!(c[2].iter().collect::<String>(), "...c d....");
    assert_eq!(k[1][3], Some(Color::Red));
    assert_eq!(k[1][5], None);
    assert_eq!(c[0].iter().collect::<String>(), "..........");
    // lines below the canvas or beyond its edge are dropped
    overlay(&mut c, &mut k, &lines, 3, 9, Color::Blue);
    assert_eq!(c[3][9], 'a');
    assert_eq!(c[3].len(), 10);
    assert_eq!(c.len(), 4);
}

#[test]
fn islands_under_the_sun_on_a_low_screen() {
    // 6 rows: the sun's row is the row of the waiting soldiers
    let w = WorldState::compute(14, 36, 3, 1, 40, 6, 0);
    assert_eq!(w.island_xs, vec![14, 22]);
    assert_eq!(w.sun_x, 22);
    let (mut c, mut k) = canvas(40, 6);
    paint(&w, &mut c, &mut k);
    assert_eq!(c[2][22], 'o'); // soldier 3 waits, over the sun
    let w = WorldState::compute(14, 36, 3, 3, 40, 6, 0);
    let (mut c, mut k) = canvas(40, 6);
    paint(&w, &mut c, &mut k);
    assert_eq!(c[2][22], '☼'); // soldier 3 speaks: the sun shows
    assert_ne!(c[2][14], 'o');
}
