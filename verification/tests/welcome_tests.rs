use daily_commando::session::SessionConfig;
use daily_commando::roster::{random_shuffle, shuffle};
use daily_commando::welcome::{next_field, prev_field, Field, FormAction, Key, WelcomeForm};

fn form(n: u32, total: u32, names: &[&str]) -> WelcomeForm {
    let cfg = SessionConfig {
        soldiers: n,
        total_seconds: total,
        names: names.iter().map(|s| s.to_string()).collect(),
    };
    WelcomeForm::new(&cfg)
}

/// Presses a key the way the welcome screen does: roster synced first.
fn press(f: &mut WelcomeForm, key: Key) -> FormAction {
    f.sync();
    f.apply_key(key)
}

#[test]
fn focus_cycles_through_the_form() {
    assert_eq!(next_field(Field::Soldiers, 3), Field::Minutes);
    assert_eq!(next_field(Field::Minutes, 3), Field::Name(0));
    assert_eq!(next_field(Field::Name(1), 3), Field::Name(2));
    assert_eq!(next_field(Field::Name(2), 3), Field::Soldiers);
    assert_eq!(prev_field(Field::Soldiers, 3), Field::Name(2));
    assert_eq!(prev_field(Field::Name(0), 3), Field::Minutes);
    assert_eq!(prev_field(Field::Minutes, 3), Field::Soldiers);
    assert_eq!(prev_field(Field::Soldiers, 0), Field::Name(0));
    for f in [Field::Soldiers, Field::Minutes, Field::Name(0), Field::Name(1), Field::Name(2)] {
        assert_eq!(prev_field(next_field(f, 3), 3), f);
        assert_eq!(next_field(prev_field(f, 3), 3), f);
    }
}

#[test]
fn form_opens_with_the_configuration() {
    let f = form(3, 900, &["Alice"]);
    assert_eq!(f.soldiers_buf(), "3");
    assert_eq!(f.minutes_buf(), "15");
    assert_eq!(f.names(), &["Alice".to_string(), "Soldier 2".to_string(), "Soldier 3".to_string()]);
    assert_eq!(f.field(), Field::Soldiers);
}

#[test]
fn sync_resizes_the_roster() {
    let mut f = form(2, 600, &["Ann", "Ben"]);
    assert_eq!(f.apply_key(Key::Char('4')), FormAction::Continue); // "24" → clamped to 20
    let cfg = f.sync();
    assert_eq!(cfg.soldiers, 20);
    assert_eq!(cfg.total_seconds, 600);
    assert_eq!(cfg.names.len(), 20);
    assert_eq!(cfg.names[0], "Ann");
    assert_eq!(cfg.names[19], "Soldier 20");
    press(&mut f, Key::Backspace);
    press(&mut f, Key::Backspace);
    let cfg = f.sync(); // empty → 1 soldier
    assert_eq!(cfg.soldiers, 1);
    assert_eq!(cfg.names, vec!["Ann".to_string()]);
}

#[test]
fn minutes_at_least_one() {
    let mut f = form(1, 120, &[]);
    f.sync();
    press(&mut f, Key::Tab);
    assert_eq!(f.field(), Field::Minutes);
    press(&mut f, Key::Backspace);
    assert_eq!(f.minutes_buf(), "");
    assert_eq!(f.sync().total_seconds, 60);
    press(&mut f, Key::Char('1'));
    press(&mut f, Key::Char('2'));
    press(&mut f, Key::Char('5'));
    press(&mut f, Key::Char('9')); // three digits at most
    press(&mut f, Key::Char('x')); // digits only
    assert_eq!(f.minutes_buf(), "125");
    assert_eq!(f.sync().total_seconds, 125 * 60);
}

#[test]
fn typing_names() {
    let mut f = form(2, 600, &[]);
    f.sync();
    press(&mut f, Key::Down);
    press(&mut f, Key::Down);
    assert_eq!(f.field(), Field::Name(0));
    for _ in 0..9 {
        press(&mut f, Key::Backspace);
    }
    for c in "Zoë\u{7}".chars() {
        press(&mut f, Key::Char(c)); // control characters are ignored
    }
    assert_eq!(f.names()[0], "Zoë");
    for _ in 0..30 {
        press(&mut f, Key::Char('a'));
    }
    // at most 24 bytes: "Zoë" is 4 bytes, so 20 more fit
    assert_eq!(f.names()[0].len(), 24);
}

#[test]
fn keys_that_end_the_form() {
    let mut f = form(2, 600, &[]);
    f.sync();
    assert_eq!(press(&mut f, Key::Esc), FormAction::Abort);
    assert_eq!(press(&mut f, Key::Char('q')), FormAction::Abort);
    assert_eq!(press(&mut f, Key::F(2)), FormAction::Commence);
    assert_eq!(press(&mut f, Key::Enter), FormAction::Continue);
    assert_eq!(f.field(), Field::Minutes);
    press(&mut f, Key::Enter);
    assert_eq!(press(&mut f, Key::Enter), FormAction::Continue);
    assert_eq!(f.field(), Field::Name(1));
    assert_eq!(press(&mut f, Key::Enter), FormAction::Commence);
    assert_eq!(press(&mut f, Key::BackTab), FormAction::Continue);
    assert_eq!(f.field(), Field::Name(0));
    assert_eq!(press(&mut f, Key::Up), FormAction::Continue);
    assert_eq!(f.field(), Field::Minutes);
}

fn names(f: &WelcomeForm) -> Vec<String> {
    f.names().to_vec()
}

#[test]
fn alt_arrows_move_the_focused_soldier() {
    let mut f = form(2, 900, &["A", "B"]);
    press(&mut f, Key::Tab);
    press(&mut f, Key::Tab);
    assert_eq!(f.field(), Field::Name(0));
    assert_eq!(press(&mut f, Key::AltDown), FormAction::Continue);
    assert_eq!(names(&f), vec!["B", "A"]);
    assert_eq!(f.field(), Field::Name(1)); // the focus follows the soldier
    assert_eq!(f.order(), &[1, 0]);
    press(&mut f, Key::AltDown); // already last: nothing moves
    assert_eq!(names(&f), vec!["B", "A"]);
    press(&mut f, Key::AltUp);
    assert_eq!(names(&f), vec!["A", "B"]);
    assert_eq!(f.field(), Field::Name(0));
    press(&mut f, Key::AltUp); // already first
    assert_eq!(names(&f), vec!["A", "B"]);
    assert_eq!(press(&mut f, Key::F(2)), FormAction::Commence);
    let cfg = f.sync();
    assert_eq!(cfg.names, vec!["A", "B"]);
}

#[test]
fn reset_restores_the_typed_order() {
    let mut f = form(3, 900, &["A", "B", "C"]);
    press(&mut f, Key::Tab);
    press(&mut f, Key::Tab);
    press(&mut f, Key::AltDown); // B A C
    press(&mut f, Key::AltDown); // B C A
    assert_eq!(names(&f), vec!["B", "C", "A"]);
    // on a name, `r` is typed into the name
    press(&mut f, Key::Char('r'));
    assert_eq!(names(&f), vec!["B", "C", "Ar"]);
    press(&mut f, Key::F(6));
    assert_eq!(names(&f), vec!["Ar", "B", "C"]);
    assert_eq!(f.order(), &[0, 1, 2]);
    // outside the roster, `r` resets too
    assert_eq!(f.field(), Field::Name(2));
    press(&mut f, Key::AltUp); // Ar C B
    assert_eq!(names(&f), vec!["Ar", "C", "B"]);
    assert_eq!(f.field(), Field::Name(1));
    press(&mut f, Key::Tab);
    press(&mut f, Key::Tab); // soldiers field
    assert_eq!(f.field(), Field::Soldiers);
    press(&mut f, Key::Char('r'));
    assert_eq!(names(&f), vec!["Ar", "B", "C"]);
}

#[test]
fn shuffle_draws_a_permutation() {
    let mut f = form(4, 900, &["A", "B", "C", "D"]);
    f.sync();
    assert_eq!(press(&mut f, Key::F(5)), FormAction::Shuffle);
    assert_eq!(press(&mut f, Key::Char('s')), FormAction::Shuffle);
    // draws: step 1 swaps 1 with 1 % 2 = 1, step 2 swaps 2 with 5 % 3 = 2,
    // step 3 swaps 3 with 4 % 4 = 0
    let p = shuffle(4, &[9, 1, 5, 4]);
    assert_eq!(p, vec![3, 1, 2, 0]);
    f.shuffle(&p);
    assert_eq!(names(&f), vec!["D", "B", "C", "A"]);
    assert_eq!(f.order(), &[3, 1, 2, 0]);
    press(&mut f, Key::F(6));
    assert_eq!(names(&f), vec!["A", "B", "C", "D"]);
    let q = shuffle(4, &[0, 0, 0, 0]);
    assert_eq!(q, vec![3, 0, 1, 2]);
    let mut sorted = q.clone();
    sorted.sort();
    assert_eq!(sorted, vec![0, 1, 2, 3]);
}

#[test]
fn resizing_the_roster_keeps_the_typed_order() {
    let mut f = form(2, 900, &["A", "B"]);
    press(&mut f, Key::Tab);
    press(&mut f, Key::Tab);
    press(&mut f, Key::AltDown); // B A
    press(&mut f, Key::BackTab);
    press(&mut f, Key::BackTab);
    press(&mut f, Key::BackTab); // soldiers
    assert_eq!(f.field(), Field::Soldiers);
    press(&mut f, Key::Char('0')); // 20 soldiers
    f.sync();
    assert_eq!(f.names().len(), 20);
    assert_eq!(names(&f)[..3].to_vec(), vec!["B", "A", "Soldier 3"]);
    assert_eq!(f.order()[..3].to_vec(), vec![1, 0, 2]);
    assert_eq!(f.order()[19], 19);
    press(&mut f, Key::Backspace); // back to 2
    f.sync();
    assert_eq!(names(&f), vec!["B", "A"]);
    assert_eq!(f.order(), &[1, 0]); // A was typed first, B second
    press(&mut f, Key::F(6));
    assert_eq!(names(&f), vec!["A", "B"]);
}

#[test]
fn shrinking_after_a_shuffle_keeps_the_typed_places() {
    let mut f = form(20, 900, &["A", "B"]);
    f.sync();
    let mut p: Vec<usize> = vec![4, 1, 0, 2, 3];
    p.extend(5..20);
    f.shuffle(&p); // Soldier 5, B, A, Soldier 3, Soldier 4, ...
    assert_eq!(names(&f)[..3].to_vec(), vec!["Soldier 5", "B", "A"]);
    press(&mut f, Key::Backspace); // the soldiers field now reads 2
    f.sync();
    assert_eq!(names(&f), vec!["Soldier 5", "B"]);
    assert_eq!(f.order(), &[1, 0]); // B was typed before Soldier 5
    press(&mut f, Key::F(6));
    assert_eq!(names(&f), vec!["B", "Soldier 5"]);
}

#[test]
fn random_shuffle_lists_everyone_once() {
    for n in 0..8 {
        let mut p = random_shuffle(n);
        p.sort();
        assert_eq!(p, (0..n).collect::<Vec<usize>>());
    }
}
