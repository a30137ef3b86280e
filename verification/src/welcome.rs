//! The welcome (briefing) form: the number of soldiers, the length of the
//! daily and the roster, edited key by key before the daily commences.

use vstd::prelude::*;
use vstd::utf8::is_ascii_chars;
use crate::session::{SessionConfig, default_name};
use crate::session::soldier_prefix;
use crate::roster::{
    identity, identity_order, is_permutation, lemma_permuted_permutation, lemma_permutation_onto,
    lemma_swap_keeps_permutation, permute_indices, permute_strings, permuted, rank_order, ranks, swapped, texts,
    unpermute_strings, unpermuted,
};
use crate::text::{
    all_digits, byte_len, decimal, decimal_string, digits_value, is_ascii_digit, is_control,
    is_digit_char, parse_u32, pop_char, push_char, push_decimal, spec_is_control, spec_parse_u32,
    lemma_byte_len_at_least_chars, lemma_byte_len_ascii, lemma_byte_len_drop_last,
    lemma_byte_len_push, lemma_decimal_value, lemma_digits_bound, lemma_u32_decimal_shape, pow10,
};

verus! {

/// A key press, as the screens read it.
#[derive(Clone, Copy, Debug, PartialEq, Eq, Structural)]
pub enum Key {
    Char(char),
    Enter,
    Esc,
    Tab,
    BackTab,
    Up,
    Down,
    /// Alt+↑: move the focused soldier up the speaking order.
    AltUp,
    /// Alt+↓: move the focused soldier down the speaking order.
    AltDown,
    Left,
    Right,
    Backspace,
    F(u8),
    Other,
}

/// The field of the form that has the focus.
#[derive(Clone, Copy, Debug, PartialEq, Eq, Structural)]
pub enum Field {
    Soldiers,
    Minutes,
    Name(usize),
}

/// What a key press on the form asks for.
#[derive(Clone, Copy, Debug, PartialEq, Eq, Structural)]
pub enum FormAction {
    /// Keep editing.
    Continue,
    /// Start the daily now.
    Commence,
    /// Give up the daily.
    Abort,
    /// Shuffle the speaking order: draw a permutation and pass it to
    /// `WelcomeForm::shuffle`.
    Shuffle,
}

/// The field after `f`, with `n` names on the roster: soldiers, minutes,
/// the names in order, then back to soldiers.
pub open spec fn spec_next_field(f: Field, n: usize) -> Field {
    match f {
        Field::Soldiers => Field::Minutes,
        Field::Minutes => Field::Name(0),
        Field::Name(i) => if i + 1 < n { Field::Name((i + 1) as usize) } else { Field::Soldiers },
    }
}

/// The field before `f`, with `n` names on the roster.
pub open spec fn spec_prev_field(f: Field, n: usize) -> Field {
    match f {
        Field::Soldiers => Field::Name(if n >= 1 { (n - 1) as usize } else { 0 }),
        Field::Minutes => Field::Soldiers,
        Field::Name(i) => if i == 0 { Field::Minutes } else { Field::Name((i - 1) as usize) },
    }
}

#[verifier::when_used_as_spec(spec_next_field)]
pub fn next_field(f: Field, n: usize) -> (r: Field)
    ensures
        r == spec_next_field(f, n),
{
    match f {
        Field::Soldiers => Field::Minutes,
        Field::Minutes => Field::Name(0),
        Field::Name(i) => if n > 0 && i < n - 1 { Field::Name(i + 1) } else { Field::Soldiers },
    }
}

#[verifier::when_used_as_spec(spec_prev_field)]
pub fn prev_field(f: Field, n: usize) -> (r: Field)
    ensures
        r == spec_prev_field(f, n),
{
    match f {
        Field::Soldiers => Field::Name(n.saturating_sub(1)),
        Field::Minutes => Field::Soldiers,
        Field::Name(i) => if i == 0 { Field::Minutes } else { Field::Name(i - 1) },
    }
}

/// A field that exists on a roster of `n` names.
pub open spec fn field_exists(f: Field, n: usize) -> bool {
    match f {
        Field::Name(i) => i < n,
        _ => true,
    }
}

/// Moving the focus forward then back, or back then forward, returns to the
/// same field.
pub proof fn law_focus_moves_are_inverse(f: Field, n: usize)
    requires
        n >= 1,
        field_exists(f, n),
    ensures
        spec_prev_field(spec_next_field(f, n), n) == f,
        spec_next_field(spec_prev_field(f, n), n) == f,
        field_exists(spec_next_field(f, n), n),
        field_exists(spec_prev_field(f, n), n),
{
}

/// The number of soldiers the form asks for: the typed number, 0 when it
/// does not parse, brought into 1..=20.
pub open spec fn target_soldiers(buf: Seq<char>) -> u32 {
    let v = match spec_parse_u32(buf) {
        Some(v) => v,
        None => 0u32,
    };
    if v < 1 { 1 } else if v > 20 { 20 } else { v }
}

/// The minutes the form asks for: the typed number, at least 1.
pub open spec fn target_minutes(buf: Seq<char>) -> u32 {
    let v = match spec_parse_u32(buf) {
        Some(v) => v,
        None => 0u32,
    };
    if v < 1 { 1 } else { v }
}

/// The roster resized to `n` names: names beyond `n` dropped, missing ones
/// given their default name.
pub open spec fn resized_roster(names: Seq<Seq<char>>, n: nat) -> Seq<Seq<char>> {
    Seq::new(n, |i: int| if i < names.len() { names[i] } else { default_name(i as nat + 1) })
}

/// The speaking order resized to `n` names: new soldiers join at the end
/// of both orders; when the roster shrinks, the names that stay keep their
/// places in the order as typed, renumbered from 0.
pub open spec fn resized_order(order: Seq<usize>, n: nat) -> Seq<usize> {
    if n == order.len() {
        order
    } else if n > order.len() {
        Seq::new(n, |i: int| if i < order.len() { order[i] } else { i as usize })
    } else {
        ranks(order, n)
    }
}

/// The abstract state of the form.
#[verifier::ext_equal]
pub struct FormModel {
    pub soldiers_buf: Seq<char>,
    pub minutes_buf: Seq<char>,
    /// The roster in speaking order.
    pub names: Seq<Seq<char>>,
    /// For each name shown, its place in the order as typed.
    pub order: Seq<usize>,
    pub field: Field,
}

impl FormModel {
    /// The minutes field holds only digits and its value, counted in
    /// seconds, fits in a `u32`; a focused name exists on a roster that
    /// matches the soldiers field.
    pub open spec fn wf(self) -> bool {
        &&& all_digits(self.soldiers_buf)
        &&& self.soldiers_buf.len() <= 10
        &&& all_digits(self.minutes_buf)
        &&& self.minutes_buf.len() <= 10
        &&& digits_value(self.minutes_buf) * 60 <= u32::MAX
        &&& forall|i: int| 0 <= i < self.names.len() ==> byte_len(#[trigger] self.names[i]) <= usize::MAX
        &&& is_permutation(self.order, self.names.len())
        &&& (self.field is Name ==> self.synced() && (self.field->0 as int) < self.names.len())
    }

    /// The roster has as many names as the soldiers field asks for.
    pub open spec fn synced(self) -> bool {
        self.names.len() == target_soldiers(self.soldiers_buf)
    }

    /// The form after syncing the roster to the soldiers field.
    pub open spec fn resynced(self) -> FormModel {
        FormModel {
            names: resized_roster(self.names, target_soldiers(self.soldiers_buf) as nat),
            order: resized_order(self.order, target_soldiers(self.soldiers_buf) as nat),
            ..self
        }
    }

    /// The form with the roster back in the order it was typed in.
    pub open spec fn reset(self) -> FormModel {
        FormModel { names: unpermuted(self.names, self.order), order: identity(self.names.len()), ..self }
    }

    /// The form with the names at `i` and `j` exchanged and the focus on `j`.
    pub open spec fn moved(self, i: int, j: int) -> FormModel {
        FormModel {
            names: swapped(self.names, i, j),
            order: swapped(self.order, i, j),
            field: Field::Name(j as usize),
            ..self
        }
    }

    /// The form with the roster rearranged by the permutation `p`.
    pub open spec fn rearranged(self, p: Seq<usize>) -> FormModel {
        FormModel { names: permuted(self.names, p), order: permuted(self.order, p), ..self }
    }

    /// The form after a key, and what the key asks for. Outside the name
    /// fields, `s` shuffles and `r` resets the speaking order.
    pub open spec fn after_key(self, key: Key) -> (FormModel, FormAction) {
        let n = self.names.len() as usize;
        match key {
            Key::Esc => (self, FormAction::Abort),
            Key::Char('q') => (self, FormAction::Abort),
            Key::Tab | Key::Down => (FormModel { field: spec_next_field(self.field, n), ..self }, FormAction::Continue),
            Key::BackTab | Key::Up => (FormModel { field: spec_prev_field(self.field, n), ..self }, FormAction::Continue),
            Key::Enter => {
                if self.field is Name && self.field->0 + 1 == n {
                    (self, FormAction::Commence)
                } else {
                    (FormModel { field: spec_next_field(self.field, n), ..self }, FormAction::Continue)
                }
            },
            Key::F(2) => (self, FormAction::Commence),
            Key::F(5) => (self, FormAction::Shuffle),
            Key::F(6) => (self.reset(), FormAction::Continue),
            Key::AltDown => match self.field {
                Field::Name(i) => if i + 1 < n { (self.moved(i as int, i + 1), FormAction::Continue) } else { (self, FormAction::Continue) },
                _ => (self, FormAction::Continue),
            },
            Key::AltUp => match self.field {
                Field::Name(i) => if i > 0 { (self.moved(i as int, i - 1), FormAction::Continue) } else { (self, FormAction::Continue) },
                _ => (self, FormAction::Continue),
            },
            Key::Char('s') if !(self.field is Name) => (self, FormAction::Shuffle),
            Key::Char('r') if !(self.field is Name) => (self.reset(), FormAction::Continue),
            Key::Backspace => {
                let m = match self.field {
                    Field::Soldiers => FormModel { soldiers_buf: drop_last_char(self.soldiers_buf), ..self },
                    Field::Minutes => FormModel { minutes_buf: drop_last_char(self.minutes_buf), ..self },
                    Field::Name(i) => FormModel {
                        names: self.names.update(i as int, drop_last_char(self.names[i as int])),
                        ..self
                    },
                };
                (m, FormAction::Continue)
            },
            Key::Char(c) => {
                let m = match self.field {
                    Field::Soldiers => if is_ascii_digit(c) && byte_len(self.soldiers_buf) < 2 {
                        FormModel { soldiers_buf: self.soldiers_buf.push(c), ..self }
                    } else {
                        self
                    },
                    Field::Minutes => if is_ascii_digit(c) && byte_len(self.minutes_buf) < 3 {
                        FormModel { minutes_buf: self.minutes_buf.push(c), ..self }
                    } else {
                        self
                    },
                    Field::Name(i) => if !spec_is_control(c) && byte_len(self.names[i as int]) < 24 {
                        FormModel { names: self.names.update(i as int, self.names[i as int].push(c)), ..self }
                    } else {
                        self
                    },
                };
                (m, FormAction::Continue)
            },
            _ => (self, FormAction::Continue),
        }
    }
}

/// A text without its last character (unchanged when empty).
pub open spec fn drop_last_char(cs: Seq<char>) -> Seq<char> {
    if cs.len() == 0 { cs } else { cs.drop_last() }
}

/// The state of the welcome form.
pub struct WelcomeForm {
    soldiers_buf: String,
    minutes_buf: String,
    names: Vec<String>,
    order: Vec<usize>,
    field: Field,
}

impl View for WelcomeForm {
    type V = FormModel;

    closed spec fn view(&self) -> FormModel {
        FormModel {
            soldiers_buf: self.soldiers_buf@,
            minutes_buf: self.minutes_buf@,
            names: texts(self.names@),
            order: self.order@,
            field: self.field,
        }
    }
}

/// Dropping the last digit does not make the value larger.
proof fn lemma_drop_digit_smaller(cs: Seq<char>)
    requires
        all_digits(cs),
    ensures
        all_digits(drop_last_char(cs)),
        digits_value(drop_last_char(cs)) <= digits_value(cs),
        drop_last_char(cs).len() <= cs.len(),
{
    if cs.len() > 0 {
        let rest = cs.drop_last();
        assert forall|i: int| 0 <= i < rest.len() implies is_ascii_digit(#[trigger] rest[i]) by {
            assert(rest[i] == cs[i]);
        }
        assert(is_ascii_digit(cs[cs.len() - 1]));
    }
}

/// The number of a buffer, 0 when it does not parse.
fn parse_or_zero(s: &String) -> (r: u32)
    ensures
        r == match spec_parse_u32(s@) {
            Some(v) => v,
            None => 0u32,
        },
{
    match parse_u32(s.as_str()) {
        Some(v) => v,
        None => 0,
    }
}

impl WelcomeForm {
    /// The form as it opens for `cfg`: its numbers, in minutes, and a roster
    /// with one name per soldier (typed names first, defaults after).
    pub fn new(cfg: &SessionConfig) -> (f: Self)
        requires
            cfg.soldiers as int <= usize::MAX,
            forall|i: int| 0 <= i < cfg.names@.len() ==> byte_len(#[trigger] cfg.names@[i]@) <= usize::MAX,
        ensures
            f@.wf(),
            f@.soldiers_buf == decimal(cfg.soldiers as nat),
            f@.minutes_buf == decimal((cfg.total_seconds / 60) as nat),
            f@.names =~= Seq::new(cfg.soldiers as nat, |i: int| cfg.spec_name_of(i as u32)),
            f@.order == identity(cfg.soldiers as nat),
            f@.field == Field::Soldiers,
    {
        let soldiers_buf = decimal_string(cfg.soldiers);
        let minutes = cfg.total_seconds / 60;
        let minutes_buf = decimal_string(minutes);
        let mut names: Vec<String> = Vec::new();
        let mut i: u32 = 0;
        while i < cfg.soldiers
            invariant
                i <= cfg.soldiers,
                names@.len() == i,
                forall|j: int| 0 <= j < i ==> (#[trigger] names@[j])@ == cfg.spec_name_of(j as u32),
                forall|j: int| 0 <= j < i ==> byte_len((#[trigger] names@[j])@) <= usize::MAX,
                forall|j: int| 0 <= j < cfg.names@.len() ==> byte_len(#[trigger] cfg.names@[j]@) <= usize::MAX,
            decreases cfg.soldiers - i,
        {
            proof {
                lemma_default_name_short((i + 1) as u32);
            }
            names.push(cfg.name_of(i));
            i = i + 1;
        }
        proof {
            lemma_u32_decimal_shape(cfg.soldiers);
            lemma_u32_decimal_shape(minutes);
            lemma_decimal_value(minutes as nat);
        }
        let order = identity_order(cfg.soldiers as usize);
        let f = WelcomeForm { soldiers_buf, minutes_buf, names, order, field: Field::Soldiers };
        assert(f@.names =~= Seq::new(cfg.soldiers as nat, |i: int| cfg.spec_name_of(i as u32)));
        f
    }

    pub fn soldiers_buf(&self) -> (r: &str)
        ensures
            r@ == self@.soldiers_buf,
    {
        self.soldiers_buf.as_str()
    }

    pub fn minutes_buf(&self) -> (r: &str)
        ensures
            r@ == self@.minutes_buf,
    {
        self.minutes_buf.as_str()
    }

    pub fn names(&self) -> (r: &[String])
        ensures
            texts(r@) == self@.names,
    {
        self.names.as_slice()
    }

    pub fn field(&self) -> (r: Field)
        ensures
            r == self@.field,
    {
        self.field
    }

    /// Brings the roster to the number of soldiers asked for and returns
    /// the configuration the form describes.
    pub fn sync(&mut self) -> (cfg: SessionConfig)
        requires
            old(self)@.wf(),
        ensures
            final(self)@ == old(self)@.resynced(),
            final(self)@.wf(),
            final(self)@.synced(),
            cfg.soldiers == target_soldiers(old(self)@.soldiers_buf),
            cfg.total_seconds == target_minutes(old(self)@.minutes_buf) * 60,
            cfg.name_seqs() == final(self)@.names,
    {
        let v = parse_or_zero(&self.soldiers_buf);
        let n: u32 = if v < 1 { 1 } else if v > 20 { 20 } else { v };
        let ghost names0 = self@.names;
        let len0 = self.names.len();
        assert forall|j: int| 0 <= j < len0 implies byte_len((#[trigger] self.names@[j])@) <= usize::MAX by {
            assert(self.names@[j]@ == names0[j]);
        }
        if len0 < n as usize {
            let mut i: usize = len0;
            while i < n as usize
                invariant
                    len0 <= i <= n,
                    n <= 20,
                    self.names@.len() == i,
                    forall|j: int| 0 <= j < i ==> (#[trigger] self.names@[j])@ == (if j < names0.len() { names0[j] } else { default_name(j as nat + 1) }),
                    self.soldiers_buf == old(self).soldiers_buf,
                    self.minutes_buf == old(self).minutes_buf,
                    self.field == old(self).field,
                    self.order == old(self).order,
                    names0 == old(self)@.names,
                    len0 == names0.len(),
                    forall|j: int| 0 <= j < names0.len() ==> byte_len(#[trigger] names0[j]) <= usize::MAX,
                    forall|j: int| 0 <= j < i ==> byte_len((#[trigger] self.names@[j])@) <= usize::MAX,
                decreases n - i,
            {
                proof {
                    lemma_default_name_short((i + 1) as u32);
                }
                let mut s = String::from_str("Soldier ");
                proof {
                    reveal_strlit("Soldier ");
                }
                assert(s@ =~= soldier_prefix());
                push_decimal(&mut s, (i + 1) as u32);
                self.names.push(s);
                i = i + 1;
            }
        }
        self.names.truncate(n as usize);
        self.resize_order(n as usize);
        let m = parse_or_zero(&self.minutes_buf);
        let mins: u32 = if m < 1 { 1 } else { m };
        proof {
            if spec_parse_u32(self@.minutes_buf) is Some {
                lemma_parse_digits(self@.minutes_buf);
            }
        }
        let mut copy: Vec<String> = Vec::new();
        let mut k: usize = 0;
        while k < self.names.len()
            invariant
                k <= self.names@.len(),
                copy@.len() == k,
                forall|j: int| 0 <= j < k ==> (#[trigger] copy@[j])@ == self.names@[j]@,
            decreases self.names@.len() - k,
        {
            copy.push(self.names[k].clone());
            k = k + 1;
        }
        assert(self@.names =~= resized_roster(names0, n as nat));
        assert forall|j: int| 0 <= j < self@.names.len() implies byte_len(#[trigger] self@.names[j]) <= usize::MAX by {
            if j >= names0.len() {
                lemma_default_name_short((j + 1) as u32);
            }
        }
        let cfg = SessionConfig { soldiers: n, total_seconds: mins * 60, names: copy };
        assert(cfg.name_seqs() =~= self@.names);
        cfg
    }

    /// Resizes the speaking order to `n` entries.
    fn resize_order(&mut self, n: usize)
        requires
            is_permutation(old(self).order@, old(self).order@.len()),
        ensures
            final(self).order@ == resized_order(old(self).order@, n as nat),
            is_permutation(final(self).order@, n as nat),
            final(self).names == old(self).names,
            final(self).soldiers_buf == old(self).soldiers_buf,
            final(self).minutes_buf == old(self).minutes_buf,
            final(self).field == old(self).field,
    {
        let len0 = self.order.len();
        if n < len0 {
            self.order = rank_order(&self.order, n);
        } else if n > len0 {
            let ghost o0 = self.order@;
            let mut i = len0;
            while i < n
                invariant
                    len0 <= i <= n,
                    len0 == o0.len(),
                    is_permutation(o0, len0 as nat),
                    self.order@ =~= Seq::new(i as nat, |k: int| if k < len0 { o0[k] } else { k as usize }),
                    self.names == old(self).names,
                    self.soldiers_buf == old(self).soldiers_buf,
                    self.minutes_buf == old(self).minutes_buf,
                    self.field == old(self).field,
                    o0 == old(self).order@,
                decreases n - i,
            {
                self.order.push(i);
                i = i + 1;
            }
            let ghost o = self.order@;
            assert forall|a: int, b: int| 0 <= a < n && 0 <= b < n && a != b implies #[trigger] o[a] != #[trigger] o[b] by {
                if a < len0 && b < len0 {
                    assert(o0[a] != o0[b]);
                } else if a < len0 {
                    assert(o0[a] < len0);
                } else if b < len0 {
                    assert(o0[b] < len0);
                }
            }
            assert forall|a: int| 0 <= a < n implies (#[trigger] o[a]) < n by {
                if a < len0 {
                    assert(o0[a] < len0);
                }
            }
        }
    }

    /// Exchanges the names at `i` and `j`, with their places in the order
    /// as typed.
    fn swap_names(&mut self, i: usize, j: usize)
        requires
            old(self)@.wf(),
            i < old(self).names@.len(),
            j < old(self).names@.len(),
        ensures
            final(self)@ == (FormModel {
                names: swapped(old(self)@.names, i as int, j as int),
                order: swapped(old(self)@.order, i as int, j as int),
                ..old(self)@
            }),
    {
        let ghost m0 = self@;
        let a = self.names[i].clone();
        let b = self.names[j].clone();
        self.names.set(i, b);
        self.names.set(j, a);
        let oa = self.order[i];
        let ob = self.order[j];
        self.order.set(i, ob);
        self.order.set(j, oa);
        assert(self@.names =~= swapped(m0.names, i as int, j as int));
        assert(self@.order =~= swapped(m0.order, i as int, j as int));
    }

    /// Puts the roster back in the order it was typed in.
    fn reset_order(&mut self)
        requires
            old(self)@.wf(),
        ensures
            final(self)@ == old(self)@.reset(),
            final(self)@.wf(),
    {
        let ghost m0 = self@;
        let n = self.names.len();
        self.names = unpermute_strings(&self.names, &self.order);
        self.order = identity_order(n);
        assert(self@.names =~= unpermuted(m0.names, m0.order));
        assert forall|j: int| 0 <= j < self@.names.len() implies byte_len(#[trigger] self@.names[j]) <= usize::MAX by {
            lemma_permutation_onto(m0.order, n as nat, j);
        }
        assert(is_permutation(identity(n as nat), n as nat));
    }

    /// Rearranges the roster by the permutation `p` (from `roster::shuffle`
    /// when the form asks for a shuffle).
    pub fn shuffle(&mut self, p: &[usize])
        requires
            old(self)@.wf(),
            is_permutation(p@, old(self)@.names.len()),
        ensures
            final(self)@ == old(self)@.rearranged(p@),
            final(self)@.wf(),
    {
        let ghost m0 = self@;
        self.names = permute_strings(&self.names, p);
        self.order = permute_indices(&self.order, p);
        proof {
            lemma_permuted_permutation(m0.order, p@, m0.names.len());
        }
        assert forall|j: int| 0 <= j < self@.names.len() implies byte_len(#[trigger] self@.names[j]) <= usize::MAX by {
            assert(self@.names[j] == m0.names[p@[j] as int]);
        }
        assert(self@ =~= m0.rearranged(p@));
    }

    /// The place in the order as typed of each name shown.
    pub fn order(&self) -> (r: &[usize])
        ensures
            r@ == self@.order,
    {
        self.order.as_slice()
    }

    /// Applies one key press (the roster must be in sync, as `sync` leaves
    /// it).
    pub fn apply_key(&mut self, key: Key) -> (action: FormAction)
        requires
            old(self)@.wf(),
            old(self)@.synced(),
        ensures
            final(self)@.wf(),
            final(self)@ == old(self)@.after_key(key).0,
            action == old(self)@.after_key(key).1,
    {
        let n = self.names.len();
        let ghost m0 = self@;
        match key {
            Key::Esc => FormAction::Abort,
            Key::Char('q') => FormAction::Abort,
            Key::Tab | Key::Down => {
                self.field = next_field(self.field, n);
                FormAction::Continue
            },
            Key::BackTab | Key::Up => {
                self.field = prev_field(self.field, n);
                FormAction::Continue
            },
            Key::Enter => {
                if let Field::Name(i) = self.field {
                    if i + 1 == n {
                        return FormAction::Commence;
                    }
                }
                self.field = next_field(self.field, n);
                FormAction::Continue
            },
            Key::F(2) => FormAction::Commence,
            Key::F(5) => FormAction::Shuffle,
            Key::F(6) => {
                self.reset_order();
                FormAction::Continue
            },
            Key::AltDown => {
                if let Field::Name(i) = self.field {
                    if i + 1 < n {
                        proof {
                            lemma_swap_keeps_permutation(m0.order, n as nat, i as int, i + 1);
                        }
                        self.swap_names(i, i + 1);
                        self.field = Field::Name(i + 1);
                    }
                }
                FormAction::Continue
            },
            Key::AltUp => {
                if let Field::Name(i) = self.field {
                    if i > 0 {
                        proof {
                            lemma_swap_keeps_permutation(m0.order, n as nat, i as int, i - 1);
                        }
                        self.swap_names(i, i - 1);
                        self.field = Field::Name(i - 1);
                    }
                }
                FormAction::Continue
            },
            Key::Char('s') if !matches!(self.field, Field::Name(_)) => FormAction::Shuffle,
            Key::Char('r') if !matches!(self.field, Field::Name(_)) => {
                self.reset_order();
                FormAction::Continue
            },
            Key::Backspace => {
                match self.field {
                    Field::Soldiers => {
                        proof {
                            lemma_drop_digit_smaller(self@.soldiers_buf);
                        }
                        let _ = pop_char(&mut self.soldiers_buf);
                    },
                    Field::Minutes => {
                        proof {
                            lemma_drop_digit_smaller(self@.minutes_buf);
                        }
                        let _ = pop_char(&mut self.minutes_buf);
                    },
                    Field::Name(i) => {
                        proof {
                            if m0.names[i as int].len() > 0 {
                                lemma_byte_len_drop_last(m0.names[i as int]);
                            }
                        }
                        let _ = pop_char(&mut self.names[i]);
                        assert(self@.names =~= m0.names.update(i as int, drop_last_char(m0.names[i as int])));
                    },
                }
                FormAction::Continue
            },
            Key::Char(c) => {
                match self.field {
                    Field::Soldiers => {
                        proof {
                            lemma_u32_ascii_digits_len(self@.soldiers_buf);
                        }
                        if is_digit_char(c) && self.soldiers_buf.as_str().len() < 2 {
                            proof {
                                lemma_push_digit(self@.soldiers_buf, c);
                            }
                            push_char(&mut self.soldiers_buf, c);
                        }
                    },
                    Field::Minutes => {
                        proof {
                            lemma_u32_ascii_digits_len(self@.minutes_buf);
                        }
                        if is_digit_char(c) && self.minutes_buf.as_str().len() < 3 {
                            proof {
                                let cs = self@.minutes_buf.push(c);
                                lemma_push_digit(self@.minutes_buf, c);
                                lemma_digits_bound(cs);
                                reveal_with_fuel(pow10, 4);
                            }
                            push_char(&mut self.minutes_buf, c);
                        }
                    },
                    Field::Name(i) => {
                        if !is_control(c) && self.names[i].as_str().len() < 24 {
                            proof {
                                lemma_byte_len_push(m0.names[i as int], c);
                            }
                            push_char(&mut self.names[i], c);
                            assert(self@.names =~= m0.names.update(i as int, m0.names[i as int].push(c)));
                        }
                    },
                }
                FormAction::Continue
            },
            _ => FormAction::Continue,
        }
    }
}

/// A parsed string of digits yields its value.
proof fn lemma_parse_digits(cs: Seq<char>)
    requires
        all_digits(cs),
        spec_parse_u32(cs) is Some,
    ensures
        spec_parse_u32(cs) == Some(digits_value(cs) as u32),
{
    if cs.len() > 0 {
        assert(is_ascii_digit(cs[0]));
    }
}

/// A digit string takes one byte per digit.
proof fn lemma_u32_ascii_digits_len(cs: Seq<char>)
    requires
        all_digits(cs),
    ensures
        byte_len(cs) == cs.len(),
{
    assert(is_ascii_chars(cs)) by {
        assert forall|i: int| 0 <= i < cs.len() implies '\0' <= #[trigger] cs[i] <= '\u{7f}' by {
            assert(is_ascii_digit(cs[i]));
        }
    }
    lemma_byte_len_ascii(cs);
}

/// Appending a digit to a digit string keeps it a digit string.
proof fn lemma_push_digit(cs: Seq<char>, c: char)
    requires
        all_digits(cs),
        is_ascii_digit(c),
    ensures
        all_digits(cs.push(c)),
{
    let d = cs.push(c);
    assert forall|i: int| 0 <= i < d.len() implies is_ascii_digit(#[trigger] d[i]) by {
        if i < cs.len() {
            assert(d[i] == cs[i]);
        }
    }
}

/// A default name is short and ASCII.
proof fn lemma_default_name_short(k: u32)
    ensures
        byte_len(default_name(k as nat)) <= 18,
{
    lemma_u32_decimal_shape(k);
    let name = default_name(k as nat);
    let digits = decimal(k as nat);
    assert(is_ascii_chars(name)) by {
        assert forall|i: int| 0 <= i < name.len() implies '\0' <= #[trigger] name[i] <= '\u{7f}' by {
            if i < 8 {
                assert(name[i] == soldier_prefix()[i]);
            } else {
                assert(name[i] == digits[i - 8]);
            }
        }
    }
    lemma_byte_len_ascii(name);
}

/// The form asks for 1 to 20 soldiers and at least one minute: a typed
/// number in range is taken as it is, anything else is brought to the
/// nearest bound (a field that does not parse counts as 0).
pub proof fn law_form_targets(soldiers: Seq<char>, minutes: Seq<char>)
    ensures
        1 <= target_soldiers(soldiers) <= 20,
        forall|v: u32| spec_parse_u32(soldiers) == Some(v) && 1 <= v && v <= 20 ==> target_soldiers(soldiers) == v,
        forall|v: u32| spec_parse_u32(soldiers) == Some(v) && v > 20 ==> target_soldiers(soldiers) == 20,
        spec_parse_u32(soldiers) is None ==> target_soldiers(soldiers) == 1,
        target_minutes(minutes) >= 1,
        forall|v: u32| spec_parse_u32(minutes) == Some(v) && v >= 1 ==> target_minutes(minutes) == v,
        spec_parse_u32(minutes) is None ==> target_minutes(minutes) == 1,
{
}

} // verus!
