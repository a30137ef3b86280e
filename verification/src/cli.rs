//! The configuration a command line asks for: the number of soldiers, the
//! length of the daily and the comma-separated roster.

use vstd::prelude::*;
use crate::session::SessionConfig;
use crate::text::push_char;

verus! {

/// Unicode `White_Space` (what `char::is_whitespace` answers).
pub open spec fn spec_is_whitespace(c: char) -> bool {
    ||| '\u{9}' <= c && c <= '\u{d}'
    ||| c == ' '
    ||| c == '\u{85}'
    ||| c == '\u{a0}'
    ||| c == '\u{1680}'
    ||| '\u{2000}' <= c && c <= '\u{200a}'
    ||| c == '\u{2028}'
    ||| c == '\u{2029}'
    ||| c == '\u{202f}'
    ||| c == '\u{205f}'
    ||| c == '\u{3000}'
}

pub fn is_whitespace(c: char) -> (r: bool)
    ensures
        r == spec_is_whitespace(c),
{
    ('\u{9}' <= c && c <= '\u{d}') || c == ' ' || c == '\u{85}' || c == '\u{a0}' || c == '\u{1680}'
        || ('\u{2000}' <= c && c <= '\u{200a}') || c == '\u{2028}' || c == '\u{2029}' || c == '\u{202f}'
        || c == '\u{205f}' || c == '\u{3000}'
}

/// `cs` without its leading whitespace.
pub open spec fn trim_start(cs: Seq<char>) -> Seq<char>
    decreases cs.len(),
{
    if cs.len() > 0 && spec_is_whitespace(cs[0]) { trim_start(cs.drop_first()) } else { cs }
}

/// `cs` without its trailing whitespace.
pub open spec fn trim_end(cs: Seq<char>) -> Seq<char>
    decreases cs.len(),
{
    if cs.len() > 0 && spec_is_whitespace(cs.last()) { trim_end(cs.drop_last()) } else { cs }
}

/// `cs` without leading and trailing whitespace (what `str::trim` gives).
pub open spec fn trim(cs: Seq<char>) -> Seq<char> {
    trim_end(trim_start(cs))
}

/// The pieces of `cs` between commas (what `str::split(',')` yields): one
/// more piece than there are commas.
pub open spec fn split_commas(cs: Seq<char>) -> Seq<Seq<char>>
    decreases cs.len(),
{
    if cs.len() == 0 {
        seq![Seq::empty()]
    } else {
        let pieces = split_commas(cs.drop_last());
        if cs.last() == ',' {
            pieces.push(Seq::empty())
        } else {
            pieces.update(pieces.len() - 1, pieces.last().push(cs.last()))
        }
    }
}

/// The trimmed pieces that are not empty, in order.
pub open spec fn roster_of(pieces: Seq<Seq<char>>) -> Seq<Seq<char>>
    decreases pieces.len(),
{
    if pieces.len() == 0 {
        Seq::empty()
    } else {
        let kept = roster_of(pieces.drop_last());
        let t = trim(pieces.last());
        if t.len() > 0 { kept.push(t) } else { kept }
    }
}

/// The names of a comma-separated roster: each piece trimmed, empty pieces
/// dropped.
pub open spec fn names_from_csv(cs: Seq<char>) -> Seq<Seq<char>> {
    roster_of(split_commas(cs))
}

/// Trimming a piece.
fn trim_piece(cs: &Vec<char>) -> (r: String)
    ensures
        r@ == trim(cs@),
{
    let n = cs.len();
    let mut a: usize = 0;
    assert(cs@.subrange(0, n as int) =~= cs@);
    while a < n && is_whitespace(cs[a])
        invariant
            a <= n,
            n == cs@.len(),
            trim_start(cs@) == trim_start(cs@.subrange(a as int, n as int)),
        decreases n - a,
    {
        assert(cs@.subrange(a as int, n as int).drop_first() =~= cs@.subrange(a as int + 1, n as int));
        a = a + 1;
    }
    assert(trim_start(cs@.subrange(a as int, n as int)) == cs@.subrange(a as int, n as int));
    let mut b: usize = n;
    while b > a && is_whitespace(cs[b - 1])
        invariant
            a <= b <= n,
            n == cs@.len(),
            trim(cs@) == trim_end(cs@.subrange(a as int, b as int)),
        decreases b - a,
    {
        assert(cs@.subrange(a as int, b as int).drop_last() =~= cs@.subrange(a as int, b as int - 1));
        b = b - 1;
    }
    assert(trim_end(cs@.subrange(a as int, b as int)) == cs@.subrange(a as int, b as int));
    let mut r = String::new();
    let mut i: usize = a;
    while i < b
        invariant
            a <= i <= b,
            b <= n,
            n == cs@.len(),
            r@ == cs@.subrange(a as int, i as int),
        decreases b - i,
    {
        push_char(&mut r, cs[i]);
        assert(cs@.subrange(a as int, i as int + 1) =~= cs@.subrange(a as int, i as int).push(cs@[i as int]));
        i = i + 1;
    }
    r
}

/// The names of a comma-separated roster, as `--names` gives them.
pub fn parse_names(s: &str) -> (names: Vec<String>)
    ensures
        names@.map_values(|n: String| n@) == names_from_csv(s@),
{
    let n = s.unicode_len();
    let mut names: Vec<String> = Vec::new();
    let mut cur: Vec<char> = Vec::new();
    let mut i: usize = 0;
    proof {
        assert(s@.take(0) =~= Seq::<char>::empty());
    }
    while i < n
        invariant
            i <= n,
            n == s@.len(),
            split_commas(s@.take(i as int)).len() >= 1,
            cur@ == split_commas(s@.take(i as int)).last(),
            names@.map_values(|x: String| x@) == roster_of(split_commas(s@.take(i as int)).drop_last()),
        decreases n - i,
    {
        let c = s.get_char(i);
        let ghost before = s@.take(i as int);
        let ghost after = s@.take(i as int + 1);
        assert(after.drop_last() =~= before);
        assert(after.last() == c);
        if c == ',' {
            let t = trim_piece(&cur);
            proof {
                let ps = split_commas(before);
                assert(split_commas(after) == ps.push(Seq::empty()));
                assert(ps.push(Seq::<char>::empty()).drop_last() =~= ps);
                assert(ps.drop_last().push(ps.last()) =~= ps);
            }
            if t.unicode_len() > 0 {
                names.push(t);
            }
            cur = Vec::new();
            proof {
                let ps = split_commas(before);
                assert(names@.map_values(|x: String| x@) =~= roster_of(ps));
            }
        } else {
            cur.push(c);
            proof {
                let ps = split_commas(before);
                assert(split_commas(after) == ps.update(ps.len() - 1, ps.last().push(c)));
                assert(ps.update(ps.len() - 1, ps.last().push(c)).drop_last() =~= ps.drop_last());
            }
        }
        i = i + 1;
    }
    assert(s@.take(n as int) =~= s@);
    let t = trim_piece(&cur);
    let ghost ps = split_commas(s@);
    if t.unicode_len() > 0 {
        names.push(t);
    }
    proof {
        assert(ps.drop_last().push(ps.last()) =~= ps);
        assert(names@.map_values(|x: String| x@) =~= roster_of(ps));
    }
    names
}

/// The number of soldiers asked for, brought into 1..=20.
pub open spec fn clamp_soldiers(n: u32) -> u32 {
    if n < 1 { 1 } else if n > 20 { 20 } else { n }
}

/// The configuration for `soldiers` soldiers, a daily of `minutes` minutes
/// (at least one) and the roster given with `--names`, if any.
pub fn config_from_cli(soldiers: u32, minutes: u32, names: Option<&str>) -> (cfg: SessionConfig)
    requires
        minutes <= u32::MAX / 60,
    ensures
        cfg.soldiers == clamp_soldiers(soldiers),
        cfg.total_seconds == (if minutes < 1 { 1 } else { minutes }) * 60,
        cfg.name_seqs() == match names {
            Some(s) => names_from_csv(s@),
            None => Seq::empty(),
        },
{
    let parsed: Vec<String> = match names {
        Some(s) => parse_names(s),
        None => Vec::new(),
    };
    let n = if soldiers < 1 { 1 } else if soldiers > 20 { 20 } else { soldiers };
    let m = if minutes < 1 { 1 } else { minutes };
    let cfg = SessionConfig { soldiers: n, total_seconds: m * 60, names: parsed };
    assert(names is None ==> cfg.name_seqs() =~= Seq::<Seq<char>>::empty());
    cfg
}

/// Every name of a parsed roster is non-empty and has no surrounding
/// whitespace.
pub proof fn law_roster_names_are_trimmed(pieces: Seq<Seq<char>>)
    ensures
        forall|i: int| 0 <= i < roster_of(pieces).len() ==> {
            &&& (#[trigger] roster_of(pieces)[i]).len() > 0
            &&& !spec_is_whitespace(roster_of(pieces)[i][0])
            &&& !spec_is_whitespace(roster_of(pieces)[i].last())
        },
    decreases pieces.len(),
{
    if pieces.len() > 0 {
        law_roster_names_are_trimmed(pieces.drop_last());
        lemma_trim_edges(pieces.last());
        let kept = roster_of(pieces.drop_last());
        let t = trim(pieces.last());
        assert forall|i: int| 0 <= i < roster_of(pieces).len() implies {
            &&& (#[trigger] roster_of(pieces)[i]).len() > 0
            &&& !spec_is_whitespace(roster_of(pieces)[i][0])
            &&& !spec_is_whitespace(roster_of(pieces)[i].last())
        } by {
            if i < kept.len() {
                assert(roster_of(pieces)[i] == kept[i]);
            }
        }
    }
}

/// A trimmed text starts and ends with non-whitespace, when not empty.
proof fn lemma_trim_edges(cs: Seq<char>)
    ensures
        trim(cs).len() > 0 ==> !spec_is_whitespace(trim(cs)[0]) && !spec_is_whitespace(trim(cs).last()),
{
    lemma_trim_start_edge(cs);
    lemma_trim_end_keeps_start(trim_start(cs));
}

proof fn lemma_trim_start_edge(cs: Seq<char>)
    ensures
        trim_start(cs).len() > 0 ==> !spec_is_whitespace(trim_start(cs)[0]),
    decreases cs.len(),
{
    if cs.len() > 0 && spec_is_whitespace(cs[0]) {
        lemma_trim_start_edge(cs.drop_first());
    }
}

/// Trimming the end of a text that starts with non-whitespace keeps that
/// start, and leaves a non-whitespace end.
proof fn lemma_trim_end_keeps_start(cs: Seq<char>)
    ensures
        trim_end(cs).len() > 0 ==> !spec_is_whitespace(trim_end(cs).last()),
        trim_end(cs).len() > 0 ==> trim_end(cs)[0] == cs[0],
    decreases cs.len(),
{
    if cs.len() > 0 && spec_is_whitespace(cs.last()) {
        lemma_trim_end_keeps_start(cs.drop_last());
    }
}

/// The command line asks for 1 to 20 soldiers: a number in range is kept,
/// others are brought to the nearest bound.
pub proof fn law_soldiers_are_clamped(n: u32)
    ensures
        1 <= clamp_soldiers(n) <= 20,
        1 <= n <= 20 ==> clamp_soldiers(n) == n,
        n == 0 ==> clamp_soldiers(n) == 1,
        n > 20 ==> clamp_soldiers(n) == 20,
{
}

} // verus!
