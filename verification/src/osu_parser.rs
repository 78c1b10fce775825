//! Reads the few fields the store needs out of a `.osu` beatmap file: the
//! audio file named in `[General]` and the background image of `[Events]`.
//!
//! A `.osu` file is read line by line (`str::lines`). Each line is trimmed;
//! empty lines and `//` comments are skipped; a line `[Name]` opens the
//! section `Name`. Inside `[General]`, a line `AudioFilename: value` names the
//! audio file; inside `[Events]`, a line whose first two comma-separated
//! fields are `0` and `0` is the background event, its third field the image.
use vstd::prelude::*;

use crate::text::{
    chars_of, find_char, find_in_range, lemma_find_char_bounds, range_eq, strip_range, strip_start,
    strippable, substring, trim, trim_quotes, trim_range,
};

verus! {

/// The text of the first line of `s` (before the first `'\n'`).
/// The `'\r'` that `str::lines` strips is white space, so trimming the line
/// gives the same text with or without it.
pub open spec fn line_of(s: Seq<char>) -> Seq<char> {
    s.take(find_char(s, '\n'))
}

/// What follows the first line of `s` and its `'\n'`.
pub open spec fn after_line(s: Seq<char>) -> Seq<char> {
    if find_char(s, '\n') < s.len() {
        s.skip(find_char(s, '\n') + 1)
    } else {
        Seq::empty()
    }
}

pub open spec fn general_word() -> Seq<char> {
    seq!['G', 'e', 'n', 'e', 'r', 'a', 'l']
}

pub open spec fn events_word() -> Seq<char> {
    seq!['E', 'v', 'e', 'n', 't', 's']
}

pub open spec fn audio_key_word() -> Seq<char> {
    seq!['A', 'u', 'd', 'i', 'o', 'F', 'i', 'l', 'e', 'n', 'a', 'm', 'e']
}

/// A trimmed line that carries nothing: empty, or a `//` comment.
pub open spec fn ignored_line(t: Seq<char>) -> bool {
    t.len() == 0 || (t.len() >= 2 && t[0] == '/' && t[1] == '/')
}

/// The section a trimmed line `[Name]` opens.
pub open spec fn header_name(t: Seq<char>) -> Option<Seq<char>> {
    if t.len() >= 1 && t[0] == '[' && t.last() == ']' {
        Some(t.subrange(1, t.len() - 1))
    } else {
        None
    }
}

/// The file a trimmed line `AudioFilename: value` names: the value after the
/// first `:`, trimmed, without surrounding double quotes.
pub open spec fn audio_in_line(t: Seq<char>) -> Option<Seq<char>> {
    let k = find_char(t, ':');
    if k < t.len() && trim(t.take(k)) == audio_key_word() {
        Some(trim_quotes(trim(t.skip(k + 1))))
    } else {
        None
    }
}

/// The image of a background event `0,0,"file",...`: the third
/// comma-separated field, trimmed, without surrounding double quotes, when
/// the line has at least three fields and the first two trim to `0`.
pub open spec fn background_in_line(t: Seq<char>) -> Option<Seq<char>> {
    let c1 = find_char(t, ',');
    let r1 = t.skip(c1 + 1);
    let c2 = find_char(r1, ',');
    let r2 = r1.skip(c2 + 1);
    if c1 < t.len() && c2 < r1.len() && trim(t.take(c1)) == seq!['0'] && trim(r1.take(c2))
        == seq!['0'] {
        Some(trim_quotes(trim(r2.take(find_char(r2, ',')))))
    } else {
        None
    }
}

pub proof fn lemma_after_line_shorter(s: Seq<char>)
    requires
        s.len() > 0,
    ensures
        after_line(s).len() < s.len(),
{
    lemma_find_char_bounds(s, '\n');
}

/// The first audio file named inside a `[General]` section of `s`, reading
/// `s` from a state where `in_general` tells whether a `[General]` section is open.
pub open spec fn scan_audio(s: Seq<char>, in_general: bool) -> Option<Seq<char>>
    decreases s.len(),
{
    if s.len() == 0 {
        None
    } else {
        proof {
            lemma_after_line_shorter(s);
        }
        let t = trim(line_of(s));
        if ignored_line(t) {
            scan_audio(after_line(s), in_general)
        } else if header_name(t) is Some {
            scan_audio(after_line(s), header_name(t)->0 == general_word())
        } else if in_general && audio_in_line(t) is Some {
            audio_in_line(t)
        } else {
            scan_audio(after_line(s), in_general)
        }
    }
}

/// The first background image inside an `[Events]` section of `s`.
pub open spec fn scan_background(s: Seq<char>, in_events: bool) -> Option<Seq<char>>
    decreases s.len(),
{
    if s.len() == 0 {
        None
    } else {
        proof {
            lemma_after_line_shorter(s);
        }
        let t = trim(line_of(s));
        if ignored_line(t) {
            scan_background(after_line(s), in_events)
        } else if header_name(t) is Some {
            scan_background(after_line(s), header_name(t)->0 == events_word())
        } else if in_events && background_in_line(t) is Some {
            background_in_line(t)
        } else {
            scan_background(after_line(s), in_events)
        }
    }
}

/// One pass over `s` collecting both fields: the audio file is the last one
/// named in `[General]` before the pass stops, the background the first one
/// met in `[Events]`, where the pass stops.
pub open spec fn scan_both(
    s: Seq<char>,
    section: Option<Seq<char>>,
    audio: Option<Seq<char>>,
) -> (Option<Seq<char>>, Option<Seq<char>>)
    decreases s.len(),
{
    if s.len() == 0 {
        (audio, None)
    } else {
        proof {
            lemma_after_line_shorter(s);
        }
        let t = trim(line_of(s));
        if ignored_line(t) {
            scan_both(after_line(s), section, audio)
        } else if header_name(t) is Some {
            scan_both(after_line(s), header_name(t), audio)
        } else if section == Some(general_word()) {
            scan_both(
                after_line(s),
                section,
                if audio_in_line(t) is Some {
                    audio_in_line(t)
                } else {
                    audio
                },
            )
        } else if section == Some(events_word()) && background_in_line(t) is Some {
            (audio, background_in_line(t))
        } else {
            scan_both(after_line(s), section, audio)
        }
    }
}

/// What `parse_audio_filename` returns for the file text `s`.
pub open spec fn audio_filename(s: Seq<char>) -> Option<Seq<char>> {
    scan_audio(s, false)
}

/// What `parse_background_filename` returns for the file text `s`.
pub open spec fn background_filename(s: Seq<char>) -> Option<Seq<char>> {
    scan_background(s, false)
}

/// What `parse_audio_and_background` returns for the file text `s`.
pub open spec fn audio_and_background(s: Seq<char>) -> (Option<Seq<char>>, Option<Seq<char>>) {
    scan_both(s, None, None)
}

pub open spec fn opt_view(o: Option<String>) -> Option<Seq<char>> {
    match o {
        Some(x) => Some(x@),
        None => None,
    }
}

// ---------------------------------------------------------------------------
// How the one-pass scan relates to the two single-field scans
// ---------------------------------------------------------------------------

/// Every audio value named in `[General]` sections of `s`, in file order.
pub open spec fn audio_values(s: Seq<char>, in_general: bool) -> Seq<Seq<char>>
    decreases s.len(),
{
    if s.len() == 0 {
        Seq::empty()
    } else {
        proof {
            lemma_after_line_shorter(s);
        }
        let t = trim(line_of(s));
        if ignored_line(t) {
            audio_values(after_line(s), in_general)
        } else if header_name(t) is Some {
            audio_values(after_line(s), header_name(t)->0 == general_word())
        } else if in_general && audio_in_line(t) is Some {
            seq![audio_in_line(t)->0] + audio_values(after_line(s), in_general)
        } else {
            audio_values(after_line(s), in_general)
        }
    }
}

proof fn lemma_both_background(s: Seq<char>, section: Option<Seq<char>>, audio: Option<Seq<char>>)
    ensures
        scan_both(s, section, audio).1 == scan_background(s, section == Some(events_word())),
    decreases s.len(),
{
    if s.len() > 0 {
        lemma_after_line_shorter(s);
        let t = trim(line_of(s));
        if ignored_line(t) {
            lemma_both_background(after_line(s), section, audio);
        } else if header_name(t) is Some {
            lemma_both_background(after_line(s), header_name(t), audio);
        } else if section == Some(general_word()) {
            assert(general_word() != events_word());
            lemma_both_background(
                after_line(s),
                section,
                if audio_in_line(t) is Some {
                    audio_in_line(t)
                } else {
                    audio
                },
            );
        } else {
            lemma_both_background(after_line(s), section, audio);
        }
    }
}

proof fn lemma_audio_first_value(s: Seq<char>, in_general: bool)
    ensures
        scan_audio(s, in_general) == if audio_values(s, in_general).len() > 0 {
            Some(audio_values(s, in_general)[0])
        } else {
            None::<Seq<char>>
        },
    decreases s.len(),
{
    if s.len() > 0 {
        lemma_after_line_shorter(s);
        let t = trim(line_of(s));
        if ignored_line(t) {
            lemma_audio_first_value(after_line(s), in_general);
        } else if header_name(t) is Some {
            lemma_audio_first_value(after_line(s), header_name(t)->0 == general_word());
        } else if !(in_general && audio_in_line(t) is Some) {
            lemma_audio_first_value(after_line(s), in_general);
        }
    }
}

proof fn lemma_both_audio_found(s: Seq<char>, section: Option<Seq<char>>, audio: Option<Seq<char>>)
    ensures
        scan_both(s, section, audio).0 is Some ==> audio is Some || scan_audio(
            s,
            section == Some(general_word()),
        ) is Some,
    decreases s.len(),
{
    if s.len() > 0 {
        lemma_after_line_shorter(s);
        let t = trim(line_of(s));
        if ignored_line(t) {
            lemma_both_audio_found(after_line(s), section, audio);
        } else if header_name(t) is Some {
            lemma_both_audio_found(after_line(s), header_name(t), audio);
        } else if section == Some(general_word()) {
            let next_audio = if audio_in_line(t) is Some {
                audio_in_line(t)
            } else {
                audio
            };
            lemma_both_audio_found(after_line(s), section, next_audio);
        } else {
            lemma_both_audio_found(after_line(s), section, audio);
        }
    }
}

/// The one-pass scan finds the same background image as
/// `parse_background_filename`, on every file.
pub proof fn law_one_pass_background_agrees(s: Seq<char>)
    ensures
        audio_and_background(s).1 == background_filename(s),
{
    lemma_both_background(s, None, None);
}

/// When the one-pass scan finds an audio file, `parse_audio_filename` finds one too.
pub proof fn law_one_pass_audio_found_implies_found(s: Seq<char>)
    ensures
        audio_and_background(s).0 is Some ==> audio_filename(s) is Some,
{
    lemma_both_audio_found(s, None, None);
}

/// The audio values the one-pass scan meets before it stops at the first
/// background event of an `[Events]` section, in file order.
pub open spec fn audio_values_before_background(s: Seq<char>, section: Option<Seq<char>>) -> Seq<
    Seq<char>,
>
    decreases s.len(),
{
    if s.len() == 0 {
        Seq::empty()
    } else {
        proof {
            lemma_after_line_shorter(s);
        }
        let t = trim(line_of(s));
        if ignored_line(t) {
            audio_values_before_background(after_line(s), section)
        } else if header_name(t) is Some {
            audio_values_before_background(after_line(s), header_name(t))
        } else if section == Some(general_word()) {
            if audio_in_line(t) is Some {
                seq![audio_in_line(t)->0] + audio_values_before_background(after_line(s), section)
            } else {
                audio_values_before_background(after_line(s), section)
            }
        } else if section == Some(events_word()) && background_in_line(t) is Some {
            Seq::empty()
        } else {
            audio_values_before_background(after_line(s), section)
        }
    }
}

proof fn lemma_both_audio_seen(s: Seq<char>, section: Option<Seq<char>>, audio: Option<Seq<char>>)
    ensures
        scan_both(s, section, audio).0 == {
            let seen = audio_values_before_background(s, section);
            if seen.len() > 0 {
                Some(seen.last())
            } else {
                audio
            }
        },
    decreases s.len(),
{
    if s.len() > 0 {
        lemma_after_line_shorter(s);
        let t = trim(line_of(s));
        if ignored_line(t) {
            lemma_both_audio_seen(after_line(s), section, audio);
        } else if header_name(t) is Some {
            lemma_both_audio_seen(after_line(s), header_name(t), audio);
        } else if section == Some(general_word()) {
            let next_audio = if audio_in_line(t) is Some {
                audio_in_line(t)
            } else {
                audio
            };
            lemma_both_audio_seen(after_line(s), section, next_audio);
            if audio_in_line(t) is Some {
                let rest = audio_values_before_background(after_line(s), section);
                let seen = seq![audio_in_line(t)->0] + rest;
                if rest.len() > 0 {
                    assert(seen.last() == rest.last());
                } else {
                    assert(seen.last() == audio_in_line(t)->0);
                }
            }
        } else {
            lemma_both_audio_seen(after_line(s), section, audio);
        }
    }
}

/// On a file whose `[General]` sections name at most one audio file, each
/// named before the first background event of `[Events]`, the one-pass scan
/// finds the same audio file as `parse_audio_filename`.
pub proof fn law_one_pass_audio_agrees(s: Seq<char>)
    requires
        audio_values(s, false).len() <= 1,
        audio_values_before_background(s, None) == audio_values(s, false),
    ensures
        audio_and_background(s).0 == audio_filename(s),
{
    lemma_audio_first_value(s, false);
    lemma_both_audio_seen(s, None, None);
}

// ---------------------------------------------------------------------------
// Line endings
// ---------------------------------------------------------------------------

/// `s` with every `\n` written as `\r\n`, as osu! writes its files.
pub open spec fn crlf(s: Seq<char>) -> Seq<char>
    decreases s.len(),
{
    if s.len() == 0 {
        s
    } else if s[0] == '\n' {
        seq!['\r', '\n'] + crlf(s.drop_first())
    } else {
        seq![s[0]] + crlf(s.drop_first())
    }
}

proof fn lemma_crlf_concat(a: Seq<char>, b: Seq<char>)
    ensures
        crlf(a + b) == crlf(a) + crlf(b),
    decreases a.len(),
{
    if a.len() == 0 {
        assert(a + b =~= b);
        assert(crlf(a) + crlf(b) =~= crlf(b));
    } else {
        assert((a + b).drop_first() =~= a.drop_first() + b);
        assert((a + b)[0] == a[0]);
        lemma_crlf_concat(a.drop_first(), b);
        if a[0] == '\n' {
            assert(seq!['\r', '\n'] + (crlf(a.drop_first()) + crlf(b)) =~= (seq!['\r', '\n']
                + crlf(a.drop_first())) + crlf(b));
        } else {
            assert(seq![a[0]] + (crlf(a.drop_first()) + crlf(b)) =~= (seq![a[0]] + crlf(
                a.drop_first(),
            )) + crlf(b));
        }
    }
}

proof fn lemma_crlf_no_newline(a: Seq<char>)
    requires
        forall|i: int| 0 <= i < a.len() ==> a[i] != '\n',
    ensures
        crlf(a) == a,
    decreases a.len(),
{
    if a.len() > 0 {
        assert(a[0] != '\n');
        lemma_crlf_no_newline(a.drop_first());
        assert(seq![a[0]] + a.drop_first() =~= a);
    }
}

proof fn lemma_find_char_at(x: Seq<char>, c: char, m: int)
    requires
        0 <= m < x.len(),
        x[m] == c,
        forall|i: int| 0 <= i < m ==> x[i] != c,
    ensures
        find_char(x, c) == m,
{
    lemma_find_char_bounds(x, c);
    if find_char(x, c) < m {
        assert(x[find_char(x, c)] == c);
    }
}

proof fn lemma_strip_start_push(t: Seq<char>, c: char, q: bool)
    ensures
        strip_start(t.push(c), q) == if strip_start(t, q).len() == 0 {
            strip_start(seq![c], q)
        } else {
            strip_start(t, q).push(c)
        },
    decreases t.len(),
{
    if t.len() == 0 {
        assert(t.push(c) =~= seq![c]);
    } else {
        assert(t.push(c)[0] == t[0]);
        assert(t.push(c).drop_first() =~= t.drop_first().push(c));
        if strippable(t[0], q) {
            lemma_strip_start_push(t.drop_first(), c, q);
        }
    }
}

/// A `\r` at the end of a line changes nothing once the line is trimmed.
proof fn lemma_trim_ignores_cr(t: Seq<char>)
    ensures
        trim(t.push('\r')) == trim(t),
{
    lemma_strip_start_push(t, '\r', false);
    let u = strip_start(t, false);
    if u.len() == 0 {
        let cr = seq!['\r'];
        assert(cr.len() == 1 && cr[0] == '\r');
        assert(strippable('\r', false));
        assert(cr.drop_first() =~= Seq::<char>::empty());
        assert(strip_start(cr.drop_first(), false) =~= Seq::<char>::empty());
        assert(strip_start(cr, false) =~= Seq::<char>::empty());
    } else {
        assert(u.push('\r').drop_last() =~= u);
    }
}

/// One line of `crlf(s)`: it trims to the same text as the line of `s`,
/// and what follows it is `crlf` of what follows the line of `s`.
proof fn lemma_crlf_line(s: Seq<char>)
    requires
        s.len() > 0,
    ensures
        crlf(s).len() > 0,
        trim(line_of(crlf(s))) == trim(line_of(s)),
        after_line(crlf(s)) == crlf(after_line(s)),
{
    lemma_find_char_bounds(s, '\n');
    let k = find_char(s, '\n');
    if k == s.len() {
        lemma_crlf_no_newline(s);
        assert(crlf(Seq::<char>::empty()) =~= Seq::<char>::empty());
    } else {
        let a = s.take(k);
        let rest = s.skip(k + 1);
        assert(s =~= a + (seq!['\n'] + rest));
        lemma_crlf_concat(a, seq!['\n'] + rest);
        lemma_crlf_no_newline(a);
        assert((seq!['\n'] + rest)[0] == '\n');
        assert((seq!['\n'] + rest).drop_first() =~= rest);
        let c = crlf(s);
        assert(c =~= a + (seq!['\r', '\n'] + crlf(rest)));
        assert(c[k + 1] == '\n');
        assert forall|i: int| 0 <= i < k + 1 implies c[i] != '\n' by {
            if i < k {
                assert(c[i] == a[i]);
            } else {
                assert(c[i] == '\r');
            }
        }
        lemma_find_char_at(c, '\n', k + 1);
        assert(line_of(c) =~= line_of(s).push('\r'));
        lemma_trim_ignores_cr(line_of(s));
        assert(after_line(c) =~= crlf(rest));
        assert(after_line(s) =~= rest);
    }
}

proof fn lemma_crlf_background(s: Seq<char>, in_events: bool)
    ensures
        scan_background(crlf(s), in_events) == scan_background(s, in_events),
    decreases s.len(),
{
    if s.len() > 0 {
        lemma_crlf_line(s);
        lemma_after_line_shorter(s);
        lemma_crlf_background(after_line(s), true);
        lemma_crlf_background(after_line(s), false);
    }
}

proof fn lemma_crlf_audio(s: Seq<char>, in_general: bool)
    ensures
        scan_audio(crlf(s), in_general) == scan_audio(s, in_general),
    decreases s.len(),
{
    if s.len() > 0 {
        lemma_crlf_line(s);
        lemma_after_line_shorter(s);
        lemma_crlf_audio(after_line(s), true);
        lemma_crlf_audio(after_line(s), false);
    }
}

proof fn lemma_crlf_both(s: Seq<char>, section: Option<Seq<char>>, audio: Option<Seq<char>>)
    ensures
        scan_both(crlf(s), section, audio) == scan_both(s, section, audio),
    decreases s.len(),
{
    if s.len() > 0 {
        lemma_crlf_line(s);
        lemma_after_line_shorter(s);
        let t = trim(line_of(s));
        if ignored_line(t) {
            lemma_crlf_both(after_line(s), section, audio);
        } else if header_name(t) is Some {
            lemma_crlf_both(after_line(s), header_name(t), audio);
        } else if section == Some(general_word()) {
            lemma_crlf_both(
                after_line(s),
                section,
                if audio_in_line(t) is Some {
                    audio_in_line(t)
                } else {
                    audio
                },
            );
        } else {
            lemma_crlf_both(after_line(s), section, audio);
        }
    }
}

/// A chart reads the same with `\r\n` line endings as with `\n`: writing
/// every `\n` as `\r\n` changes none of the three parses.
pub proof fn law_parse_ignores_crlf(s: Seq<char>)
    ensures
        audio_filename(crlf(s)) == audio_filename(s),
        background_filename(crlf(s)) == background_filename(s),
        audio_and_background(crlf(s)) == audio_and_background(s),
{
    lemma_crlf_audio(s, false);
    lemma_crlf_background(s, false);
    lemma_crlf_both(s, None, None);
}

// ---------------------------------------------------------------------------
// Line classification on a character vector
// ---------------------------------------------------------------------------

/// The line starting at `pos`: its end (index of its `'\n'`, or `v.len()`)
/// and the bounds of its trimmed text.
fn next_line(v: &Vec<char>, pos: usize) -> (r: (usize, usize, usize))
    requires
        pos < v.len(),
    ensures
        pos <= r.1 <= r.2 <= r.0 <= v.len(),
        v@.subrange(r.1 as int, r.2 as int) == trim(line_of(v@.skip(pos as int))),
        r.0 < v.len() ==> after_line(v@.skip(pos as int)) == v@.skip(r.0 + 1),
        r.0 == v.len() ==> after_line(v@.skip(pos as int)) == Seq::<char>::empty(),
{
    let end = find_in_range(v, pos, v.len(), '\n');
    let (a, b) = trim_range(v, pos, end);
    proof {
        let s = v@.skip(pos as int);
        assert(s =~= v@.subrange(pos as int, v.len() as int));
        assert(line_of(s) =~= v@.subrange(pos as int, end as int));
        if end < v.len() {
            assert(s.skip(find_char(s, '\n') + 1) =~= v@.skip(end + 1));
        }
    }
    (end, a, b)
}

fn is_ignored(v: &Vec<char>, a: usize, b: usize) -> (r: bool)
    requires
        a <= b <= v.len(),
    ensures
        r == ignored_line(v@.subrange(a as int, b as int)),
{
    b == a || (b - a >= 2 && v[a] == '/' && v[a + 1] == '/')
}

fn header_range(v: &Vec<char>, a: usize, b: usize) -> (r: Option<(usize, usize)>)
    requires
        a <= b <= v.len(),
    ensures
        match r {
            Some((x, y)) => a <= x <= y <= b && header_name(v@.subrange(a as int, b as int))
                == Some(v@.subrange(x as int, y as int)),
            None => header_name(v@.subrange(a as int, b as int)) is None,
        },
{
    if b - a >= 1 && v[a] == '[' && v[b - 1] == ']' {
        proof {
            let t = v@.subrange(a as int, b as int);
            if b - a == 1 {
                assert(t[0] == t.last());
            }
            assert(t.subrange(1, t.len() - 1) =~= v@.subrange(a + 1, b - 1));
        }
        Some((a + 1, b - 1))
    } else {
        None
    }
}

fn audio_range(v: &Vec<char>, a: usize, b: usize) -> (r: Option<(usize, usize)>)
    requires
        a <= b <= v.len(),
    ensures
        match r {
            Some((x, y)) => x <= y <= v.len() && audio_in_line(v@.subrange(a as int, b as int))
                == Some(v@.subrange(x as int, y as int)),
            None => audio_in_line(v@.subrange(a as int, b as int)) is None,
        },
{
    let k = find_in_range(v, a, b, ':');
    proof {
        let t = v@.subrange(a as int, b as int);
        assert(t.take(k - a) =~= v@.subrange(a as int, k as int));
        if k < b {
            assert(t.skip(k - a + 1) =~= v@.subrange(k + 1, b as int));
        }
    }
    if k == b {
        return None;
    }
    let (ka, kb) = trim_range(v, a, k);
    let key_word: [char; 13] = ['A', 'u', 'd', 'i', 'o', 'F', 'i', 'l', 'e', 'n', 'a', 'm', 'e'];
    assert(key_word@ =~= audio_key_word());
    if !range_eq(v, ka, kb, &key_word) {
        return None;
    }
    let (va, vb) = trim_range(v, k + 1, b);
    let (qa, qb) = strip_range(v, va, vb, true);
    Some((qa, qb))
}

fn is_zero_field(v: &Vec<char>, lo: usize, hi: usize) -> (r: bool)
    requires
        lo <= hi <= v.len(),
    ensures
        r == (trim(v@.subrange(lo as int, hi as int)) == seq!['0']),
{
    let (x, y) = trim_range(v, lo, hi);
    let zero: [char; 1] = ['0'];
    assert(zero@ =~= seq!['0']);
    range_eq(v, x, y, &zero)
}

fn background_range(v: &Vec<char>, a: usize, b: usize) -> (r: Option<(usize, usize)>)
    requires
        a <= b <= v.len(),
    ensures
        match r {
            Some((x, y)) => x <= y <= v.len() && background_in_line(
                v@.subrange(a as int, b as int),
            ) == Some(v@.subrange(x as int, y as int)),
            None => background_in_line(v@.subrange(a as int, b as int)) is None,
        },
{
    let ghost t = v@.subrange(a as int, b as int);
    let c1 = find_in_range(v, a, b, ',');
    if c1 == b {
        return None;
    }
    let c2 = find_in_range(v, c1 + 1, b, ',');
    proof {
        let r1 = t.skip(c1 - a + 1);
        assert(t.take(c1 - a) =~= v@.subrange(a as int, c1 as int));
        assert(r1 =~= v@.subrange(c1 + 1, b as int));
        if c2 < b {
            assert(r1.take(c2 - c1 - 1) =~= v@.subrange(c1 + 1, c2 as int));
            assert(r1.skip(c2 - c1 - 1 + 1) =~= v@.subrange(c2 + 1, b as int));
        }
    }
    if c2 == b {
        return None;
    }
    if !is_zero_field(v, a, c1) || !is_zero_field(v, c1 + 1, c2) {
        return None;
    }
    let c3 = find_in_range(v, c2 + 1, b, ',');
    proof {
        let r2 = v@.subrange(c2 + 1, b as int);
        assert(r2.take(c3 - c2 - 1) =~= v@.subrange(c2 + 1, c3 as int));
    }
    let (fa, fb) = trim_range(v, c2 + 1, c3);
    let (qa, qb) = strip_range(v, fa, fb, true);
    Some((qa, qb))
}

fn is_section(v: &Vec<char>, x: usize, y: usize, general: bool) -> (r: bool)
    requires
        x <= y <= v.len(),
    ensures
        r == (v@.subrange(x as int, y as int) == if general {
            general_word()
        } else {
            events_word()
        }),
{
    if general {
        let w: [char; 7] = ['G', 'e', 'n', 'e', 'r', 'a', 'l'];
        assert(w@ =~= general_word());
        range_eq(v, x, y, &w)
    } else {
        let w: [char; 6] = ['E', 'v', 'e', 'n', 't', 's'];
        assert(w@ =~= events_word());
        range_eq(v, x, y, &w)
    }
}

// ---------------------------------------------------------------------------
// Public parsers
// ---------------------------------------------------------------------------

/// Parse a .osu file to extract the audio filename from the [General] section.
pub fn parse_audio_filename(osu_content: &str) -> (r: Option<String>)
    ensures
        opt_view(r) == audio_filename(osu_content@),
{
    let v = chars_of(osu_content);
    let n = v.len();
    let mut pos: usize = 0;
    let mut in_general = false;
    assert(v@.skip(0) =~= v@);
    while pos < n
        invariant
            n == v.len(),
            v@ == osu_content@,
            pos <= n,
            audio_filename(osu_content@) == scan_audio(v@.skip(pos as int), in_general),
        decreases n - pos,
    {
        let (end, a, b) = next_line(&v, pos);
        let ghost s = v@.skip(pos as int);
        let next = if end < n {
            end + 1
        } else {
            n
        };
        assert(after_line(s) == v@.skip(next as int));
        if is_ignored(&v, a, b) {
        } else if let Some((x, y)) = header_range(&v, a, b) {
            in_general = is_section(&v, x, y, true);
        } else if in_general {
            if let Some((x, y)) = audio_range(&v, a, b) {
                return Some(substring(osu_content, x, y));
            }
        }
        pos = next;
    }
    None
}

/// Parse a .osu file to extract the background image filename from the [Events] section.
pub fn parse_background_filename(osu_content: &str) -> (r: Option<String>)
    ensures
        opt_view(r) == background_filename(osu_content@),
{
    let v = chars_of(osu_content);
    let n = v.len();
    let mut pos: usize = 0;
    let mut in_events = false;
    assert(v@.skip(0) =~= v@);
    while pos < n
        invariant
            n == v.len(),
            v@ == osu_content@,
            pos <= n,
            background_filename(osu_content@) == scan_background(v@.skip(pos as int), in_events),
        decreases n - pos,
    {
        let (end, a, b) = next_line(&v, pos);
        let ghost s = v@.skip(pos as int);
        let next = if end < n {
            end + 1
        } else {
            n
        };
        assert(after_line(s) == v@.skip(next as int));
        if is_ignored(&v, a, b) {
        } else if let Some((x, y)) = header_range(&v, a, b) {
            in_events = is_section(&v, x, y, false);
        } else if in_events {
            if let Some((x, y)) = background_range(&v, a, b) {
                return Some(substring(osu_content, x, y));
            }
        }
        pos = next;
    }
    None
}

/// Parse a .osu file to extract both the audio filename and background filename in one pass.
pub fn parse_audio_and_background(osu_content: &str) -> (r: (Option<String>, Option<String>))
    ensures
        (opt_view(r.0), opt_view(r.1)) == audio_and_background(osu_content@),
{
    let v = chars_of(osu_content);
    let n = v.len();
    let mut pos: usize = 0;
    let mut section: Option<(usize, usize)> = None;
    let mut audio: Option<String> = None;
    assert(v@.skip(0) =~= v@);
    while pos < n
        invariant
            n == v.len(),
            v@ == osu_content@,
            pos <= n,
            match section {
                Some((x, y)) => x <= y <= n,
                None => true,
            },
            audio_and_background(osu_content@) == scan_both(
                v@.skip(pos as int),
                match section {
                    Some((x, y)) => Some(v@.subrange(x as int, y as int)),
                    None => None,
                },
                opt_view(audio),
            ),
        decreases n - pos,
    {
        let (end, a, b) = next_line(&v, pos);
        let ghost s = v@.skip(pos as int);
        let next = if end < n {
            end + 1
        } else {
            n
        };
        assert(after_line(s) == v@.skip(next as int));
        if is_ignored(&v, a, b) {
        } else if let Some((x, y)) = header_range(&v, a, b) {
            section = Some((x, y));
        } else if let Some((x, y)) = section {
            if is_section(&v, x, y, true) {
                if let Some((p, q)) = audio_range(&v, a, b) {
                    audio = Some(substring(osu_content, p, q));
                }
            } else if is_section(&v, x, y, false) {
                if let Some((p, q)) = background_range(&v, a, b) {
                    return (audio, Some(substring(osu_content, p, q)));
                }
            }
        }
        pos = next;
    }
    (audio, None)
}

} // verus!
