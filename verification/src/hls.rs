//! HLS playlists: their kind, attribute lists, variant scores and choice.
use vstd::prelude::*;
use crate::text::{
    chars_of, concat, contains, contains_chars, find_chars, find_from, lemma_find_from_bounds,
    lines, matches_at, opt_view, parse_u64, parse_u64_spec, push_all, slice_chars, split_lines, starts_with,
    starts_with_chars, string_of, trim, trim_chars, trim_set, trim_set_chars,
};
use crate::urls::{url_join, WebUrl};

verus! {

/// A master playlist lists variants; a media playlist lists segments.
#[derive(PartialEq, Eq, Structural, Clone, Copy, Debug)]
pub enum PlaylistKind {
    Media,
    Master,
}

/// The kind of playlist text: it must carry `#EXTM3U`; `#EXTINF` makes it a media
/// playlist, else `#EXT-X-STREAM-INF` a master playlist.
pub open spec fn spec_playlist_kind(text: Seq<char>) -> Option<PlaylistKind> {
    if !contains(text, "#EXTM3U"@) {
        None
    } else if contains(text, "#EXTINF"@) {
        Some(PlaylistKind::Media)
    } else if contains(text, "#EXT-X-STREAM-INF"@) {
        Some(PlaylistKind::Master)
    } else {
        None
    }
}

pub fn playlist_kind(text: &str) -> (r: Option<PlaylistKind>)
    ensures
        r == spec_playlist_kind(text@),
{
    let v = chars_of(text);
    if !contains_chars(&v, &chars_of("#EXTM3U")) {
        return None;
    }
    if contains_chars(&v, &chars_of("#EXTINF")) {
        return Some(PlaylistKind::Media);
    }
    if contains_chars(&v, &chars_of("#EXT-X-STREAM-INF")) {
        return Some(PlaylistKind::Master);
    }
    None
}

/// The value of attribute `name` in an HLS attribute line: the text after the first
/// `name=` up to the next comma, with double quotes trimmed from both ends.
pub open spec fn spec_attribute_value(line: Seq<char>, name: Seq<char>) -> Option<Seq<char>> {
    let prefix = name + "="@;
    match find_from(line, prefix, 0) {
        Some(i) => {
            let value = line.subrange(i + prefix.len(), line.len() as int);
            let end = match find_from(value, ","@, 0) {
                Some(j) => j,
                None => value.len() as int,
            };
            Some(trim_set(value.subrange(0, end), "\""@))
        },
        None => None,
    }
}

pub fn attribute_value(line: &str, name: &str) -> (r: Option<String>)
    ensures
        opt_view(r) == spec_attribute_value(line@, name@),
{
    let lv = chars_of(line);
    let mut pv = chars_of(name);
    push_all(&mut pv, "=");
    match find_chars(&lv, &pv, 0) {
        None => None,
        Some(i) => {
            proof {
                lemma_find_from_bounds(lv@, pv@, 0);
            }
            let value = slice_chars(&lv, i + pv.len(), lv.len());
            let comma = chars_of(",");
            let end = match find_chars(&value, &comma, 0) {
                Some(j) => j,
                None => value.len(),
            };
            proof {
                lemma_find_from_bounds(value@, comma@, 0);
            }
            let head = slice_chars(&value, 0, end);
            let quote = chars_of("\"");
            let trimmed = trim_set_chars(&head, &quote);
            Some(string_of(trimmed.as_slice()))
        },
    }
}

/// `str::split_once` at the first occurrence of `c`.
pub open spec fn split_once(s: Seq<char>, c: char) -> Option<(Seq<char>, Seq<char>)> {
    match find_from(s, seq![c], 0) {
        Some(i) => Some((s.subrange(0, i), s.subrange(i + 1, s.len() as int))),
        None => None,
    }
}

/// An attribute parsed as `u64`, zero where it is missing or does not parse.
pub open spec fn attribute_u64_or_zero(line: Seq<char>, name: Seq<char>) -> nat {
    match spec_attribute_value(line, name) {
        Some(v) => match parse_u64_spec(v) {
            Some(n) => n as nat,
            None => 0,
        },
        None => 0,
    }
}

/// Width times height of `RESOLUTION=WxH`, zero where it is missing or malformed.
pub open spec fn resolution_pixels(line: Seq<char>) -> nat {
    match spec_attribute_value(line, "RESOLUTION"@) {
        Some(v) => match split_once(v, 'x') {
            Some((w, h)) => match (parse_u64_spec(w), parse_u64_spec(h)) {
                (Some(a), Some(b)) => (a * b) as nat,
                _ => 0,
            },
            None => 0,
        },
        None => 0,
    }
}

/// `u64` saturating at its maximum.
pub open spec fn saturate(x: nat) -> nat {
    if x > u64::MAX {
        u64::MAX as nat
    } else {
        x
    }
}

/// The preference of a variant: pixels weigh ten million times a bit per second, and
/// both saturate at `u64::MAX`.
pub open spec fn spec_stream_inf_score(line: Seq<char>) -> nat {
    saturate(
        saturate(resolution_pixels(line) * 10_000_000) + attribute_u64_or_zero(
            line,
            "BANDWIDTH"@,
        ),
    )
}

/// The pixel count of the line fits in `u64` (the product is not checked for overflow).
pub open spec fn score_fits(line: Seq<char>) -> bool {
    resolution_pixels(line) <= u64::MAX
}

fn split_once_chars(v: &Vec<char>, c: char) -> (r: Option<(Vec<char>, Vec<char>)>)
    ensures
        match r {
            Some((a, b)) => split_once(v@, c) == Some((a@, b@)),
            None => split_once(v@, c) is None,
        },
{
    let n = v.len();
    let mut pat: Vec<char> = Vec::new();
    pat.push(c);
    assert(pat@ =~= seq![c]);
    match find_chars(v, &pat, 0) {
        Some(i) => {
            proof {
                lemma_find_from_bounds(v@, pat@, 0);
                assert(matches_at(v@, pat@, i as int));
                assert(pat@.len() == 1);
                assert(i + 1 <= v@.len());
            }
            Some((slice_chars(v, 0, i), slice_chars(v, i + 1, n)))
        },
        None => None,
    }
}

fn parse_attr_u64(v: &Option<String>) -> (r: Option<u64>)
    ensures
        r == (match opt_view(*v) {
            Some(s) => parse_u64_spec(s),
            None => None,
        }),
{
    match v {
        Some(s) => parse_u64(&chars_of(s.as_str())),
        None => None,
    }
}

/// The score of an `#EXT-X-STREAM-INF` line.
pub fn stream_inf_score(line: &str) -> (r: u64)
    requires
        score_fits(line@),
    ensures
        r == spec_stream_inf_score(line@),
{
    let bandwidth: u64 = match parse_attr_u64(&attribute_value(line, "BANDWIDTH")) {
        Some(n) => n,
        None => 0,
    };
    let resolution = attribute_value(line, "RESOLUTION");
    let pixels: u64 = match resolution {
        Some(value) => match split_once_chars(&chars_of(value.as_str()), 'x') {
            Some((w, h)) => match parse_u64(&w) {
                Some(a) => match parse_u64(&h) {
                    Some(b) => {
                        assert(resolution_pixels(line@) == a * b);
                        a * b
                    },
                    None => 0,
                },
                None => 0,
            },
            None => 0,
        },
        None => 0,
    };
    assert(pixels == resolution_pixels(line@));
    let scaled: u64 = if pixels > u64::MAX / 10_000_000 {
        assert(pixels * 10_000_000 > u64::MAX) by (nonlinear_arith)
            requires
                pixels > u64::MAX / 10_000_000,
        ;
        u64::MAX
    } else {
        assert(pixels * 10_000_000 <= u64::MAX) by (nonlinear_arith)
            requires
                pixels <= u64::MAX / 10_000_000,
        ;
        pixels * 10_000_000
    };
    if scaled > u64::MAX - bandwidth {
        u64::MAX
    } else {
        scaled + bandwidth
    }
}

/// `fmt` of a segment index, zero-padded to five digits: `seg00042.ts`.
pub open spec fn spec_segment_name(index: nat) -> Seq<char> {
    "seg"@ + zero_pad(crate::text::decimal(index), 5) + ".ts"@
}

/// Left-pads with `'0'` up to `width` characters.
pub open spec fn zero_pad(s: Seq<char>, width: nat) -> Seq<char> {
    if s.len() >= width {
        s
    } else {
        Seq::new((width - s.len()) as nat, |i: int| '0') + s
    }
}

pub fn segment_name(index: usize) -> (r: String)
    ensures
        r@ == spec_segment_name(index as nat),
{
    let digits = crate::text::decimal_chars(index as u64);
    let mut out = chars_of("seg");
    let ghost start = out@;
    let mut k: usize = digits.len();
    while k < 5
        invariant
            digits.len() <= k,
            k <= 5 || k == digits.len(),
            out@ == start + Seq::new((k - digits.len()) as nat, |i: int| '0'),
        decreases 5 - k,
    {
        out.push('0');
        k = k + 1;
        assert(out@ =~= start + Seq::new((k - digits.len()) as nat, |i: int| '0'));
    }
    let ghost padded = zero_pad(digits@, 5);
    assert(start + Seq::new((k - digits.len()) as nat, |i: int| '0') + digits@ =~= start + padded);
    crate::text::push_chars(&mut out, &digits);
    push_all(&mut out, ".ts");
    string_of(out.as_slice())
}

/// The (score, reference) pairs of the lines from `ls` on: each line that is neither
/// blank nor a comment and follows an `#EXT-X-STREAM-INF` line, scored by that line.
pub open spec fn variant_choices_from(ls: Seq<Seq<char>>, pending: Option<nat>) -> Seq<(nat, Seq<char>)>
    decreases ls.len(),
{
    if ls.len() == 0 {
        seq![]
    } else {
        let t = trim(ls[0]);
        let rest = ls.drop_first();
        if starts_with(t, "#EXT-X-STREAM-INF"@) {
            variant_choices_from(rest, Some(spec_stream_inf_score(t)))
        } else if t.len() == 0 || starts_with(t, "#"@) {
            variant_choices_from(rest, pending)
        } else {
            match pending {
                Some(score) => seq![(score, t)] + variant_choices_from(rest, None),
                None => variant_choices_from(rest, None),
            }
        }
    }
}

/// The scored variant references of a master playlist, in order.
pub open spec fn spec_variant_choices(text: Seq<char>) -> Seq<(nat, Seq<char>)> {
    variant_choices_from(lines(text), None)
}

/// Every `#EXT-X-STREAM-INF` line of the text has a pixel count that fits in `u64`.
pub open spec fn master_scores_fit(text: Seq<char>) -> bool {
    forall|i: int|
        0 <= i < lines(text).len() && starts_with(trim(#[trigger] lines(text)[i]), "#EXT-X-STREAM-INF"@)
            ==> score_fits(trim(lines(text)[i]))
}

/// The view of scored references.
pub open spec fn choice_views(v: Seq<(u64, String)>) -> Seq<(nat, Seq<char>)> {
    v.map_values(|p: (u64, String)| (p.0 as nat, p.1@))
}

/// The scored variant references of a master playlist.
pub fn master_variant_choices(text: &str) -> (r: Vec<(u64, String)>)
    requires
        master_scores_fit(text@),
    ensures
        choice_views(r@) == spec_variant_choices(text@),
{
    let v = chars_of(text);
    let ls = split_lines(&v);
    let ghost all = lines(text@);
    let mut out: Vec<(u64, String)> = Vec::new();
    let mut pending: Option<u64> = None;
    let stream_inf = chars_of("#EXT-X-STREAM-INF");
    let hash = chars_of("#");
    let mut i: usize = 0;
    proof {
        assert(all.skip(0) =~= all);
    }
    while i < ls.len()
        invariant
            v@ == text@,
            all == lines(text@),
            ls@.len() == all.len(),
            forall|k: int| 0 <= k < ls@.len() ==> (#[trigger] ls@[k])@ == all[k],
            master_scores_fit(text@),
            stream_inf@ == "#EXT-X-STREAM-INF"@,
            hash@ == "#"@,
            i <= ls.len(),
            choice_views(out@) + variant_choices_from(
                all.skip(i as int),
                match pending {
                    Some(p) => Some(p as nat),
                    None => None,
                },
            ) == spec_variant_choices(text@),
        decreases ls.len() - i,
    {
        let ghost pend = match pending {
            Some(p) => Some(p as nat),
            None => None,
        };
        let ghost before = choice_views(out@);
        let t = trim_chars(&ls[i]);
        proof {
            assert(all.skip(i as int)[0] == all[i as int]);
            assert(all.skip(i as int).drop_first() =~= all.skip(i + 1));
            assert(t@ == trim(all[i as int]));
        }
        if starts_with_chars(&t, &stream_inf) {
            let line = string_of(t.as_slice());
            let score = stream_inf_score(line.as_str());
            pending = Some(score);
        } else if t.len() == 0 || starts_with_chars(&t, &hash) {
        } else {
            match pending {
                Some(score) => {
                    out.push((score, string_of(t.as_slice())));
                    proof {
                        assert(choice_views(out@) =~= before + seq![(score as nat, t@)]);
                    }
                },
                None => {},
            }
            pending = None;
        }
        i = i + 1;
    }
    proof {
        assert(all.skip(i as int) =~= Seq::<Seq<char>>::empty());
        assert(choice_views(out@) + seq![] =~= choice_views(out@));
    }
    out
}

/// The index of the first highest score.
pub open spec fn best_index(scores: Seq<nat>) -> Option<int>
    decreases scores.len(),
{
    if scores.len() == 0 {
        None
    } else {
        match best_index(scores.drop_last()) {
            None => Some(scores.len() - 1),
            Some(j) => if scores.last() > scores[j] {
                Some(scores.len() - 1)
            } else {
                Some(j)
            },
        }
    }
}

pub proof fn lemma_best_index_bounds(scores: Seq<nat>)
    ensures
        best_index(scores) matches Some(j) ==> 0 <= j < scores.len(),
        best_index(scores) is None <==> scores.len() == 0,
    decreases scores.len(),
{
    if scores.len() > 0 {
        lemma_best_index_bounds(scores.drop_last());
    }
}

/// Scores as natural numbers.
pub open spec fn score_views(v: Seq<u64>) -> Seq<nat> {
    v.map_values(|x: u64| x as nat)
}

/// The position of the variant to download: the first one with the highest score.
pub fn best_variant(scores: &Vec<u64>) -> (r: Option<usize>)
    ensures
        match r {
            Some(i) => best_index(score_views(scores@)) == Some(i as int),
            None => best_index(score_views(scores@)) is None,
        },
{
    let mut best: Option<usize> = None;
    let mut i: usize = 0;
    while i < scores.len()
        invariant
            i <= scores.len(),
            match best {
                Some(b) => best_index(score_views(scores@.take(i as int))) == Some(b as int),
                None => best_index(score_views(scores@.take(i as int))) is None,
            },
        decreases scores.len() - i,
    {
        let ghost pre = score_views(scores@.take(i as int));
        let ghost post = score_views(scores@.take(i + 1));
        proof {
            assert(post.drop_last() =~= pre);
            assert(post.last() == scores@[i as int] as nat);
            lemma_best_index_bounds(pre);
        }
        match best {
            None => {
                best = Some(i);
            },
            Some(b) => {
                assert(post[b as int] == scores@[b as int] as nat);
                if scores[i] > scores[b] {
                    best = Some(i);
                }
            },
        }
        i = i + 1;
    }
    assert(scores@.take(scores.len() as int) =~= scores@);
    best
}

/// The position of the first reference that does not resolve against `base`.
pub open spec fn first_join_failure(base: Seq<char>, cs: Seq<(nat, Seq<char>)>) -> Option<int>
    decreases cs.len(),
{
    if cs.len() == 0 {
        None
    } else if url_join(base, cs[0].1) is None {
        Some(0)
    } else {
        match first_join_failure(base, cs.drop_first()) {
            Some(k) => Some(k + 1),
            None => None,
        }
    }
}

/// The variant a master playlist leads to: the first reference that does not resolve
/// fails the choice; else the resolved reference with the first highest score.
pub open spec fn spec_master_variant(base: Seq<char>, text: Seq<char>) -> Result<Seq<char>, Seq<char>> {
    let cs = spec_variant_choices(text);
    match first_join_failure(base, cs) {
        Some(k) => Err("无法解析 master playlist variant："@ + cs[k].1),
        None => match best_index(cs.map_values(|p: (nat, Seq<char>)| p.0)) {
            Some(i) => match url_join(base, cs[i].1) {
                Some(u) => Ok(u),
                None => Err(seq![]),
            },
            None => Err("master playlist 中没有找到可用 variant。"@),
        },
    }
}

proof fn lemma_first_join_failure_step(base: Seq<char>, cs: Seq<(nat, Seq<char>)>, i: int)
    requires
        0 <= i < cs.len(),
        first_join_failure(base, cs.take(i)) is None,
    ensures
        url_join(base, cs[i].1) is None ==> first_join_failure(base, cs) == Some(i),
        url_join(base, cs[i].1) is Some ==> first_join_failure(base, cs.take(i + 1)) is None,
    decreases i,
{
    if i > 0 {
        assert(cs.take(i).drop_first() =~= cs.drop_first().take(i - 1));
        assert(cs.take(i)[0] == cs[0]);
        assert(url_join(base, cs[0].1) is Some);
        assert(cs.drop_first()[i - 1] == cs[i]);
        lemma_first_join_failure_step(base, cs.drop_first(), i - 1);
        assert(cs.take(i + 1).drop_first() =~= cs.drop_first().take(i));
        assert(cs.take(i + 1)[0] == cs[0]);
        if url_join(base, cs[i].1) is None {
            assert(first_join_failure(base, cs.drop_first()) == Some(i - 1));
        } else {
            assert(first_join_failure(base, cs.take(i + 1).drop_first()) is None);
        }
    } else {
        assert(cs.take(1).drop_first() =~= Seq::<(nat, Seq<char>)>::empty());
        assert(first_join_failure(base, cs.take(1).drop_first()) is None);
        assert(cs.take(1)[0] == cs[0]);
    }
}

/// Picks the variant to download from a master playlist, resolving references against
/// the master playlist's URL.
pub fn select_master_variant(master_url: &WebUrl, text: &str) -> (r: Result<WebUrl, String>)
    requires
        master_scores_fit(text@),
    ensures
        match r {
            Ok(u) => spec_master_variant(master_url@, text@) == Ok::<Seq<char>, Seq<char>>(u@),
            Err(e) => spec_master_variant(master_url@, text@) == Err::<Seq<char>, Seq<char>>(e@),
        },
{
    let choices = master_variant_choices(text);
    let ghost cs = spec_variant_choices(text@);
    let mut urls: Vec<WebUrl> = Vec::new();
    let mut scores: Vec<u64> = Vec::new();
    let mut i: usize = 0;
    while i < choices.len()
        invariant
            choice_views(choices@) == cs,
            cs == spec_variant_choices(text@),
            i <= choices.len(),
            urls@.len() == i,
            scores@.len() == i,
            first_join_failure(master_url@, cs.take(i as int)) is None,
            forall|k: int| 0 <= k < i ==> url_join(master_url@, cs[k].1) == Some((#[trigger] urls@[k])@),
            forall|k: int| 0 <= k < i ==> (#[trigger] scores@[k]) as nat == cs[k].0,
        decreases choices.len() - i,
    {
        let reference = &choices[i].1;
        assert(cs[i as int] == (choices@[i as int].0 as nat, choices@[i as int].1@));
        proof {
            lemma_first_join_failure_step(master_url@, cs, i as int);
        }
        match master_url.join(reference.as_str()) {
            Some(u) => {
                urls.push(u);
                scores.push(choices[i].0);
            },
            None => {
                return Err(concat("无法解析 master playlist variant：", reference.as_str()));
            },
        }
        i = i + 1;
    }
    proof {
        assert(cs.take(i as int) =~= cs);
        assert(score_views(scores@) =~= cs.map_values(|p: (nat, Seq<char>)| p.0));
    }
    match best_variant(&scores) {
        Some(b) => {
            proof {
                lemma_best_index_bounds(score_views(scores@));
                assert(first_join_failure(master_url@, cs) is None);
                assert(best_index(cs.map_values(|p: (nat, Seq<char>)| p.0)) == Some(b as int));
                assert(url_join(master_url@, cs[b as int].1) == Some(urls@[b as int]@));
            }
            let chosen = urls[b].clone();
            assert(chosen@ == urls@[b as int]@);
            assert(spec_master_variant(master_url@, text@) == Ok::<Seq<char>, Seq<char>>(chosen@));
            Ok(chosen)
        },
        None => Err(String::from_str("master playlist 中没有找到可用 variant。")),
    }
}

/// Whether the pixel count of a line fits in `u64`.
pub fn stream_inf_fits(line: &str) -> (r: bool)
    ensures
        r == score_fits(line@),
{
    match attribute_value(line, "RESOLUTION") {
        Some(value) => match split_once_chars(&chars_of(value.as_str()), 'x') {
            Some((w, h)) => match (parse_u64(&w), parse_u64(&h)) {
                (Some(a), Some(b)) => {
                    assert(resolution_pixels(line@) == a * b);
                    if b == 0 {
                        assert(a * b == 0) by (nonlinear_arith)
                            requires
                                b == 0,
                        ;
                        true
                    } else if a <= u64::MAX / b {
                        assert(a * b <= u64::MAX) by (nonlinear_arith)
                            requires
                                a <= u64::MAX / b,
                                b > 0,
                        ;
                        true
                    } else {
                        assert(a * b > u64::MAX) by (nonlinear_arith)
                            requires
                                a > u64::MAX / b,
                                b > 0,
                        ;
                        false
                    }
                },
                _ => true,
            },
            None => true,
        },
        None => true,
    }
}

/// Whether every `#EXT-X-STREAM-INF` line of a playlist has a pixel count that fits in
/// `u64`.
pub fn master_scores_fit_check(text: &str) -> (r: bool)
    ensures
        r == master_scores_fit(text@),
{
    let v = chars_of(text);
    let ls = split_lines(&v);
    let ghost all = lines(text@);
    let stream_inf = chars_of("#EXT-X-STREAM-INF");
    let mut i: usize = 0;
    while i < ls.len()
        invariant
            v@ == text@,
            all == lines(text@),
            ls@.len() == all.len(),
            forall|k: int| 0 <= k < ls@.len() ==> (#[trigger] ls@[k])@ == all[k],
            stream_inf@ == "#EXT-X-STREAM-INF"@,
            i <= ls.len(),
            forall|k: int|
                0 <= k < i && starts_with(trim(#[trigger] all[k]), "#EXT-X-STREAM-INF"@) ==> score_fits(
                    trim(all[k]),
                ),
        decreases ls.len() - i,
    {
        let t = trim_chars(&ls[i]);
        assert(t@ == trim(all[i as int]));
        if starts_with_chars(&t, &stream_inf) {
            let line = string_of(t.as_slice());
            if !stream_inf_fits(line.as_str()) {
                return false;
            }
        }
        i = i + 1;
    }
    true
}

} // verus!

verus! {

/// The position `best_index` picks holds a highest score, and every earlier position
/// holds a lower one.
pub proof fn lemma_best_index_is_first_highest(scores: Seq<nat>)
    ensures
        best_index(scores) matches Some(i) ==> (forall|j: int| 0 <= j < scores.len() ==> scores[j] <= scores[i])
            && (forall|j: int| 0 <= j < i ==> scores[j] < scores[i]),
    decreases scores.len(),
{
    if scores.len() > 0 {
        let pre = scores.drop_last();
        lemma_best_index_is_first_highest(pre);
        lemma_best_index_bounds(pre);
        match best_index(pre) {
            None => {
                assert(pre.len() == 0);
            },
            Some(b) => {
                assert(forall|j: int| 0 <= j < pre.len() ==> pre[j] == scores[j]);
            },
        }
    }
}

/// Position `i` holds a highest score, and every earlier position a lower one.
pub open spec fn is_first_best(cs: Seq<(nat, Seq<char>)>, i: int) -> bool {
    &&& 0 <= i < cs.len()
    &&& forall|j: int| 0 <= j < cs.len() ==> (#[trigger] cs[j]).0 <= cs[i].0
    &&& forall|j: int| 0 <= j < i ==> (#[trigger] cs[j]).0 < cs[i].0
}

/// A master playlist leads to its best variant: where the choice succeeds, the chosen
/// URL resolves the first variant with the highest score.
pub proof fn lemma_master_variant_is_best(base: Seq<char>, text: Seq<char>)
    ensures
        spec_master_variant(base, text) matches Ok(u) ==> exists|i: int|
            is_first_best(spec_variant_choices(text), i) && #[trigger] url_join(
                base,
                spec_variant_choices(text)[i].1,
            ) == Some(u),
{
    let cs = spec_variant_choices(text);
    let scores = cs.map_values(|p: (nat, Seq<char>)| p.0);
    lemma_best_index_is_first_highest(scores);
    lemma_best_index_bounds(scores);
    if spec_master_variant(base, text) is Ok {
        if first_join_failure(base, cs) is None {
            match best_index(scores) {
                Some(i) => {
                    assert(forall|j: int| 0 <= j < cs.len() ==> scores[j] == (#[trigger] cs[j]).0);
                    assert(is_first_best(cs, i));
                    assert(url_join(base, cs[i].1) is Some);
                },
                None => {},
            }
        }
    }
}

} // verus!
