//! Finding playlist addresses in page text.
use vstd::prelude::*;
use vstd::utf8::{
    decode_utf8, encode_utf8, encode_utf8_decode_utf8, encode_utf8_valid_utf8, is_char_boundary,
    is_char_boundary_iff_not_is_continuation_byte, is_char_boundary_start_end_of_seq,
    is_continuation_byte, valid_utf8, valid_utf8_split, encode_scalar,
};
use crate::text::{
    chars_of, is_whitespace, is_ws, matches_at, matches_at_exec, push_all, push_chars,
    starts_with, string_of, trim_set, trim_set_chars,
};
use crate::headers::ascii_lower;
use crate::urls::{url_join, WebUrl};

verus! {

/// `str::replace` with a string pattern: leftmost non-overlapping matches replaced.
pub open spec fn replace_str(s: Seq<char>, pat: Seq<char>, with: Seq<char>) -> Seq<char>
    decreases s.len(),
{
    if s.len() == 0 {
        seq![]
    } else if pat.len() > 0 && starts_with(s, pat) {
        with + replace_str(s.skip(pat.len() as int), pat, with)
    } else {
        seq![s[0]] + replace_str(s.drop_first(), pat, with)
    }
}

/// `str::replace` with a string pattern, on a character vector.
pub fn replace_str_chars(v: &Vec<char>, pat: &str, with: &str) -> (r: Vec<char>)
    ensures
        r@ == replace_str(v@, pat@, with@),
{
    let p = chars_of(pat);
    let w = chars_of(with);
    let mut out: Vec<char> = Vec::new();
    let mut i: usize = 0;
    assert(v@.skip(0) =~= v@);
    while i < v.len()
        invariant
            i <= v.len(),
            p@ == pat@,
            w@ == with@,
            out@ + replace_str(v@.skip(i as int), pat@, with@) == replace_str(v@, pat@, with@),
        decreases v.len() - i,
    {
        let ghost rest = v@.skip(i as int);
        let ghost before = out@;
        if p.len() > 0 && matches_at_exec(v, &p, i) {
            proof {
                assert(rest.subrange(0, p@.len() as int) =~= v@.subrange(i as int, i + p@.len()));
                assert(rest.skip(p@.len() as int) =~= v@.skip(i + p@.len()));
                assert(before + (w@ + replace_str(rest.skip(p@.len() as int), pat@, with@))
                    =~= (before + w@) + replace_str(v@.skip(i + p@.len()), pat@, with@));
            }
            push_chars(&mut out, &w);
            i = i + p.len();
        } else {
            proof {
                if p@.len() > 0 {
                    assert(!starts_with(rest, pat@)) by {
                        if starts_with(rest, pat@) {
                            assert(rest.subrange(0, p@.len() as int) =~= v@.subrange(
                                i as int,
                                i + p@.len(),
                            ));
                        }
                    }
                }
                assert(rest.drop_first() =~= v@.skip(i + 1));
                assert(rest[0] == v@[i as int]);
                assert(before + (seq![v@[i as int]] + replace_str(rest.drop_first(), pat@, with@))
                    =~= before.push(v@[i as int]) + replace_str(v@.skip(i + 1), pat@, with@));
            }
            out.push(v[i]);
            i = i + 1;
        }
    }
    proof {
        assert(v@.skip(i as int) =~= Seq::<char>::empty());
        assert(out@ + Seq::<char>::empty() =~= out@);
    }
    out
}

/// Page text with JSON escapes and HTML `&amp;` undone, as playlist links appear in it.
pub open spec fn spec_normalize_candidate_text(text: Seq<char>) -> Seq<char> {
    replace_str(
        replace_str(
            replace_str(
                replace_str(replace_str(text, "\\/"@, "/"@), "\\u0026"@, "&"@),
                "\\u003d"@,
                "="@,
            ),
            "\\u003f"@,
            "?"@,
        ),
        "&amp;"@,
        "&"@,
    )
}

pub fn normalize_candidate_text(text: &str) -> (r: String)
    ensures
        r@ == spec_normalize_candidate_text(text@),
{
    let a = replace_str_chars(&chars_of(text), "\\/", "/");
    let b = replace_str_chars(&a, "\\u0026", "&");
    let c = replace_str_chars(&b, "\\u003d", "=");
    let d = replace_str_chars(&c, "\\u003f", "?");
    let e = replace_str_chars(&d, "&amp;", "&");
    string_of(e.as_slice())
}

/// A byte that ends a candidate address, read as a `char`: whitespace, a quote, a
/// backquote, an angle bracket, a comma or a semicolon.
pub open spec fn is_stop_byte(b: u8) -> bool {
    is_ws(b as char) || b == 34 || b == 39 || b == 96 || b == 60 || b == 62 || b == 44 || b == 59
}

fn stop_byte(b: u8) -> (r: bool)
    ensures
        r == is_stop_byte(b),
{
    is_whitespace(b as char) || b == 34 || b == 39 || b == 96 || b == 60 || b == 62 || b == 44 || b
        == 59
}

/// Where the address around byte `index` starts: after the nearest stop byte before it.
pub open spec fn spec_candidate_start(bytes: Seq<u8>, index: int) -> int
    decreases index,
{
    if index <= 0 {
        index
    } else if is_stop_byte(bytes[index - 1]) {
        index
    } else {
        spec_candidate_start(bytes, index - 1)
    }
}

/// Where the address from byte `index` on ends: at the nearest stop byte.
pub open spec fn spec_candidate_end(bytes: Seq<u8>, index: int) -> int
    decreases bytes.len() - index,
{
    if index >= bytes.len() || is_stop_byte(bytes[index]) {
        index
    } else {
        spec_candidate_end(bytes, index + 1)
    }
}

pub proof fn lemma_candidate_bounds(bytes: Seq<u8>, index: int)
    requires
        0 <= index,
    ensures
        0 <= spec_candidate_start(bytes, index) <= index,
        index <= spec_candidate_end(bytes, index),
        index <= bytes.len() ==> spec_candidate_end(bytes, index) <= bytes.len(),
    decreases index,
{
    lemma_candidate_start_bounds(bytes, index);
    lemma_candidate_end_bounds(bytes, index);
}

proof fn lemma_candidate_start_bounds(bytes: Seq<u8>, index: int)
    requires
        0 <= index,
    ensures
        0 <= spec_candidate_start(bytes, index) <= index,
    decreases index,
{
    if index > 0 && !is_stop_byte(bytes[index - 1]) {
        lemma_candidate_start_bounds(bytes, index - 1);
    }
}

proof fn lemma_candidate_end_bounds(bytes: Seq<u8>, index: int)
    ensures
        index <= spec_candidate_end(bytes, index),
        index <= bytes.len() ==> spec_candidate_end(bytes, index) <= bytes.len(),
    decreases bytes.len() - index,
{
    if index < bytes.len() && !is_stop_byte(bytes[index]) {
        lemma_candidate_end_bounds(bytes, index + 1);
    }
}

pub fn find_candidate_start(text: &str, index: usize) -> (r: usize)
    requires
        index <= encode_utf8(text@).len(),
    ensures
        r == spec_candidate_start(encode_utf8(text@), index as int),
{
    let bytes = text.as_bytes();
    let mut cursor = index;
    while cursor > 0
        invariant
            cursor <= index <= bytes@.len(),
            bytes@ == encode_utf8(text@),
            spec_candidate_start(bytes@, index as int) == spec_candidate_start(bytes@, cursor as int),
        ensures
            cursor <= index <= bytes@.len(),
            bytes@ == encode_utf8(text@),
            spec_candidate_start(bytes@, index as int) == spec_candidate_start(bytes@, cursor as int),
            cursor == 0 || is_stop_byte(bytes@[cursor - 1]),
        decreases cursor,
    {
        if stop_byte(bytes[cursor - 1]) {
            break;
        }
        cursor = cursor - 1;
    }
    cursor
}

pub fn find_candidate_end(text: &str, index: usize) -> (r: usize)
    ensures
        r == spec_candidate_end(encode_utf8(text@), index as int),
{
    let bytes = text.as_bytes();
    let mut cursor = index;
    while cursor < bytes.len()
        invariant
            index <= cursor,
            bytes@ == encode_utf8(text@),
            spec_candidate_end(bytes@, index as int) == spec_candidate_end(bytes@, cursor as int),
        ensures
            bytes@ == encode_utf8(text@),
            spec_candidate_end(bytes@, index as int) == spec_candidate_end(bytes@, cursor as int),
            cursor >= bytes@.len() || is_stop_byte(bytes@[cursor as int]),
        decreases bytes@.len() - cursor,
    {
        if stop_byte(bytes[cursor]) {
            break;
        }
        cursor = cursor + 1;
    }
    cursor
}

/// `str::to_lowercase` (Unicode lower case; a function of the string alone).
pub uninterp spec fn lowercase(s: Seq<char>) -> Seq<char>;

/// Every character is ASCII.
pub open spec fn is_ascii_text(s: Seq<char>) -> bool {
    forall|i: int| 0 <= i < s.len() ==> (#[trigger] s[i]) as u32 <= 0x7F
}

/// `str::to_lowercase`. Its result is named; on ASCII text it is what std documents
/// for ASCII characters: `A` to `Z` become `a` to `z`, every other character stays.
#[verifier::external_body]
pub(crate) fn to_lowercase(s: &str) -> (r: String)
    ensures
        r@ == lowercase(s@),
        is_ascii_text(s@) ==> r@ == ascii_lower(s@),
{
    s.to_lowercase()
}

/// The first position at or after `from` where the bytes `pat` occur.
pub open spec fn byte_find(h: Seq<u8>, pat: Seq<u8>, from: int) -> Option<int>
    decreases h.len() + 1 - from,
{
    if from < 0 || from + pat.len() > h.len() {
        None
    } else if h.subrange(from, from + pat.len()) == pat {
        Some(from)
    } else {
        byte_find(h, pat, from + 1)
    }
}

pub proof fn lemma_byte_find_bounds(h: Seq<u8>, pat: Seq<u8>, from: int)
    ensures
        byte_find(h, pat, from) matches Some(i) ==> from <= i && i + pat.len() <= h.len(),
    decreases h.len() + 1 - from,
{
    if from < 0 || from + pat.len() > h.len() {
    } else if h.subrange(from, from + pat.len()) == pat {
    } else {
        lemma_byte_find_bounds(h, pat, from + 1);
    }
}

fn find_bytes(h: &[u8], pat: &Vec<u8>, from: usize) -> (r: Option<usize>)
    ensures
        match r {
            Some(i) => byte_find(h@, pat@, from as int) == Some(i as int),
            None => byte_find(h@, pat@, from as int) is None,
        },
{
    let mut i = from;
    while i <= h.len() && pat.len() <= h.len() - i
        invariant
            from <= i,
            byte_find(h@, pat@, from as int) == byte_find(h@, pat@, i as int),
        decreases h@.len() + 1 - i,
    {
        let mut k: usize = 0;
        let mut same = true;
        let n = h.len();
        while k < pat.len()
            invariant
                n == h@.len(),
                i + pat@.len() <= h@.len(),
                k <= pat@.len(),
                same == (forall|j: int| 0 <= j < k ==> h@[i + j] == pat@[j]),
            decreases pat@.len() - k,
        {
            if h[i + k] != pat[k] {
                same = false;
            }
            k = k + 1;
        }
        if same {
            assert(h@.subrange(i as int, i + pat@.len()) =~= pat@);
            return Some(i);
        }
        assert(h@.subrange(i as int, i + pat@.len()) != pat@) by {
            let j = choose|j: int| 0 <= j < pat@.len() && h@[i + j] != pat@[j];
            assert(h@.subrange(i as int, i + pat@.len())[j] != pat@[j]);
        }
        if i == h.len() {
            return None;
        }
        i = i + 1;
    }
    None
}

/// The bytes `.m3u8`.
pub open spec fn m3u8_bytes() -> Seq<u8> {
    seq![46u8, 109u8, 51u8, 117u8, 56u8]
}

/// The characters trimmed from both ends of a candidate address.
pub open spec fn candidate_trim_set() -> Seq<char> {
    seq!['"', '\'', '`', '(', ')', '[', ']', '{', '}']
}

/// Where the search resumes after the address found at `index`.
pub open spec fn next_offset(nb: Seq<u8>, lb: Seq<u8>, index: int) -> int {
    let end = spec_candidate_end(nb, index + 5);
    if end < lb.len() {
        end
    } else {
        lb.len() as int
    }
}

/// The search over the normalized page text (`nb`) by way of its lower-case form
/// (`lb`) slices both texts on character boundaries only, from `offset` on.
pub open spec fn scan_ok(nb: Seq<u8>, lb: Seq<u8>, offset: int) -> bool
    decreases lb.len() - offset,
{
    if offset < 0 || offset > lb.len() || !is_char_boundary(lb, offset) {
        false
    } else {
        match byte_find(lb, m3u8_bytes(), offset) {
            None => true,
            Some(index) => {
                let start = spec_candidate_start(nb, index);
                let end = spec_candidate_end(nb, index + 5);
                let no = next_offset(nb, lb, index);
                if index + 5 <= nb.len() && is_char_boundary(nb, start) && is_char_boundary(nb, end)
                    && offset < no && no <= lb.len() {
                    scan_ok(nb, lb, no)
                } else {
                    false
                }
            },
        }
    }
}

/// The addresses found from `offset` on, in order: around each `.m3u8` in the lower-case
/// text, the normalized text up to the nearest stop bytes, with quotes and brackets
/// trimmed.
pub open spec fn scan_raws(nb: Seq<u8>, lb: Seq<u8>, offset: int) -> Seq<Seq<char>>
    decreases lb.len() - offset,
{
    if offset < 0 || offset > lb.len() {
        seq![]
    } else {
        match byte_find(lb, m3u8_bytes(), offset) {
            None => seq![],
            Some(index) => {
                let start = spec_candidate_start(nb, index);
                let end = spec_candidate_end(nb, index + 5);
                let no = next_offset(nb, lb, index);
                let raw = trim_set(decode_utf8(nb.subrange(start, end)), candidate_trim_set());
                if offset < no && no <= lb.len() {
                    seq![raw] + scan_raws(nb, lb, no)
                } else {
                    seq![raw]
                }
            },
        }
    }
}

/// `u` added at the end unless it is already there.
pub open spec fn add_unique(acc: Seq<Seq<char>>, u: Seq<char>) -> Seq<Seq<char>> {
    if acc.contains(u) {
        acc
    } else {
        acc.push(u)
    }
}

/// The addresses resolved against `base`, those that do not resolve left out, each
/// kept once, in order of first appearance.
pub open spec fn joined_unique(acc: Seq<Seq<char>>, base: Seq<char>, raws: Seq<Seq<char>>) -> Seq<Seq<char>>
    decreases raws.len(),
{
    if raws.len() == 0 {
        acc
    } else {
        let next = match url_join(base, raws[0]) {
            Some(u) => add_unique(acc, u),
            None => acc,
        };
        joined_unique(next, base, raws.drop_first())
    }
}

/// The UTF-8 bytes of the normalized page text.
pub open spec fn normalized_bytes(text: Seq<char>) -> Seq<u8> {
    encode_utf8(spec_normalize_candidate_text(text))
}

/// The UTF-8 bytes of the lower-case normalized page text.
pub open spec fn lower_bytes(text: Seq<char>) -> Seq<u8> {
    encode_utf8(lowercase(spec_normalize_candidate_text(text)))
}

/// The page text can be scanned without slicing inside a character (it can where lower
/// casing keeps every character's encoded length, as it does for ASCII text).
pub open spec fn candidates_scannable(text: Seq<char>) -> bool {
    scan_ok(normalized_bytes(text), lower_bytes(text), 0)
}

/// The playlist addresses in a page, resolved against the page URL.
pub open spec fn spec_collect_m3u8_candidates(base: Seq<char>, text: Seq<char>) -> Seq<Seq<char>> {
    joined_unique(seq![], base, scan_raws(normalized_bytes(text), lower_bytes(text), 0))
}

/// The serializations of URLs.
pub open spec fn url_views(v: Seq<WebUrl>) -> Seq<Seq<char>> {
    v.map_values(|u: WebUrl| u@)
}

/// Adds a URL unless an equal one is there.
pub fn push_unique_url(urls: &mut Vec<WebUrl>, url: WebUrl)
    ensures
        url_views(final(urls)@) == add_unique(url_views(old(urls)@), url@),
{
    let mut i: usize = 0;
    while i < urls.len()
        invariant
            i <= urls@.len(),
            forall|j: int| 0 <= j < i ==> urls@[j]@ != url@,
        decreases urls@.len() - i,
    {
        if urls[i].same(&url) {
            assert(url_views(urls@)[i as int] == url@);
            return;
        }
        i = i + 1;
    }
    let ghost before = urls@;
    assert(!url_views(before).contains(url@)) by {
        if url_views(before).contains(url@) {
            let j = choose|j: int| 0 <= j < url_views(before).len() && url_views(before)[j] == url@;
            assert(before[j]@ == url@);
        }
    }
    urls.push(url);
    assert(url_views(urls@) =~= url_views(before).push(url@));
}

/// The text between two character boundaries.
fn str_slice<'a>(s: &'a str, start: usize, end: usize) -> (r: &'a str)
    requires
        start <= end <= encode_utf8(s@).len(),
        is_char_boundary(encode_utf8(s@), start as int),
        is_char_boundary(encode_utf8(s@), end as int),
    ensures
        r@ == decode_utf8(encode_utf8(s@).subrange(start as int, end as int)),
{
    let ghost bytes = encode_utf8(s@);
    proof {
        encode_utf8_valid_utf8(s@);
        valid_utf8_split(bytes, start as int);
    }
    let (_, rest) = s.split_at(start);
    let ghost rb = bytes.subrange(start as int, bytes.len() as int);
    proof {
        assert(encode_utf8(rest@) == rb);
        if end == bytes.len() {
            is_char_boundary_start_end_of_seq(rb);
            assert(rb.len() == end - start);
        } else if end > start {
            is_char_boundary_iff_not_is_continuation_byte(bytes, end as int);
            is_char_boundary_iff_not_is_continuation_byte(rb, end - start);
            assert(rb[end - start] == bytes[end as int]);
        }
    }
    let (mid, _) = rest.split_at(end - start);
    proof {
        assert(encode_utf8(mid@) =~= bytes.subrange(start as int, end as int));
        encode_utf8_decode_utf8(mid@);
    }
    mid
}

/// The playlist addresses found in a page's text, resolved against the page URL and
/// kept once each.
pub fn collect_m3u8_candidates(base_url: &WebUrl, text: &str) -> (r: Vec<WebUrl>)
    requires
        candidates_scannable(text@),
    ensures
        url_views(r@) == spec_collect_m3u8_candidates(base_url@, text@),
{
    let normalized = normalize_candidate_text(text);
    let lower = to_lowercase(normalized.as_str());
    let nb = normalized.as_str().as_bytes();
    let lb = lower.as_str().as_bytes();
    let mut pat: Vec<u8> = Vec::new();
    pat.push(46);
    pat.push(109);
    pat.push(51);
    pat.push(117);
    pat.push(56);
    assert(pat@ =~= m3u8_bytes());
    let mut set: Vec<char> = Vec::new();
    set.push('"');
    set.push('\'');
    set.push('`');
    set.push('(');
    set.push(')');
    set.push('[');
    set.push(']');
    set.push('{');
    set.push('}');
    assert(set@ =~= candidate_trim_set());
    let ghost nbs = normalized_bytes(text@);
    let ghost lbs = lower_bytes(text@);
    let ghost all = scan_raws(nbs, lbs, 0);
    let mut candidates: Vec<WebUrl> = Vec::new();
    let mut offset: usize = 0;
    let lb_len = lb.len();
    assert(url_views(candidates@) =~= Seq::<Seq<char>>::empty());
    loop
        invariant
            lb_len == lbs.len(),
            nb@ == nbs,
            lb@ == lbs,
            nbs == encode_utf8(normalized@),
            pat@ == m3u8_bytes(),
            set@ == candidate_trim_set(),
            offset <= lbs.len(),
            scan_ok(nbs, lbs, offset as int),
            all == scan_raws(nbs, lbs, 0),
            joined_unique(seq![], base_url@, all) == joined_unique(
                url_views(candidates@),
                base_url@,
                scan_raws(nbs, lbs, offset as int),
            ),
        ensures
            joined_unique(seq![], base_url@, all) == url_views(candidates@),
        decreases lbs.len() - offset,
    {
        match find_bytes(lb, &pat, offset) {
            None => {
                assert(scan_raws(nbs, lbs, offset as int) =~= Seq::<Seq<char>>::empty());
                break;
            },
            Some(index) => {
                proof {
                    lemma_byte_find_bounds(lbs, m3u8_bytes(), offset as int);
                    lemma_candidate_bounds(nbs, index as int);
                    lemma_candidate_bounds(nbs, index + 5);
                }
                let start = find_candidate_start(normalized.as_str(), index);
                let end = find_candidate_end(normalized.as_str(), index + 5);
                let piece = str_slice(normalized.as_str(), start, end);
                let raw = trim_set_chars(&chars_of(piece), &set);
                let ghost acc = url_views(candidates@);
                let ghost rest = scan_raws(nbs, lbs, offset as int);
                let ghost no = next_offset(nbs, lbs, index as int);
                assert(rest[0] == raw@);
                assert(rest.drop_first() =~= scan_raws(nbs, lbs, no));
                let raw_string = string_of(raw.as_slice());
                match base_url.join(raw_string.as_str()) {
                    Some(url) => push_unique_url(&mut candidates, url),
                    None => {},
                }
                offset = if end < lb.len() {
                    end
                } else {
                    lb.len()
                };
            },
        }
    }
    candidates
}

/// Whether a page's text can be scanned for addresses (see `candidates_scannable`).
pub fn candidates_scannable_check(text: &str) -> (r: bool)
    ensures
        r == candidates_scannable(text@),
        is_ascii_text(text@) ==> r,
{
    let normalized = normalize_candidate_text(text);
    let lower = to_lowercase(normalized.as_str());
    proof {
        if is_ascii_text(text@) {
            lemma_normalize_ascii(text@);
            lemma_ascii_text_scannable(text@);
        }
    }
    let nb = normalized.as_str().as_bytes();
    let lb = lower.as_str().as_bytes();
    let mut pat: Vec<u8> = Vec::new();
    pat.push(46);
    pat.push(109);
    pat.push(51);
    pat.push(117);
    pat.push(56);
    assert(pat@ =~= m3u8_bytes());
    let ghost nbs = normalized_bytes(text@);
    let ghost lbs = lower_bytes(text@);
    let lb_len = lb.len();
    let nb_len = nb.len();
    let mut offset: usize = 0;
    loop
        invariant
            lb_len == lbs.len(),
            nb_len == nbs.len(),
            nbs == normalized_bytes(text@),
            lbs == lower_bytes(text@),
            nb@ == nbs,
            lb@ == lbs,
            nbs == encode_utf8(normalized@),
            lbs == encode_utf8(lower@),
            pat@ == m3u8_bytes(),
            offset <= lbs.len(),
            scan_ok(nbs, lbs, 0) == scan_ok(nbs, lbs, offset as int),
            is_ascii_text(text@) ==> candidates_scannable(text@),
        decreases lbs.len() - offset,
    {
        if !lower.as_str().is_char_boundary(offset) {
            return false;
        }
        match find_bytes(lb, &pat, offset) {
            None => {
                return true;
            },
            Some(index) => {
                proof {
                    lemma_byte_find_bounds(lbs, m3u8_bytes(), offset as int);
                }
                if index + 5 > nb_len {
                    return false;
                }
                proof {
                    lemma_candidate_bounds(nbs, index as int);
                    lemma_candidate_bounds(nbs, index + 5);
                }
                let start = find_candidate_start(normalized.as_str(), index);
                let end = find_candidate_end(normalized.as_str(), index + 5);
                if !normalized.as_str().is_char_boundary(start) || !normalized.as_str().is_char_boundary(end) {
                    return false;
                }
                let next = if end < lb_len {
                    end
                } else {
                    lb_len
                };
                if next <= offset {
                    return false;
                }
                offset = next;
            },
        }
    }
}

/// The playlist addresses in a page's text, or `None` where the text cannot be
/// scanned without slicing inside a character (where the scan would stop the program).
pub fn collect_m3u8_candidates_checked(base_url: &WebUrl, text: &str) -> (r: Option<Vec<WebUrl>>)
    ensures
        candidates_scannable(text@) <==> r is Some,
        is_ascii_text(text@) ==> r is Some,
        r matches Some(v) ==> url_views(v@) == spec_collect_m3u8_candidates(base_url@, text@),
{
    if candidates_scannable_check(text) {
        Some(collect_m3u8_candidates(base_url, text))
    } else {
        None
    }
}

proof fn lemma_replace_ascii(s: Seq<char>, pat: Seq<char>, with: Seq<char>)
    requires
        is_ascii_text(s),
        is_ascii_text(with),
    ensures
        is_ascii_text(replace_str(s, pat, with)),
    decreases s.len(),
{
    if s.len() == 0 {
    } else if pat.len() > 0 && starts_with(s, pat) {
        let rest = s.skip(pat.len() as int);
        assert forall|i: int| 0 <= i < rest.len() implies (#[trigger] rest[i]) as u32 <= 0x7F by {
            assert(rest[i] == s[i + pat.len()]);
        }
        lemma_replace_ascii(rest, pat, with);
        let r = with + replace_str(rest, pat, with);
        assert forall|i: int| 0 <= i < r.len() implies (#[trigger] r[i]) as u32 <= 0x7F by {
            if i < with.len() {
                assert(r[i] == with[i]);
            } else {
                assert(r[i] == replace_str(rest, pat, with)[i - with.len()]);
            }
        }
    } else {
        let rest = s.drop_first();
        assert forall|i: int| 0 <= i < rest.len() implies (#[trigger] rest[i]) as u32 <= 0x7F by {
            assert(rest[i] == s[i + 1]);
        }
        lemma_replace_ascii(rest, pat, with);
        let r = seq![s[0]] + replace_str(rest, pat, with);
        assert forall|i: int| 0 <= i < r.len() implies (#[trigger] r[i]) as u32 <= 0x7F by {
            if i == 0 {
                assert(r[0] == s[0]);
            } else {
                assert(r[i] == replace_str(rest, pat, with)[i - 1]);
            }
        }
    }
}

proof fn lemma_normalize_ascii(text: Seq<char>)
    requires
        is_ascii_text(text),
    ensures
        is_ascii_text(spec_normalize_candidate_text(text)),
{
    reveal_strlit("/");
    reveal_strlit("&");
    reveal_strlit("=");
    reveal_strlit("?");
    let a = replace_str(text, "\\/"@, "/"@);
    lemma_replace_ascii(text, "\\/"@, "/"@);
    let b = replace_str(a, "\\u0026"@, "&"@);
    lemma_replace_ascii(a, "\\u0026"@, "&"@);
    let c = replace_str(b, "\\u003d"@, "="@);
    lemma_replace_ascii(b, "\\u003d"@, "="@);
    let d = replace_str(c, "\\u003f"@, "?"@);
    lemma_replace_ascii(c, "\\u003f"@, "?"@);
    lemma_replace_ascii(d, "&amp;"@, "&"@);
}

proof fn lemma_ascii_lower_ascii(s: Seq<char>)
    requires
        is_ascii_text(s),
    ensures
        is_ascii_text(ascii_lower(s)),
        ascii_lower(s).len() == s.len(),
{
    let l = ascii_lower(s);
    assert forall|i: int| 0 <= i < l.len() implies (#[trigger] l[i]) as u32 <= 0x7F by {
        let c = s[i];
        if 'A' <= c && c <= 'Z' {
            let u: u32 = ((c as u32) + 32) as u32;
            assert(u <= 0x7F);
            vstd::utf8::char_u32_cast(u as char, u);
        }
    }
}

/// The UTF-8 encoding of ASCII text has one byte per character, none of them a
/// continuation byte.
proof fn lemma_ascii_encoding(s: Seq<char>)
    requires
        is_ascii_text(s),
    ensures
        encode_utf8(s).len() == s.len(),
        forall|i: int| 0 <= i < s.len() ==> !is_continuation_byte(#[trigger] encode_utf8(s)[i]),
    decreases s.len(),
{
    if s.len() > 0 {
        let rest = s.drop_first();
        assert forall|i: int| 0 <= i < rest.len() implies (#[trigger] rest[i]) as u32 <= 0x7F by {
            assert(rest[i] == s[i + 1]);
        }
        lemma_ascii_encoding(rest);
        let v = s[0] as u32;
        assert(v <= 0x7F);
        let b = (v & 0x7F) as u8;
        assert((v & 0x7Fu32) <= 0x7Fu32) by (bit_vector);
        assert(encode_scalar(v) == seq![b]);
        let e = encode_utf8(s);
        assert(e == seq![b] + encode_utf8(rest));
        assert forall|i: int| 0 <= i < s.len() implies !is_continuation_byte(#[trigger] e[i]) by {
            if i > 0 {
                assert(e[i] == encode_utf8(rest)[i - 1]);
            }
        }
    }
}

/// Every position of the encoding of ASCII text is a character boundary.
proof fn lemma_ascii_boundaries(s: Seq<char>)
    requires
        is_ascii_text(s),
    ensures
        encode_utf8(s).len() == s.len(),
        forall|i: int| 0 <= i <= s.len() ==> is_char_boundary(encode_utf8(s), i),
{
    lemma_ascii_encoding(s);
    let e = encode_utf8(s);
    encode_utf8_valid_utf8(s);
    is_char_boundary_start_end_of_seq(e);
    assert forall|i: int| 0 <= i <= s.len() implies is_char_boundary(e, i) by {
        if i < s.len() {
            assert(!is_continuation_byte(e[i]));
            is_char_boundary_iff_not_is_continuation_byte(e, i);
        }
    }
}

proof fn lemma_scan_ok_everywhere(nb: Seq<u8>, lb: Seq<u8>, offset: int)
    requires
        nb.len() == lb.len(),
        forall|i: int| 0 <= i <= nb.len() ==> is_char_boundary(nb, i),
        forall|i: int| 0 <= i <= lb.len() ==> is_char_boundary(lb, i),
        0 <= offset <= lb.len(),
    ensures
        scan_ok(nb, lb, offset),
    decreases lb.len() - offset,
{
    lemma_byte_find_bounds(lb, m3u8_bytes(), offset);
    match byte_find(lb, m3u8_bytes(), offset) {
        None => {},
        Some(index) => {
            lemma_candidate_bounds(nb, index);
            lemma_candidate_bounds(nb, index + 5);
            let no = next_offset(nb, lb, index);
            assert(offset < no && no <= lb.len());
            lemma_scan_ok_everywhere(nb, lb, no);
        },
    }
}

/// ASCII page text can be scanned: lower casing it keeps every byte where it was (given
/// the ASCII behaviour of lower casing), and every position is a character boundary.
proof fn lemma_ascii_text_scannable(text: Seq<char>)
    requires
        is_ascii_text(text),
        lowercase(spec_normalize_candidate_text(text)) == ascii_lower(spec_normalize_candidate_text(text)),
    ensures
        candidates_scannable(text),
{
    let n = spec_normalize_candidate_text(text);
    lemma_normalize_ascii(text);
    lemma_ascii_lower_ascii(n);
    lemma_ascii_boundaries(n);
    lemma_ascii_boundaries(ascii_lower(n));
    lemma_scan_ok_everywhere(normalized_bytes(text), lower_bytes(text), 0);
}

} // verus!
