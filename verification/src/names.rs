//! File names: cleaning page titles into file stems, output names, working directory
//! names and the stable hash they carry.
use vstd::prelude::*;
use vstd::utf8::encode_utf8;
use crate::text::{
    chars_of, decimal, decimal_chars, ends_with, ends_with_chars, is_whitespace, is_ws, join,
    opt_view, push_all, push_chars, slice_chars, string_of, trim, trim_chars, trim_end_set, trim_set,
    trim_start_set,
    trim_set_chars, views,
};
use crate::urls::{url_last_segment, WebUrl};

verus! {

/// `str::trim_end_matches(pat)` for a non-empty pattern: trailing copies of `pat` removed.
pub open spec fn trim_end_pat(s: Seq<char>, pat: Seq<char>) -> Seq<char>
    decreases s.len(),
{
    if pat.len() > 0 && ends_with(s, pat) {
        trim_end_pat(s.subrange(0, s.len() - pat.len()), pat)
    } else {
        s
    }
}

pub fn trim_end_pat_chars(v: &Vec<char>, pat: &Vec<char>) -> (r: Vec<char>)
    ensures
        r@ == trim_end_pat(v@, pat@),
{
    if pat.len() == 0 {
        return slice_chars(v, 0, v.len());
    }
    let mut end: usize = v.len();
    let mut cur = slice_chars(v, 0, end);
    assert(cur@ =~= v@);
    while ends_with_chars(&cur, pat)
        invariant
            pat@.len() > 0,
            end <= v.len(),
            cur@ == v@.subrange(0, end as int),
            trim_end_pat(v@, pat@) == trim_end_pat(cur@, pat@),
        decreases end,
    {
        end = end - pat.len();
        proof {
            assert(v@.subrange(0, end as int) =~= cur@.subrange(0, cur@.len() - pat@.len()));
        }
        cur = slice_chars(v, 0, end);
    }
    cur
}

/// `str::strip_suffix`, then `trim`, where the suffix is there.
pub open spec fn strip_suffix_trim(s: Seq<char>, suffix: Seq<char>) -> Seq<char> {
    if ends_with(s, suffix) {
        trim(s.subrange(0, s.len() - suffix.len()))
    } else {
        s
    }
}

fn strip_suffix_trim_chars(v: &Vec<char>, suffix: &str) -> (r: Vec<char>)
    ensures
        r@ == strip_suffix_trim(v@, suffix@),
{
    let sv = chars_of(suffix);
    if ends_with_chars(v, &sv) {
        let head = slice_chars(v, 0, v.len() - sv.len());
        trim_chars(&head)
    } else {
        slice_chars(v, 0, v.len())
    }
}

/// `char::is_control`: the `Cc` category, U+0000 to U+001F and U+007F to U+009F.
pub open spec fn is_control(c: char) -> bool {
    (c as u32) <= 0x1F || (0x7F <= (c as u32) && (c as u32) <= 0x9F)
}

/// Characters that file names cannot hold on the systems the files go to.
pub open spec fn is_name_forbidden(c: char) -> bool {
    is_control(c) || c == '/' || c == '\\' || c == ':' || c == '*' || c == '?' || c == '"' || c
        == '<' || c == '>' || c == '|'
}

/// Forbidden characters replaced by spaces.
pub open spec fn blank_forbidden(s: Seq<char>) -> Seq<char> {
    s.map_values(|c: char| if is_name_forbidden(c) { ' ' } else { c })
}

/// The words of `s` (`str::split_whitespace`), as a state: the finished words and the
/// word being read.
pub open spec fn words_state(s: Seq<char>) -> (Seq<Seq<char>>, Seq<char>)
    decreases s.len(),
{
    if s.len() == 0 {
        (seq![], seq![])
    } else {
        let (done, cur) = words_state(s.drop_last());
        if is_ws(s.last()) {
            if cur.len() > 0 {
                (done.push(cur), seq![])
            } else {
                (done, cur)
            }
        } else {
            (done, cur.push(s.last()))
        }
    }
}

/// `str::split_whitespace`.
pub open spec fn words(s: Seq<char>) -> Seq<Seq<char>> {
    let (done, cur) = words_state(s);
    if cur.len() > 0 {
        done.push(cur)
    } else {
        done
    }
}

/// The cleaned form of a title or name: trimmed; `.mp4` endings removed; one of the
/// video sites' "watch online" endings removed after another; control and
/// path-unsafe characters blanked; runs of whitespace made single spaces; dots and
/// spaces trimmed from both ends; at most 120 characters. `None` if nothing is left.
pub open spec fn spec_sanitize_file_stem(value: Seq<char>) -> Option<Seq<char>> {
    let a = trim(trim_end_pat(trim(value), ".mp4"@));
    let b = strip_suffix_trim(
        strip_suffix_trim(strip_suffix_trim(strip_suffix_trim(a, " - 在线观看"@), " 在线观看"@), "_在线播放"@),
        "在线播放"@,
    );
    let c = join(words(blank_forbidden(b)), " "@);
    let d = trim_set(c, seq!['.', ' ']);
    let e = d.take(if d.len() < 120 { d.len() as int } else { 120 });
    if e.len() == 0 {
        None
    } else {
        Some(e)
    }
}

fn blank_forbidden_chars(v: &Vec<char>) -> (r: Vec<char>)
    ensures
        r@ == blank_forbidden(v@),
{
    let mut out: Vec<char> = Vec::new();
    let mut i: usize = 0;
    while i < v.len()
        invariant
            i <= v.len(),
            out@ == blank_forbidden(v@.take(i as int)),
        decreases v.len() - i,
    {
        let c = v[i];
        let u = c as u32;
        let forbidden = u <= 0x1F || (0x7F <= u && u <= 0x9F) || c == '/' || c == '\\' || c == ':'
            || c == '*' || c == '?' || c == '"' || c == '<' || c == '>' || c == '|';
        if forbidden {
            out.push(' ');
        } else {
            out.push(c);
        }
        assert(out@ =~= blank_forbidden(v@.take(i + 1)));
        i = i + 1;
    }
    assert(v@.take(v.len() as int) =~= v@);
    out
}

fn split_words(v: &Vec<char>) -> (r: Vec<String>)
    ensures
        views(r@) == words(v@),
{
    let mut done: Vec<String> = Vec::new();
    let mut cur: Vec<char> = Vec::new();
    let mut i: usize = 0;
    assert(v@.take(0) =~= Seq::<char>::empty());
    assert(views(done@) =~= Seq::<Seq<char>>::empty());
    assert(cur@ =~= Seq::<char>::empty());
    while i < v.len()
        invariant
            i <= v.len(),
            words_state(v@.take(i as int)) == (views(done@), cur@),
        decreases v.len() - i,
    {
        proof {
            assert(v@.take(i + 1).drop_last() =~= v@.take(i as int));
            assert(v@.take(i + 1).last() == v@[i as int]);
        }
        if is_whitespace(v[i]) {
            if cur.len() > 0 {
                let ghost before = done@;
                let w = string_of(cur.as_slice());
                done.push(w);
                cur = Vec::new();
                assert(views(done@) =~= views(before).push(w@));
                assert(cur@ =~= Seq::<char>::empty());
            }
        } else {
            cur.push(v[i]);
        }
        i = i + 1;
    }
    assert(v@.take(v.len() as int) =~= v@);
    if cur.len() > 0 {
        let ghost before = done@;
        let w = string_of(cur.as_slice());
        done.push(w);
        assert(views(done@) =~= views(before).push(w@));
    }
    done
}

pub fn sanitize_file_stem(value: &str) -> (r: Option<String>)
    ensures
        opt_view(r) == spec_sanitize_file_stem(value@),
{
    let t0 = trim_chars(&chars_of(value));
    let t1 = trim_end_pat_chars(&t0, &chars_of(".mp4"));
    let a = trim_chars(&t1);
    let b1 = strip_suffix_trim_chars(&a, " - 在线观看");
    let b2 = strip_suffix_trim_chars(&b1, " 在线观看");
    let b3 = strip_suffix_trim_chars(&b2, "_在线播放");
    let b = strip_suffix_trim_chars(&b3, "在线播放");
    let blanked = blank_forbidden_chars(&b);
    let ws = split_words(&blanked);
    let joined = crate::text::join_strings(&ws, " ");
    let mut set: Vec<char> = Vec::new();
    set.push('.');
    set.push(' ');
    assert(set@ =~= seq!['.', ' ']);
    let d = trim_set_chars(&chars_of(joined.as_str()), &set);
    let n: usize = if d.len() < 120 {
        d.len()
    } else {
        120
    };
    let e = slice_chars(&d, 0, n);
    assert(e@ =~= d@.take(n as int));
    if e.len() == 0 {
        None
    } else {
        Some(string_of(e.as_slice()))
    }
}

/// `name.mp4` for a cleaned name.
pub open spec fn mp4_of(name: Option<Seq<char>>) -> Option<Seq<char>> {
    match name {
        Some(n) => Some(n + ".mp4"@),
        None => None,
    }
}

/// The output file name: the user's name, else the page title, else the playlist's
/// file name without `.m3u8`, each cleaned; else `video-` and the time.
pub open spec fn spec_output_name(
    input: Seq<char>,
    output_file_name: Option<Seq<char>>,
    suggested_name: Option<Seq<char>>,
    now_compact: Seq<char>,
) -> Seq<char> {
    let from_user = match output_file_name {
        Some(n) => spec_sanitize_file_stem(n),
        None => None,
    };
    let from_title = match suggested_name {
        Some(n) => spec_sanitize_file_stem(n),
        None => None,
    };
    let basename = trim_end_pat(
        match url_last_segment(input) {
            Some(s) => s,
            None => "video"@,
        },
        ".m3u8"@,
    );
    if from_user is Some {
        from_user.unwrap() + ".mp4"@
    } else if from_title is Some {
        from_title.unwrap() + ".mp4"@
    } else {
        match spec_sanitize_file_stem(basename) {
            Some(n) => n + ".mp4"@,
            None => "video-"@ + now_compact + ".mp4"@,
        }
    }
}

/// The output file name; `now_compact` is the local time as `%Y%m%d-%H%M%S`.
pub fn output_name(
    input: &WebUrl,
    output_file_name: Option<String>,
    suggested_name: Option<&str>,
    now_compact: &str,
) -> (r: String)
    ensures
        r@ == spec_output_name(
            input@,
            opt_view(output_file_name),
            match suggested_name {
                Some(s) => Some(s@),
                None => None,
            },
            now_compact@,
        ),
{
    if let Some(name) = &output_file_name {
        if let Some(clean) = sanitize_file_stem(name.as_str()) {
            return crate::text::concat(clean.as_str(), ".mp4");
        }
    }
    if let Some(name) = suggested_name {
        if let Some(clean) = sanitize_file_stem(name) {
            return crate::text::concat(clean.as_str(), ".mp4");
        }
    }
    let last = match input.last_path_segment() {
        Some(s) => s,
        None => String::from_str("video"),
    };
    let base = trim_end_pat_chars(&chars_of(last.as_str()), &chars_of(".m3u8"));
    let base_string = string_of(base.as_slice());
    match sanitize_file_stem(base_string.as_str()) {
        Some(clean) => crate::text::concat(clean.as_str(), ".mp4"),
        None => {
            let mut v = chars_of("video-");
            push_all(&mut v, now_compact);
            push_all(&mut v, ".mp4");
            string_of(v.as_slice())
        },
    }
}

/// The 64-bit FNV-1a offset basis and prime.
pub const FNV_OFFSET: u64 = 1469598103934665603;

pub const FNV_PRIME: u64 = 1099511628211;

/// 64-bit FNV-1a over bytes.
pub open spec fn fnv1a(bytes: Seq<u8>) -> u64
    decreases bytes.len(),
{
    if bytes.len() == 0 {
        FNV_OFFSET
    } else {
        (fnv1a(bytes.drop_last()) ^ (bytes.last() as u64)).wrapping_mul(FNV_PRIME)
    }
}

/// FNV-1a of the UTF-8 bytes of a string: the same string always gets the same number.
pub fn stable_hash(value: &str) -> (r: u64)
    ensures
        r == fnv1a(encode_utf8(value@)),
{
    let bytes = value.as_bytes();
    let mut hash: u64 = FNV_OFFSET;
    let mut i: usize = 0;
    while i < bytes.len()
        invariant
            i <= bytes@.len(),
            bytes@ == encode_utf8(value@),
            hash == fnv1a(bytes@.take(i as int)),
        decreases bytes@.len() - i,
    {
        proof {
            assert(bytes@.take(i + 1).drop_last() =~= bytes@.take(i as int));
            assert(bytes@.take(i + 1).last() == bytes@[i as int]);
        }
        hash = (hash ^ (bytes[i] as u64)).wrapping_mul(FNV_PRIME);
        i = i + 1;
    }
    assert(bytes@.take(bytes@.len() as int) =~= bytes@);
    hash
}

/// The name of a task's working directory: the local time, the task id and the hash
/// of the playlist URL, joined by hyphens.
pub fn working_dir_name(now_compact: &str, task_id: &str, input: &WebUrl) -> (r: String)
    ensures
        r@ == now_compact@ + "-"@ + task_id@ + "-"@ + decimal(fnv1a(encode_utf8(input@)) as nat),
{
    let mut v = chars_of(now_compact);
    push_all(&mut v, "-");
    push_all(&mut v, task_id);
    push_all(&mut v, "-");
    let digits = decimal_chars(stable_hash(input.as_str()));
    push_chars(&mut v, &digits);
    string_of(v.as_slice())
}

/// The name of a temporary browser profile: the local time, the hash of the page URL,
/// `allow` for the response-body mode, and the attempt number.
pub fn fresh_profile_name(now_compact: &str, page_url: &WebUrl, attempt: u32, allow: bool) -> (r: String)
    ensures
        r@ == "streamweave-browser-profile-"@ + now_compact@ + "-"@ + decimal(fnv1a(encode_utf8(page_url@)) as nat)
            + (if allow { "-allow-"@ } else { "-"@ }) + decimal(attempt as nat),
{
    let mut v = chars_of("streamweave-browser-profile-");
    push_all(&mut v, now_compact);
    push_all(&mut v, "-");
    push_chars(&mut v, &decimal_chars(stable_hash(page_url.as_str())));
    if allow {
        push_all(&mut v, "-allow-");
    } else {
        push_all(&mut v, "-");
    }
    push_chars(&mut v, &decimal_chars(attempt as u64));
    string_of(v.as_slice())
}

/// No character of `s` is one that file names cannot hold.
pub open spec fn name_safe(s: Seq<char>) -> bool {
    forall|i: int| 0 <= i < s.len() ==> !is_name_forbidden(#[trigger] s[i])
}

proof fn lemma_words_safe(s: Seq<char>)
    requires
        name_safe(s),
    ensures
        forall|k: int| 0 <= k < words_state(s).0.len() ==> name_safe(#[trigger] words_state(s).0[k]),
        name_safe(words_state(s).1),
    decreases s.len(),
{
    if s.len() > 0 {
        let init = s.drop_last();
        assert forall|i: int| 0 <= i < init.len() implies !is_name_forbidden(#[trigger] init[i]) by {
            assert(init[i] == s[i]);
        }
        lemma_words_safe(init);
        let (done, cur) = words_state(init);
        let c = s.last();
        assert(!is_name_forbidden(c)) by {
            assert(c == s[s.len() - 1]);
        }
        if !is_ws(c) {
            let n = cur.push(c);
            assert forall|i: int| 0 <= i < n.len() implies !is_name_forbidden(#[trigger] n[i]) by {
                if i < cur.len() {
                    assert(n[i] == cur[i]);
                }
            }
        } else if cur.len() > 0 {
            let d = done.push(cur);
            assert forall|k: int| 0 <= k < d.len() implies name_safe(#[trigger] d[k]) by {
                if k < done.len() {
                    assert(d[k] == done[k]);
                }
            }
            assert(name_safe(Seq::<char>::empty()));
        }
    }
}

proof fn lemma_join_safe(ws: Seq<Seq<char>>, sep: Seq<char>)
    requires
        forall|k: int| 0 <= k < ws.len() ==> name_safe(#[trigger] ws[k]),
        name_safe(sep),
    ensures
        name_safe(join(ws, sep)),
    decreases ws.len(),
{
    if ws.len() == 1 {
        assert(name_safe(ws[0]));
    } else if ws.len() > 1 {
        let init = ws.drop_last();
        assert forall|k: int| 0 <= k < init.len() implies name_safe(#[trigger] init[k]) by {
            assert(init[k] == ws[k]);
        }
        lemma_join_safe(init, sep);
        let a = join(init, sep);
        let b = ws.last();
        assert(name_safe(b)) by {
            assert(b == ws[ws.len() - 1]);
        }
        let j = a + sep + b;
        assert forall|i: int| 0 <= i < j.len() implies !is_name_forbidden(#[trigger] j[i]) by {
            if i < a.len() {
                assert(j[i] == a[i]);
            } else if i < a.len() + sep.len() {
                assert(j[i] == sep[i - a.len()]);
            } else {
                assert(j[i] == b[i - a.len() - sep.len()]);
            }
        }
    }
}

proof fn lemma_trim_start_set_safe(s: Seq<char>, set: Seq<char>)
    requires
        name_safe(s),
    ensures
        name_safe(trim_start_set(s, set)),
    decreases s.len(),
{
    if s.len() > 0 && set.contains(s[0]) {
        let rest = s.drop_first();
        assert forall|i: int| 0 <= i < rest.len() implies !is_name_forbidden(#[trigger] rest[i]) by {
            assert(rest[i] == s[i + 1]);
        }
        lemma_trim_start_set_safe(rest, set);
    }
}

proof fn lemma_trim_end_set_safe(s: Seq<char>, set: Seq<char>)
    requires
        name_safe(s),
    ensures
        name_safe(trim_end_set(s, set)),
    decreases s.len(),
{
    if s.len() > 0 && set.contains(s.last()) {
        let init = s.drop_last();
        assert forall|i: int| 0 <= i < init.len() implies !is_name_forbidden(#[trigger] init[i]) by {
            assert(init[i] == s[i]);
        }
        lemma_trim_end_set_safe(init, set);
    }
}

/// A cleaned name is usable as a file name: it is not empty, has at most 120
/// characters, and holds no control or path-unsafe character.
pub proof fn lemma_sanitized_name_is_safe(value: Seq<char>)
    ensures
        spec_sanitize_file_stem(value) matches Some(n) ==> 0 < n.len() <= 120 && name_safe(n),
{
    let a = trim(trim_end_pat(trim(value), ".mp4"@));
    let b = strip_suffix_trim(
        strip_suffix_trim(strip_suffix_trim(strip_suffix_trim(a, " - 在线观看"@), " 在线观看"@), "_在线播放"@),
        "在线播放"@,
    );
    let blank = blank_forbidden(b);
    assert(name_safe(blank)) by {
        assert forall|i: int| 0 <= i < blank.len() implies !is_name_forbidden(#[trigger] blank[i]) by {
            assert(!is_name_forbidden(' '));
        }
    }
    lemma_words_safe(blank);
    let ws = words(blank);
    let (done, cur) = words_state(blank);
    assert forall|k: int| 0 <= k < ws.len() implies name_safe(#[trigger] ws[k]) by {
        if cur.len() > 0 && k == done.len() {
            assert(ws[k] == cur);
        } else {
            assert(ws[k] == done[k]);
        }
    }
    assert(name_safe(" "@)) by {
        reveal_strlit(" ");
    }
    lemma_join_safe(ws, " "@);
    let c = join(ws, " "@);
    lemma_trim_start_set_safe(c, seq!['.', ' ']);
    lemma_trim_end_set_safe(trim_start_set(c, seq!['.', ' ']), seq!['.', ' ']);
    let d = trim_set(c, seq!['.', ' ']);
    let e = d.take(if d.len() < 120 { d.len() as int } else { 120 });
    assert forall|i: int| 0 <= i < e.len() implies !is_name_forbidden(#[trigger] e[i]) by {
        assert(e[i] == d[i]);
    }
}

/// `name` is `stem` and `.mp4`, the stem a cleaned name or `video-` and the time.
pub open spec fn mp4_name_of(name: Seq<char>, stem: Seq<char>, now_compact: Seq<char>) -> bool {
    &&& name == stem + ".mp4"@
    &&& (0 < stem.len() <= 120 && name_safe(stem)) || stem == "video-"@ + now_compact
}

/// An output file name is an mp4 name: a cleaned name (see
/// `lemma_sanitized_name_is_safe`) followed by `.mp4`, or, where no name can be had,
/// `video-`, the time and `.mp4`.
pub proof fn lemma_output_name_is_mp4(
    input: Seq<char>,
    output_file_name: Option<Seq<char>>,
    suggested_name: Option<Seq<char>>,
    now_compact: Seq<char>,
)
    ensures
        exists|stem: Seq<char>|
            #[trigger] mp4_name_of(spec_output_name(input, output_file_name, suggested_name, now_compact), stem, now_compact),
{
    let r = spec_output_name(input, output_file_name, suggested_name, now_compact);
    let basename = trim_end_pat(
        match url_last_segment(input) {
            Some(s) => s,
            None => "video"@,
        },
        ".m3u8"@,
    );
    if output_file_name matches Some(n) && spec_sanitize_file_stem(n) is Some {
        lemma_sanitized_name_is_safe(output_file_name.unwrap());
        let stem = spec_sanitize_file_stem(output_file_name.unwrap()).unwrap();
        assert(mp4_name_of(r, stem, now_compact));
    } else if suggested_name matches Some(n) && spec_sanitize_file_stem(n) is Some {
        lemma_sanitized_name_is_safe(suggested_name.unwrap());
        let stem = spec_sanitize_file_stem(suggested_name.unwrap()).unwrap();
        assert(mp4_name_of(r, stem, now_compact));
    } else if spec_sanitize_file_stem(basename) is Some {
        lemma_sanitized_name_is_safe(basename);
        let stem = spec_sanitize_file_stem(basename).unwrap();
        assert(mp4_name_of(r, stem, now_compact));
    } else {
        let stem = "video-"@ + now_compact;
        assert(mp4_name_of(r, stem, now_compact));
    }
}

/// A title that does not end in `.mp4` or in one of the video sites' "watch online"
/// endings.
pub open spec fn clean_title(t: Seq<char>) -> bool {
    &&& !ends_with(t, ".mp4"@)
    &&& !ends_with(t, " - 在线观看"@)
    &&& !ends_with(t, " 在线观看"@)
    &&& !ends_with(t, "_在线播放"@)
    &&& !ends_with(t, "在线播放"@)
}

proof fn lemma_trim_start_first(s: Seq<char>)
    ensures
        crate::text::trim_start(s).len() > 0 ==> !is_ws(crate::text::trim_start(s)[0]),
    decreases s.len(),
{
    if s.len() > 0 && is_ws(s[0]) {
        lemma_trim_start_first(s.drop_first());
    }
}

proof fn lemma_trim_start_append(s: Seq<char>, x: Seq<char>)
    ensures
        crate::text::trim_start(s).len() > 0 ==> crate::text::trim_start(s + x)
            == crate::text::trim_start(s) + x,
        crate::text::trim_start(s).len() == 0 ==> crate::text::trim_start(s + x)
            == crate::text::trim_start(x),
    decreases s.len(),
{
    if s.len() > 0 && is_ws(s[0]) {
        assert((s + x).drop_first() =~= s.drop_first() + x);
        lemma_trim_start_append(s.drop_first(), x);
    } else if s.len() > 0 {
        assert((s + x)[0] == s[0]);
    } else {
        assert(s + x =~= x);
    }
}

proof fn lemma_trim_end_split(m: Seq<char>)
    ensures
        crate::text::trim_end(m).len() <= m.len(),
        m.subrange(0, crate::text::trim_end(m).len() as int) == crate::text::trim_end(m),
        forall|j: int| crate::text::trim_end(m).len() <= j < m.len() ==> is_ws(#[trigger] m[j]),
        crate::text::trim_end(m).len() > 0 ==> !is_ws(crate::text::trim_end(m).last()),
    decreases m.len(),
{
    if m.len() > 0 && is_ws(m.last()) {
        lemma_trim_end_split(m.drop_last());
        let t = crate::text::trim_end(m);
        assert(m.drop_last().subrange(0, t.len() as int) =~= m.subrange(0, t.len() as int));
        assert forall|j: int| t.len() <= j < m.len() implies is_ws(#[trigger] m[j]) by {
            if j < m.len() - 1 {
                assert(m[j] == m.drop_last()[j]);
            }
        }
    } else {
        assert(m.subrange(0, m.len() as int) =~= m);
    }
}

proof fn lemma_not_ends_last(v: Seq<char>, pat: Seq<char>)
    requires
        pat.len() > 0,
        v.len() > 0,
        v.last() != pat.last(),
    ensures
        !ends_with(v, pat),
{
    if ends_with(v, pat) {
        assert(v.subrange(v.len() - pat.len(), v.len() as int)[pat.len() - 1] == v.last());
    }
}

/// What `trim_start(s)` and `trim(s)` are to each other: the second is the first
/// without trailing whitespace, and both start with the same non-whitespace character.
proof fn lemma_trim_parts(s: Seq<char>)
    requires
        trim(s).len() > 0,
    ensures
        crate::text::trim_start(s).len() > 0,
        !is_ws(crate::text::trim_start(s)[0]),
        crate::text::trim_start(crate::text::trim_start(s)) == crate::text::trim_start(s),
        trim(crate::text::trim_start(s)) == trim(s),
        trim(trim(s)) == trim(s),
        !is_ws(trim(s)[0]),
        !is_ws(trim(s).last()),
        trim(s).len() <= crate::text::trim_start(s).len(),
        crate::text::trim_start(s).subrange(0, trim(s).len() as int) == trim(s),
        forall|j: int|
            trim(s).len() <= j < crate::text::trim_start(s).len() ==> is_ws(
                #[trigger] crate::text::trim_start(s)[j],
            ),
{
    let m = crate::text::trim_start(s);
    let t = trim(s);
    lemma_trim_end_split(m);
    lemma_trim_start_first(s);
    assert(m.len() > 0);
    assert(crate::text::trim_start(m) == m);
    assert(t[0] == m[0]);
    assert(crate::text::trim_start(t) == t);
    assert(crate::text::trim_end(t) == t);
}

/// The cleaning of `s` followed by `u`, where `u` ends in a character that is neither
/// whitespace nor `4`, starts from `trim_start(s)` followed by `u`.
proof fn lemma_suffixed_start(s: Seq<char>, u: Seq<char>)
    requires
        u.len() > 0,
        !is_ws(u[0]) || trim(s).len() > 0,
        !is_ws(u.last()),
        u.last() != '4',
    ensures
        trim(trim_end_pat(trim(s + u), ".mp4"@)) == crate::text::trim_start(s) + u,
{
    reveal_strlit(".mp4");
    let m = crate::text::trim_start(s);
    let v = m + u;
    lemma_trim_start_append(s, u);
    if trim(s).len() > 0 {
        lemma_trim_parts(s);
        assert(v[0] == m[0]);
    } else {
        assert(m.len() == 0) by {
            lemma_trim_start_first(s);
            lemma_trim_end_split(m);
            if m.len() > 0 {
                assert(is_ws(m[0]));
            }
        }
        assert(v =~= u);
        assert(crate::text::trim_start(u) == u);
    }
    assert(crate::text::trim_start(s + u) == v);
    assert(v.last() == u.last());
    assert(crate::text::trim_end(v) == v);
    lemma_not_ends_last(v, ".mp4"@);
    assert(trim_end_pat(v, ".mp4"@) == v);
    assert(crate::text::trim_start(v) == v);
}

/// A title with no `.mp4` ending starts its cleaning as its trimmed self.
proof fn lemma_clean_start(s: Seq<char>)
    requires
        !ends_with(trim(s), ".mp4"@),
    ensures
        trim(trim_end_pat(trim(s), ".mp4"@)) == trim(s),
{
    reveal_strlit(".mp4");
    let t = trim(s);
    assert(trim_end_pat(t, ".mp4"@) == t);
    if t.len() > 0 {
        lemma_trim_parts(s);
    } else {
        assert(crate::text::trim_start(t) == t);
        assert(crate::text::trim_end(t) == t);
    }
}

/// Removing `u` from `trim_start(s)` followed by `u` leaves `trim(s)`.
proof fn lemma_strip_own(s: Seq<char>, u: Seq<char>)
    ensures
        strip_suffix_trim(crate::text::trim_start(s) + u, u) == trim(s),
{
    let m = crate::text::trim_start(s);
    let v = m + u;
    assert(v.subrange(v.len() - u.len(), v.len() as int) =~= u);
    assert(v.subrange(0, v.len() - u.len()) =~= m);
    if trim(s).len() > 0 {
        lemma_trim_parts(s);
    } else {
        lemma_trim_start_first(s);
        if m.len() > 0 {
            assert(crate::text::trim_start(m) == m);
        } else {
            assert(crate::text::trim_start(m) == m);
        }
    }
}

/// `trim_start(s)` ends in `c`, a character that is not whitespace, only where `trim(s)`
/// does.
proof fn lemma_start_last(s: Seq<char>, c: char)
    requires
        crate::text::trim_start(s).len() > 0,
        crate::text::trim_start(s).last() == c,
        !is_ws(c),
    ensures
        trim(s).len() > 0,
        trim(s).last() == c,
{
    let m = crate::text::trim_start(s);
    lemma_trim_end_split(m);
    let t = trim(s);
    if t.len() < m.len() {
        assert(is_ws(m[m.len() - 1]));
    }
    assert(t.len() == m.len());
    assert(t =~= m);
}

/// A page title that ends in one of the video sites' "watch online" endings (`
/// - 在线观看`, ` 在线观看`, `_在线播放`, `在线播放`) is cleaned to the same name as the
/// title without that ending, whitespace around the title aside. Where the title is
/// blank, or ends in ` -` or `_`, the longer endings are matched across that end
/// instead, and the name differs.
pub proof fn lemma_site_suffix_removed(s: Seq<char>)
    requires
        clean_title(trim(s)),
    ensures
        trim(s).len() > 0 ==> spec_sanitize_file_stem(s + " - 在线观看"@) == spec_sanitize_file_stem(s),
        trim(s).len() > 0 && !ends_with(trim(s), " -"@) ==> spec_sanitize_file_stem(s + " 在线观看"@)
            == spec_sanitize_file_stem(s),
        spec_sanitize_file_stem(s + "_在线播放"@) == spec_sanitize_file_stem(s),
        trim(s).len() == 0 || trim(s).last() != '_' ==> spec_sanitize_file_stem(s + "在线播放"@)
            == spec_sanitize_file_stem(s),
{
    reveal_strlit(" - 在线观看");
    reveal_strlit(" 在线观看");
    reveal_strlit("_在线播放");
    reveal_strlit("在线播放");
    reveal_strlit(" -");
    let w1 = " - 在线观看"@;
    let w2 = " 在线观看"@;
    let p1 = "_在线播放"@;
    let p2 = "在线播放"@;
    let m = crate::text::trim_start(s);
    let t = trim(s);
    assert(!is_ws(w1.last()) && !is_ws(p1.last()));
    assert(w1.last() == w2.last() && p1.last() == p2.last());
    assert(!is_ws(p1[0]) && !is_ws(p2[0]));
    // Without an ending, the cleaning keeps the trimmed title.
    lemma_clean_start(s);
    assert(strip_suffix_trim(t, w1) == t);
    assert(strip_suffix_trim(t, w2) == t);
    assert(strip_suffix_trim(t, p1) == t);
    assert(strip_suffix_trim(t, p2) == t);
    lemma_strip_own(s, w1);
    lemma_strip_own(s, w2);
    lemma_strip_own(s, p1);
    lemma_strip_own(s, p2);
    // ` - 在线观看`: the first ending is removed; nothing else applies.
    if t.len() > 0 {
        lemma_suffixed_start(s, w1);
        assert(spec_sanitize_file_stem(s + w1) == spec_sanitize_file_stem(s));
    }
    // ` 在线观看`: ` - 在线观看` would need the title to end in ` -`.
    if t.len() > 0 && !ends_with(t, " -"@) {
        lemma_suffixed_start(s, w2);
        let v2 = m + w2;
        if ends_with(v2, w1) {
            assert(m.len() >= 2);
            assert(m.subrange(m.len() - 2, m.len() as int) =~= v2.subrange(v2.len() - 7, v2.len() - 5));
            assert(v2.subrange(v2.len() - 7, v2.len() as int).subrange(0, 2) =~= v2.subrange(
                v2.len() - 7,
                v2.len() - 5,
            ));
            assert(w1.subrange(0, 2) =~= " -"@);
            assert(v2.subrange(v2.len() - 7, v2.len() as int) == w1);
            assert(m.subrange(m.len() - 2, m.len() as int) =~= " -"@);
            assert(m.subrange(m.len() - 2, m.len() as int)[1] == m.last());
            assert(m.last() == '-');
            lemma_start_last(s, '-');
            lemma_trim_parts(s);
            assert(t.subrange(t.len() - 2, t.len() as int) =~= m.subrange(m.len() - 2, m.len() as int));
            assert(ends_with(t, " -"@));
        }
        assert(spec_sanitize_file_stem(s + w2) == spec_sanitize_file_stem(s));
    }
    // `_在线播放`: the two ` 在线观看` endings end in another character.
    lemma_suffixed_start(s, p1);
    let v3 = m + p1;
    assert(v3.last() == p1.last());
    lemma_not_ends_last(v3, w1);
    lemma_not_ends_last(v3, w2);
    assert(spec_sanitize_file_stem(s + p1) == spec_sanitize_file_stem(s));
    // `在线播放`: `_在线播放` would need the title to end in `_`.
    if t.len() == 0 || t.last() != '_' {
        lemma_suffixed_start(s, p2);
        let v4 = m + p2;
        assert(v4.last() == p2.last());
        lemma_not_ends_last(v4, w1);
        lemma_not_ends_last(v4, w2);
        if ends_with(v4, p1) {
            assert(v4.subrange(v4.len() - 5, v4.len() as int)[0] == v4[v4.len() - 5]);
            assert(m.len() > 0);
            assert(v4[v4.len() - 5] == m.last());
            lemma_start_last(s, '_');
        }
        assert(spec_sanitize_file_stem(s + p2) == spec_sanitize_file_stem(s));
    }
}

} // verus!
