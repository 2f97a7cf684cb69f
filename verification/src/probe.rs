//! Reading ffprobe's reports and the first bytes of a file.
use vstd::prelude::*;
use crate::candidates::add_unique;
use crate::json::{json_get, json_get_str, json_parse, json_view, json_views, lemma_json_views, parse_json, view_array, view_get, view_str, JsonValue, JsonView};
use crate::messages::{command_tail, spec_command_tail};
use crate::text::{
    chars_of, join, lines, opt_view, parse_u64, parse_u64_spec, push_all, push_chars,
    replace_char, replace_char_chars, split_lines, string_of, str_eq, views,
};

verus! {

/// One stream of a segment as ffprobe's JSON lists it: its `codec_type` and
/// `codec_name` where they are strings.
#[derive(Debug)]
pub struct StreamFields {
    pub codec_type: Option<String>,
    pub codec_name: Option<String>,
}

/// What probing a segment found.
#[derive(Debug)]
pub struct SegmentProbeResult {
    pub has_media_stream: bool,
    pub stream_summary: String,
}

pub open spec fn or_unknown(v: Option<String>) -> Seq<char> {
    match v {
        Some(s) => s@,
        None => "unknown"@,
    }
}

/// `type/name` of a stream, `unknown` for a missing part.
pub open spec fn stream_description(s: StreamFields) -> Seq<char> {
    or_unknown(s.codec_type) + "/"@ + or_unknown(s.codec_name)
}

/// A video or audio stream.
pub open spec fn is_media_stream(s: StreamFields) -> bool {
    or_unknown(s.codec_type) == "video"@ || or_unknown(s.codec_type) == "audio"@
}

/// The distinct descriptions of the streams, in order of first appearance.
pub open spec fn stream_descriptions(streams: Seq<StreamFields>) -> Seq<Seq<char>>
    decreases streams.len(),
{
    if streams.len() == 0 {
        seq![]
    } else {
        add_unique(stream_descriptions(streams.drop_last()), stream_description(streams.last()))
    }
}

/// The probe result of a segment: whether any stream is video or audio, and the
/// stream list (or a note that there is none).
pub open spec fn summary_holds(r: SegmentProbeResult, streams: Seq<StreamFields>) -> bool {
    let d = stream_descriptions(streams);
    &&& r.has_media_stream == exists|i: int| 0 <= i < streams.len() && is_media_stream(#[trigger] streams[i])
    &&& r.stream_summary@ == if d.len() == 0 {
        "未检测到任何流"@
    } else {
        "流："@ + join(d, ", "@)
    }
}

fn or_unknown_string(v: &Option<String>) -> (r: String)
    ensures
        r@ == or_unknown(*v),
{
    match v {
        Some(s) => s.clone(),
        None => String::from_str("unknown"),
    }
}

pub fn summarize_streams(streams: &Vec<StreamFields>) -> (r: SegmentProbeResult)
    ensures
        summary_holds(r, streams@),
{
    let mut descriptions: Vec<String> = Vec::new();
    let mut has_media = false;
    let mut i: usize = 0;
    while i < streams.len()
        invariant
            i <= streams@.len(),
            views(descriptions@) == stream_descriptions(streams@.take(i as int)),
            has_media == exists|k: int| 0 <= k < i && is_media_stream(#[trigger] streams@[k]),
        decreases streams@.len() - i,
    {
        let t = or_unknown_string(&streams[i].codec_type);
        let n = or_unknown_string(&streams[i].codec_name);
        if str_eq(t.as_str(), "video") || str_eq(t.as_str(), "audio") {
            has_media = true;
        }
        let mut d = chars_of(t.as_str());
        push_all(&mut d, "/");
        push_all(&mut d, n.as_str());
        let desc = string_of(d.as_slice());
        proof {
            assert(streams@.take(i + 1).drop_last() =~= streams@.take(i as int));
            assert(streams@.take(i + 1).last() == streams@[i as int]);
        }
        let mut seen = false;
        let mut j: usize = 0;
        while j < descriptions.len()
            invariant
                j <= descriptions@.len(),
                seen == exists|k: int| 0 <= k < j && descriptions@[k]@ == desc@,
            decreases descriptions@.len() - j,
        {
            if str_eq(descriptions[j].as_str(), desc.as_str()) {
                seen = true;
            }
            j = j + 1;
        }
        proof {
            let dv = views(descriptions@);
            if seen {
                let k = choose|k: int| 0 <= k < descriptions@.len() && descriptions@[k]@ == desc@;
                assert(dv[k] == desc@);
                assert(dv.contains(desc@));
            } else {
                assert(!dv.contains(desc@)) by {
                    if dv.contains(desc@) {
                        let k = choose|k: int| 0 <= k < dv.len() && dv[k] == desc@;
                        assert(descriptions@[k]@ == desc@);
                    }
                }
            }
        }
        if !seen {
            let ghost before = descriptions@;
            descriptions.push(desc);
            assert(views(descriptions@) =~= views(before).push(desc@));
        }
        i = i + 1;
    }
    assert(streams@.take(streams@.len() as int) =~= streams@);
    let summary = if descriptions.len() == 0 {
        String::from_str("未检测到任何流")
    } else {
        let joined = crate::text::join_strings(&descriptions, ", ");
        crate::text::concat("流：", joined.as_str())
    };
    SegmentProbeResult { has_media_stream: has_media, stream_summary: summary }
}

/// A stream of ffprobe's JSON report: its `codec_type` and `codec_name` where they are
/// strings.
pub open spec fn stream_read(f: StreamFields, v: JsonView) -> bool {
    &&& opt_view(f.codec_type) == view_str(view_get(v, "codec_type"@))
    &&& opt_view(f.codec_name) == view_str(view_get(v, "codec_name"@))
}

/// The streams of ffprobe's JSON report: its `streams` list entry by entry, none where
/// there is no such list.
pub open spec fn streams_read(r: Seq<StreamFields>, doc: JsonView) -> bool {
    let a = match view_array(view_get(doc, "streams"@)) {
        Some(a) => a,
        None => seq![],
    };
    &&& r.len() == a.len()
    &&& forall|k: int| 0 <= k < a.len() ==> stream_read(#[trigger] r[k], a[k])
}

pub fn stream_fields(doc: &JsonValue) -> (r: Vec<StreamFields>)
    ensures
        streams_read(r@, json_view(*doc)),
{
    let mut out: Vec<StreamFields> = Vec::new();
    match json_get(doc, "streams") {
        Some(JsonValue::Array(list)) => {
            let ghost a = json_views(list@);
            proof {
                lemma_json_views(list@);
            }
            let mut i: usize = 0;
            while i < list.len()
                invariant
                    i <= list@.len(),
                    a == json_views(list@),
                    a.len() == list@.len(),
                    forall|k: int| 0 <= k < list@.len() ==> #[trigger] a[k] == json_view(list@[k]),
                    out@.len() == i,
                    forall|k: int| 0 <= k < i ==> stream_read(#[trigger] out@[k], a[k]),
                decreases list@.len() - i,
            {
                let f = StreamFields {
                    codec_type: json_get_str(&list[i], "codec_type"),
                    codec_name: json_get_str(&list[i], "codec_name"),
                };
                out.push(f);
                i = i + 1;
            }
        },
        _ => {},
    }
    out
}

/// What probing a segment found, from ffprobe's exit status and output: a failed run
/// gives the tail of its error output, otherwise the output is read as JSON.
pub fn stream_report(success: bool, stdout_text: &str, stderr_text: &str) -> (r: Result<SegmentProbeResult, String>)
    ensures
        !success ==> (r matches Err(e) && e@ == spec_command_tail(stderr_text@)),
        success ==> match json_parse(stdout_text@) {
            Err(e) => r matches Err(x) && x@ == "解析 ffprobe 输出失败："@ + e,
            Ok(doc) => r matches Ok(p) && exists|streams: Seq<StreamFields>|
                streams_read(streams, doc) && summary_holds(p, streams),
        },
{
    if !success {
        return Err(command_tail(stderr_text));
    }
    match parse_json(stdout_text) {
        Err(e) => Err(crate::text::concat("解析 ffprobe 输出失败：", e.as_str())),
        Ok(doc) => {
            let streams = stream_fields(&doc);
            Ok(summarize_streams(&streams))
        },
    }
}

/// What ffprobe reports of the output file, duration as its text.
#[derive(Debug)]
pub struct ProbeFields {
    pub video_codec: String,
    pub audio_codec: String,
    pub width: u32,
    pub height: u32,
    pub duration_text: Option<String>,
    pub size: u64,
}

/// The fields as values: video codec, audio codec, width, height, duration text, size.
pub open spec fn fields_view(f: ProbeFields) -> (Seq<char>, Seq<char>, u32, u32, Option<Seq<char>>, u64) {
    (f.video_codec@, f.audio_codec@, f.width, f.height, opt_view(f.duration_text), f.size)
}

/// A number that must fit in `u32`, zero where it does not parse.
pub open spec fn u32_or_zero(v: Seq<char>) -> u32 {
    match parse_u64_spec(v) {
        Some(n) => if n <= u32::MAX {
            n as u32
        } else {
            0
        },
        None => 0,
    }
}

/// The parser's state: the fields so far and the last codec name seen.
pub open spec fn probe_state(ls: Seq<Seq<char>>) -> ((Seq<char>, Seq<char>, u32, u32, Option<Seq<char>>, u64), Seq<char>)
    decreases ls.len(),
{
    if ls.len() == 0 {
        ((seq![], seq![], 0, 0, None, 0), seq![])
    } else {
        let (f, current) = probe_state(ls.drop_last());
        let line = ls.last();
        match crate::hls::split_once(line, '=') {
            None => (f, current),
            Some((key, value)) => if key == "codec_name"@ {
                (f, value)
            } else if key == "codec_type"@ && value == "video"@ {
                ((current, f.1, f.2, f.3, f.4, f.5), current)
            } else if key == "codec_type"@ && value == "audio"@ {
                ((f.0, current, f.2, f.3, f.4, f.5), current)
            } else if key == "width"@ {
                ((f.0, f.1, u32_or_zero(value), f.3, f.4, f.5), current)
            } else if key == "height"@ {
                ((f.0, f.1, f.2, u32_or_zero(value), f.4, f.5), current)
            } else if key == "duration"@ {
                ((f.0, f.1, f.2, f.3, Some(value), f.5), current)
            } else if key == "size"@ {
                (
                    (
                        f.0,
                        f.1,
                        f.2,
                        f.3,
                        f.4,
                        match parse_u64_spec(value) {
                            Some(n) => n,
                            None => 0,
                        },
                    ),
                    current,
                )
            } else {
                (f, current)
            },
        }
    }
}

/// The fields of ffprobe's `key=value` report: a stream's `codec_type` of video or
/// audio takes the codec name seen last; later lines win.
pub open spec fn spec_parse_probe_output(text: Seq<char>) -> (Seq<char>, Seq<char>, u32, u32, Option<Seq<char>>, u64) {
    probe_state(lines(text)).0
}

fn u32_or_zero_exec(v: &Vec<char>) -> (r: u32)
    ensures
        r == u32_or_zero(v@),
{
    match parse_u64(v) {
        Some(n) => if n <= 0xffff_ffff {
            n as u32
        } else {
            0
        },
        None => 0,
    }
}

fn chars_is(v: &Vec<char>, s: &str) -> (r: bool)
    ensures
        r == (v@ == s@),
{
    crate::text::chars_eq(v, &chars_of(s))
}

pub fn parse_probe_output(text: &str) -> (r: ProbeFields)
    ensures
        fields_view(r) == spec_parse_probe_output(text@),
{
    let v = chars_of(text);
    let ls = split_lines(&v);
    let ghost all = lines(text@);
    let mut f = ProbeFields {
        video_codec: String::new(),
        audio_codec: String::new(),
        width: 0,
        height: 0,
        duration_text: None,
        size: 0,
    };
    let mut current: Vec<char> = Vec::new();
    let mut i: usize = 0;
    assert(all.take(0) =~= Seq::<Seq<char>>::empty());
    assert(f.video_codec@ =~= Seq::<char>::empty());
    assert(f.audio_codec@ =~= Seq::<char>::empty());
    assert(current@ =~= Seq::<char>::empty());
    while i < ls.len()
        invariant
            all == lines(text@),
            ls@.len() == all.len(),
            forall|k: int| 0 <= k < ls@.len() ==> (#[trigger] ls@[k])@ == all[k],
            i <= ls@.len(),
            probe_state(all.take(i as int)) == (fields_view(f), current@),
        decreases ls@.len() - i,
    {
        proof {
            assert(all.take(i + 1).drop_last() =~= all.take(i as int));
            assert(all.take(i + 1).last() == all[i as int]);
        }
        let line = &ls[i];
        let mut eq: Vec<char> = Vec::new();
        eq.push('=');
        assert(eq@ =~= seq!['=']);
        match crate::text::find_chars(line, &eq, 0) {
            None => {},
            Some(p) => {
                proof {
                    crate::text::lemma_find_from_bounds(line@, eq@, 0);
                    assert(crate::text::matches_at(line@, eq@, p as int));
                    assert(p + 1 <= line@.len());
                }
                let n = line.len();
                let key = crate::text::slice_chars(line, 0, p);
                let value = crate::text::slice_chars(line, p + 1, n);
                if chars_is(&key, "codec_name") {
                    current = value;
                } else if chars_is(&key, "codec_type") && chars_is(&value, "video") {
                    f.video_codec = string_of(current.as_slice());
                } else if chars_is(&key, "codec_type") && chars_is(&value, "audio") {
                    f.audio_codec = string_of(current.as_slice());
                } else if chars_is(&key, "width") {
                    f.width = u32_or_zero_exec(&value);
                } else if chars_is(&key, "height") {
                    f.height = u32_or_zero_exec(&value);
                } else if chars_is(&key, "duration") {
                    f.duration_text = Some(string_of(value.as_slice()));
                } else if chars_is(&key, "size") {
                    f.size = match parse_u64(&value) {
                        Some(n) => n,
                        None => 0,
                    };
                }
            },
        }
        i = i + 1;
    }
    assert(all.take(ls@.len() as int) =~= all);
    f
}

/// The message when ffprobe fails to read the merged file.
pub fn verify_failure_message(stderr_text: &str) -> (r: String)
    ensures
        r@ == "ffprobe 验证失败。"@ + spec_command_tail(stderr_text@),
{
    crate::text::concat("ffprobe 验证失败。", command_tail(stderr_text).as_str())
}

/// The report is complete: the duration is positive (judged by the caller, which reads
/// it as a float), and there is a size and a video codec.
pub fn check_probe_complete(fields: &ProbeFields, duration_positive: bool) -> (r: Result<(), String>)
    ensures
        r is Ok <==> (duration_positive && fields.size != 0 && fields.video_codec@.len() > 0),
        r matches Err(m) ==> m@ == "ffprobe 未返回完整媒体信息。"@,
{
    if !duration_positive || fields.size == 0 || fields.video_codec.as_str().is_empty() {
        Err(String::from_str("ffprobe 未返回完整媒体信息。"))
    } else {
        Ok(())
    }
}

/// A byte that reads as text: printable ASCII, space, newline, carriage return or tab.
pub open spec fn is_text_byte(b: u8) -> bool {
    (0x21 <= b && b <= 0x7E) || b == 32 || b == 10 || b == 13 || b == 9
}

/// Every byte reads as text.
pub open spec fn all_text(bytes: Seq<u8>) -> bool {
    forall|i: int| 0 <= i < bytes.len() ==> is_text_byte(#[trigger] bytes[i])
}

/// A lower-case hexadecimal digit.
pub open spec fn hex_char(d: nat) -> char {
    if d < 10 {
        ((d + 48) as u8) as char
    } else {
        ((d + 87) as u8) as char
    }
}

/// `{:02x}` of a byte.
pub open spec fn hex2(b: u8) -> Seq<char> {
    seq![hex_char((b / 16) as nat), hex_char((b % 16) as nat)]
}

/// The first bytes as hex pairs joined by spaces.
pub open spec fn hex_pairs(bytes: Seq<u8>) -> Seq<Seq<char>> {
    bytes.map_values(|b: u8| hex2(b))
}

/// The head of a file, for a failure report: a note for an empty file; its first 64
/// bytes as text (line breaks made visible, at most 80 characters) when they all read
/// as text; else its first 16 bytes in hexadecimal.
pub open spec fn spec_file_signature_summary(data: Seq<u8>) -> Seq<char> {
    let prefix = data.take(if data.len() < 64 { data.len() as int } else { 64 });
    if data.len() == 0 {
        "文件头：<空文件>"@
    } else if all_text(prefix) {
        let text = replace_char(
            replace_char(prefix.map_values(|b: u8| b as char), '\n', "\\n"@),
            '\r',
            "\\r"@,
        );
        "文件头文本："@ + text.take(if text.len() < 80 { text.len() as int } else { 80 })
    } else {
        let head = prefix.take(if prefix.len() < 16 { prefix.len() as int } else { 16 });
        "文件头十六进制："@ + join(hex_pairs(head), " "@)
    }
}

fn hex_digit_char(d: u8) -> (c: char)
    requires
        d < 16,
    ensures
        c == hex_char(d as nat),
{
    if d < 10 {
        (d + 48) as char
    } else {
        (d + 87) as char
    }
}

/// The head of a file's bytes, or the error of reading them.
pub fn file_signature_summary(data: Result<Vec<u8>, String>) -> (r: String)
    ensures
        match data {
            Ok(d) => r@ == spec_file_signature_summary(d@),
            Err(e) => r@ == "文件头读取失败："@ + e@,
        },
{
    let data = match data {
        Ok(d) => d,
        Err(e) => {
            return crate::text::concat("文件头读取失败：", e.as_str());
        },
    };
    if data.len() == 0 {
        return String::from_str("文件头：<空文件>");
    }
    let n: usize = if data.len() < 64 {
        data.len()
    } else {
        64
    };
    let ghost prefix = data@.take(n as int);
    let mut looks_text = true;
    let mut i: usize = 0;
    while i < n
        invariant
            i <= n <= data@.len(),
            prefix == data@.take(n as int),
            looks_text == all_text(prefix.take(i as int)),
        decreases n - i,
    {
        let b = data[i];
        assert(prefix[i as int] == b);
        proof {
            let a = prefix.take(i as int);
            let c = prefix.take(i + 1);
            assert(forall|q: int| 0 <= q < i ==> c[q] == a[q]);
            assert(c[i as int] == b);
        }
        if !((0x21 <= b && b <= 0x7E) || b == 32 || b == 10 || b == 13 || b == 9) {
            looks_text = false;
        }
        i = i + 1;
    }
    if looks_text {
        let mut cs: Vec<char> = Vec::new();
        let mut k: usize = 0;
        while k < n
            invariant
                k <= n <= data@.len(),
                prefix == data@.take(n as int),
                cs@ == prefix.take(k as int).map_values(|b: u8| b as char),
            decreases n - k,
        {
            cs.push(data[k] as char);
            assert(cs@ =~= prefix.take(k + 1).map_values(|b: u8| b as char));
            k = k + 1;
        }
        assert(prefix.take(n as int) =~= prefix);
        let a = replace_char_chars(&cs, '\n', "\\n");
        let text = replace_char_chars(&a, '\r', "\\r");
        let m: usize = if text.len() < 80 {
            text.len()
        } else {
            80
        };
        let head = crate::text::slice_chars(&text, 0, m);
        assert(head@ =~= text@.take(m as int));
        let mut out = chars_of("文件头文本：");
        push_chars(&mut out, &head);
        assert(prefix.take(n as int) =~= prefix);
        assert(out@ == spec_file_signature_summary(data@));
        string_of(out.as_slice())
    } else {
        let h: usize = if n < 16 {
            n
        } else {
            16
        };
        let ghost head = prefix.take(h as int);
        let mut pairs: Vec<String> = Vec::new();
        let mut k: usize = 0;
        while k < h
            invariant
                k <= h <= n <= data@.len(),
                h <= 16,
                prefix == data@.take(n as int),
                head == prefix.take(h as int),
                views(pairs@) == hex_pairs(head.take(k as int)),
            decreases h - k,
        {
            let b = data[k];
            let mut p: Vec<char> = Vec::new();
            p.push(hex_digit_char(b / 16));
            p.push(hex_digit_char(b % 16));
            let ghost before = pairs@;
            let ps = string_of(p.as_slice());
            pairs.push(ps);
            proof {
                assert(head[k as int] == b);
                assert(ps@ =~= hex2(b));
                assert(views(pairs@) =~= views(before).push(hex2(b)));
                assert(hex_pairs(head.take(k + 1)) =~= hex_pairs(head.take(k as int)).push(hex2(b)));
            }
            k = k + 1;
        }
        assert(head.take(h as int) =~= head);
        assert(prefix.take(n as int) =~= prefix);
        let joined = crate::text::join_strings(&pairs, " ");
        let out = crate::text::concat("文件头十六进制：", joined.as_str());
        assert(out@ == spec_file_signature_summary(data@));
        out
    }
}

} // verus!
