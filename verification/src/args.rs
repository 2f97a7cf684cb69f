//! Command lines of the external tools, and the user's extra arguments for them.
use vstd::prelude::*;
use crate::headers::{RequestHeaders, BROWSER_USER_AGENT};
use crate::paths::{join_path, spec_join_path};
use crate::text::{chars_of, is_whitespace, is_ws, push_all, string_of, trim, trim_chars, views};

verus! {

/// The tokenizer's state after some characters of the extra arguments.
pub struct TokState {
    pub args: Seq<Seq<char>>,
    pub current: Seq<char>,
    pub quote: Option<char>,
    pub escaped: bool,
}

/// One character of the extra arguments: a backslash takes the next character as it
/// is; quotes group; unquoted whitespace ends an argument.
pub open spec fn tok_step(st: TokState, ch: char) -> TokState {
    if st.escaped {
        TokState { current: st.current.push(ch), escaped: false, ..st }
    } else {
        match st.quote {
            Some(q) => if ch == q {
                TokState { quote: None, ..st }
            } else if ch == '\\' {
                TokState { escaped: true, ..st }
            } else {
                TokState { current: st.current.push(ch), ..st }
            },
            None => if ch == '"' || ch == '\'' {
                TokState { quote: Some(ch), ..st }
            } else if ch == '\\' {
                TokState { escaped: true, ..st }
            } else if is_ws(ch) {
                if st.current.len() > 0 {
                    TokState { args: st.args.push(st.current), current: seq![], ..st }
                } else {
                    st
                }
            } else {
                TokState { current: st.current.push(ch), ..st }
            },
        }
    }
}

/// The tokenizer's state after all of `s`.
pub open spec fn tok_state(s: Seq<char>) -> TokState
    decreases s.len(),
{
    if s.len() == 0 {
        TokState { args: seq![], current: seq![], quote: None, escaped: false }
    } else {
        tok_step(tok_state(s.drop_last()), s.last())
    }
}

/// The extra arguments a user typed, split as a shell would split simple words: none
/// for a missing or blank setting; an error for an unclosed quote.
pub open spec fn spec_parse_extra_args(raw: Option<Seq<char>>) -> Result<Seq<Seq<char>>, Seq<char>> {
    match raw {
        None => Ok(seq![]),
        Some(r) => {
            let t = trim(r);
            if t.len() == 0 {
                Ok(seq![])
            } else {
                let st = tok_state(t);
                if st.quote is Some {
                    Err("附加参数中的引号未闭合。"@)
                } else if st.current.len() > 0 {
                    Ok(st.args.push(st.current))
                } else {
                    Ok(st.args)
                }
            }
        },
    }
}

/// The view of a list of arguments or an error.
pub open spec fn args_result_view(r: Result<Vec<String>, String>) -> Result<Seq<Seq<char>>, Seq<char>> {
    match r {
        Ok(v) => Ok(views(v@)),
        Err(e) => Err(e@),
    }
}

pub fn parse_extra_args(raw: Option<&str>) -> (r: Result<Vec<String>, String>)
    ensures
        args_result_view(r) == spec_parse_extra_args(
            match raw {
                Some(s) => Some(s@),
                None => None,
            },
        ),
{
    let text = match raw {
        Some(s) => trim_chars(&chars_of(s)),
        None => {
            let none: Vec<String> = Vec::new();
            assert(views(none@) =~= Seq::<Seq<char>>::empty());
            return Ok(none);
        },
    };
    if text.len() == 0 {
        let none: Vec<String> = Vec::new();
        assert(views(none@) =~= Seq::<Seq<char>>::empty());
        return Ok(none);
    }
    let mut args: Vec<String> = Vec::new();
    let mut current: Vec<char> = Vec::new();
    let mut quote: Option<char> = None;
    let mut escaped = false;
    let mut i: usize = 0;
    assert(text@.take(0) =~= Seq::<char>::empty());
    assert(views(args@) =~= Seq::<Seq<char>>::empty());
    assert(current@ =~= Seq::<char>::empty());
    while i < text.len()
        invariant
            i <= text.len(),
            tok_state(text@.take(i as int)) == (TokState {
                args: views(args@),
                current: current@,
                quote,
                escaped,
            }),
        decreases text.len() - i,
    {
        let ch = text[i];
        let ghost st = tok_state(text@.take(i as int));
        proof {
            assert(text@.take(i + 1).drop_last() =~= text@.take(i as int));
            assert(text@.take(i + 1).last() == ch);
        }
        if escaped {
            current.push(ch);
            escaped = false;
        } else {
            match quote {
                Some(q) => {
                    if ch == q {
                        quote = None;
                    } else if ch == '\\' {
                        escaped = true;
                    } else {
                        current.push(ch);
                    }
                },
                None => {
                    if ch == '"' || ch == '\'' {
                        quote = Some(ch);
                    } else if ch == '\\' {
                        escaped = true;
                    } else if is_whitespace(ch) {
                        if current.len() > 0 {
                            let ghost before = args@;
                            let word = string_of(current.as_slice());
                            args.push(word);
                            current = Vec::new();
                            assert(views(args@) =~= views(before).push(word@));
                        }
                    } else {
                        current.push(ch);
                    }
                },
            }
        }
        assert(tok_state(text@.take(i + 1)) == (TokState {
            args: views(args@),
            current: current@,
            quote,
            escaped,
        }));
        i = i + 1;
    }
    assert(text@.take(text.len() as int) =~= text@);
    if quote.is_some() {
        return Err(String::from_str("附加参数中的引号未闭合。"));
    }
    if current.len() > 0 {
        let ghost before = args@;
        let word = string_of(current.as_slice());
        args.push(word);
        assert(views(args@) =~= views(before).push(word@));
    }
    Ok(args)
}

/// `prefix` followed by the value, where the value is set.
pub open spec fn opt_arg(prefix: Seq<char>, v: Option<String>) -> Seq<Seq<char>> {
    match v {
        Some(x) => seq![prefix + x@],
        None => seq![],
    }
}

/// The header options of aria2: referer, origin and cookie as headers, the user agent
/// (the browser identity where none is set), then accept headers.
pub open spec fn aria2_header_args(h: RequestHeaders) -> Seq<Seq<char>> {
    opt_arg("--header=Referer: "@, h.referer) + opt_arg("--header=Origin: "@, h.origin) + opt_arg(
        "--header=Cookie: "@,
        h.cookie,
    ) + seq![
        "--user-agent="@ + match h.user_agent {
            Some(u) => u@,
            None => BROWSER_USER_AGENT@,
        },
    ] + opt_arg("--header=Accept: "@, h.accept) + opt_arg(
        "--header=Accept-Language: "@,
        h.accept_language,
    )
}

/// The fixed options of aria2: the input list, the output directory, 32 parallel
/// downloads of one connection each, resumption and retries.
pub open spec fn aria2_base_args(working_dir: Seq<char>) -> Seq<Seq<char>> {
    seq![
        "--enable-rpc=false"@,
        "-i"@,
        spec_join_path(working_dir, "aria2.txt"@),
        "-d"@,
        spec_join_path(working_dir, "parts"@),
        "-j"@,
        "32"@,
        "-x"@,
        "1"@,
        "-s"@,
        "1"@,
        "-c"@,
        "--max-tries=8"@,
        "--retry-wait=2"@,
        "--summary-interval=5"@,
    ]
}

fn push_str(out: &mut Vec<String>, s: &str)
    ensures
        views(final(out)@) == views(old(out)@).push(s@),
{
    let ghost before = out@;
    let v = String::from_str(s);
    out.push(v);
    assert(views(out@) =~= views(before).push(s@));
}

fn push_opt_arg(out: &mut Vec<String>, prefix: &str, v: &Option<String>)
    ensures
        views(final(out)@) == views(old(out)@) + opt_arg(prefix@, *v),
{
    match v {
        Some(x) => {
            let ghost before = out@;
            let arg = crate::text::concat(prefix, x.as_str());
            out.push(arg);
            assert(views(out@) =~= views(before) + opt_arg(prefix@, *v));
        },
        None => {
            assert(views(out@) =~= views(out@) + opt_arg(prefix@, *v));
        },
    }
}

fn append_args(out: &mut Vec<String>, extra: Vec<String>)
    ensures
        views(final(out)@) == views(old(out)@) + views(extra@),
{
    let ghost before = out@;
    let mut i: usize = 0;
    while i < extra.len()
        invariant
            i <= extra.len(),
            views(out@) == views(before) + views(extra@).take(i as int),
        decreases extra.len() - i,
    {
        let ghost prev = out@;
        let v = extra[i].clone();
        out.push(v);
        assert(views(out@) =~= views(prev).push(extra@[i as int]@));
        assert(views(out@) =~= views(before) + views(extra@).take(i + 1));
        i = i + 1;
    }
    assert(views(extra@).take(extra.len() as int) =~= views(extra@));
}

/// The aria2 command line for the segments listed in the working directory.
pub fn aria2_args(working_dir: &str, headers: &RequestHeaders, extra: Option<&str>) -> (r: Result<Vec<String>, String>)
    ensures
        args_result_view(r) == (match spec_parse_extra_args(
            match extra {
                Some(s) => Some(s@),
                None => None,
            },
        ) {
            Ok(x) => Ok(aria2_base_args(working_dir@) + aria2_header_args(*headers) + x),
            Err(e) => Err(e),
        }),
{
    let mut args: Vec<String> = Vec::new();
    push_str(&mut args, "--enable-rpc=false");
    push_str(&mut args, "-i");
    let list = join_path(working_dir, "aria2.txt");
    push_str(&mut args, list.as_str());
    push_str(&mut args, "-d");
    let parts = join_path(working_dir, "parts");
    push_str(&mut args, parts.as_str());
    push_str(&mut args, "-j");
    push_str(&mut args, "32");
    push_str(&mut args, "-x");
    push_str(&mut args, "1");
    push_str(&mut args, "-s");
    push_str(&mut args, "1");
    push_str(&mut args, "-c");
    push_str(&mut args, "--max-tries=8");
    push_str(&mut args, "--retry-wait=2");
    push_str(&mut args, "--summary-interval=5");
    assert(views(args@) =~= aria2_base_args(working_dir@));
    let ghost base = views(args@);
    push_opt_arg(&mut args, "--header=Referer: ", &headers.referer);
    push_opt_arg(&mut args, "--header=Origin: ", &headers.origin);
    push_opt_arg(&mut args, "--header=Cookie: ", &headers.cookie);
    let agent = match &headers.user_agent {
        Some(u) => crate::text::concat("--user-agent=", u.as_str()),
        None => crate::text::concat("--user-agent=", BROWSER_USER_AGENT),
    };
    push_str(&mut args, agent.as_str());
    push_opt_arg(&mut args, "--header=Accept: ", &headers.accept);
    push_opt_arg(&mut args, "--header=Accept-Language: ", &headers.accept_language);
    assert(views(args@) =~= base + aria2_header_args(*headers));
    match parse_extra_args(extra) {
        Ok(x) => {
            append_args(&mut args, x);
            Ok(args)
        },
        Err(e) => Err(e),
    }
}

/// The fixed options of the ffmpeg merge: concatenate the listed segments without
/// re-encoding and fix the AAC bitstream.
pub open spec fn ffmpeg_base_args(working_dir: Seq<char>) -> Seq<Seq<char>> {
    seq![
        "-hide_banner"@,
        "-y"@,
        "-f"@,
        "concat"@,
        "-safe"@,
        "0"@,
        "-i"@,
        spec_join_path(working_dir, "concat.txt"@),
        "-c"@,
        "copy"@,
        "-bsf:a"@,
        "aac_adtstoasc"@,
    ]
}

/// The ffmpeg command line that merges the segments into `output_path`; the user's
/// extra arguments come before the output.
pub fn ffmpeg_merge_args(working_dir: &str, output_path: &str, extra: Option<&str>) -> (r: Result<Vec<String>, String>)
    ensures
        args_result_view(r) == (match spec_parse_extra_args(
            match extra {
                Some(s) => Some(s@),
                None => None,
            },
        ) {
            Ok(x) => Ok(ffmpeg_base_args(working_dir@) + x + seq![output_path@]),
            Err(e) => Err(e),
        }),
{
    let mut args: Vec<String> = Vec::new();
    push_str(&mut args, "-hide_banner");
    push_str(&mut args, "-y");
    push_str(&mut args, "-f");
    push_str(&mut args, "concat");
    push_str(&mut args, "-safe");
    push_str(&mut args, "0");
    push_str(&mut args, "-i");
    let list = join_path(working_dir, "concat.txt");
    push_str(&mut args, list.as_str());
    push_str(&mut args, "-c");
    push_str(&mut args, "copy");
    push_str(&mut args, "-bsf:a");
    push_str(&mut args, "aac_adtstoasc");
    assert(views(args@) =~= ffmpeg_base_args(working_dir@));
    match parse_extra_args(extra) {
        Ok(x) => {
            let ghost base = views(args@);
            let ghost xs = views(x@);
            append_args(&mut args, x);
            push_str(&mut args, output_path);
            assert(views(args@) =~= base + xs + seq![output_path@]);
            Ok(args)
        },
        Err(e) => Err(e),
    }
}

/// The ffprobe command line that lists the streams of a segment file as JSON.
pub fn ffprobe_stream_args(path: &str) -> (r: Vec<String>)
    ensures
        views(r@) == seq![
            "-hide_banner"@,
            "-v"@,
            "error"@,
            "-show_entries"@,
            "stream=codec_type,codec_name"@,
            "-of"@,
            "json"@,
            path@,
        ],
{
    let mut args: Vec<String> = Vec::new();
    push_str(&mut args, "-hide_banner");
    push_str(&mut args, "-v");
    push_str(&mut args, "error");
    push_str(&mut args, "-show_entries");
    push_str(&mut args, "stream=codec_type,codec_name");
    push_str(&mut args, "-of");
    push_str(&mut args, "json");
    push_str(&mut args, path);
    args
}

/// The ffprobe command line that reports the duration, size and streams of the output.
pub fn ffprobe_verify_args(path: &str) -> (r: Vec<String>)
    ensures
        views(r@) == seq![
            "-hide_banner"@,
            "-v"@,
            "error"@,
            "-show_entries"@,
            "format=duration,size"@,
            "-show_entries"@,
            "stream=index,codec_type,codec_name,width,height"@,
            "-of"@,
            "default=noprint_wrappers=1"@,
            path@,
        ],
{
    let mut args: Vec<String> = Vec::new();
    push_str(&mut args, "-hide_banner");
    push_str(&mut args, "-v");
    push_str(&mut args, "error");
    push_str(&mut args, "-show_entries");
    push_str(&mut args, "format=duration,size");
    push_str(&mut args, "-show_entries");
    push_str(&mut args, "stream=index,codec_type,codec_name,width,height");
    push_str(&mut args, "-of");
    push_str(&mut args, "default=noprint_wrappers=1");
    push_str(&mut args, path);
    args
}

} // verus!
