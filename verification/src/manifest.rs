//! Reading a media playlist into segments, one line per step, and the files that the
//! download tools are given.
use vstd::prelude::*;
use crate::hls::{
    master_scores_fit, playlist_kind, select_master_variant, spec_master_variant,
    spec_playlist_kind, spec_segment_name, segment_name, PlaylistKind,
};
use crate::messages::{response_preview, spec_response_preview};
use crate::keys::{
    directive_view, finish_key, key_opt_view, key_plan, key_view, parse_segment_key,
    spec_finish_key, KeyDirective, KeyPlan, SegmentKey,
};
use crate::paths::{join_path, spec_join_path};
use crate::text::{
    chars_of, join, opt_view, parse_u64, parse_u64_spec, push_all, push_chars,
    replace_char, replace_char_chars, slice_chars, split_lines, starts_with, starts_with_chars,
    string_of, trim, trim_chars, views, lines,
};
use crate::urls::{url_join, WebUrl};

verus! {

/// One segment to download: its URL, its media sequence number and its key.
pub struct SegmentEntry {
    pub url: WebUrl,
    pub sequence: u64,
    pub encryption: Option<SegmentKey>,
}

/// A segment as values.
pub open spec fn entry_view(e: SegmentEntry) -> (Seq<char>, u64, Option<(Seq<u8>, Option<Seq<u8>>)>) {
    (e.url@, e.sequence, key_opt_view(e.encryption))
}

/// Segments as values.
pub open spec fn entry_views(v: Seq<SegmentEntry>) -> Seq<(Seq<char>, u64, Option<(Seq<u8>, Option<Seq<u8>>)>)> {
    v.map_values(|e: SegmentEntry| entry_view(e))
}

/// The scan of a media playlist's lines, as `resolve_m3u8` walks them: it stops to have a
/// key fetched and resumes with the fetched body.
pub struct MediaScan {
    pub base: WebUrl,
    pub lines: Vec<String>,
    pub pos: usize,
    pub next_sequence: u64,
    pub current_key: Option<SegmentKey>,
    pub awaiting_iv: Option<Option<String>>,
    pub segments: Vec<SegmentEntry>,
    pub full_lines: Vec<String>,
}

/// What the caller does after a step.
pub enum ScanAction {
    /// Call `advance` again.
    Continue,
    /// Fetch the key at this URL and hand its body to `key_fetched`.
    FetchKey(WebUrl),
    /// The playlist cannot be downloaded.
    Failed(String),
    /// All lines are read and there is at least one segment.
    Finished,
}

/// The prefix of a media sequence line.
pub open spec fn media_sequence_prefix() -> Seq<char> {
    "#EXT-X-MEDIA-SEQUENCE:"@
}

/// The number on a media sequence line, zero where it does not parse.
pub open spec fn media_sequence(t: Seq<char>) -> u64 {
    match parse_u64_spec(trim(t.skip(media_sequence_prefix().len() as int))) {
        Some(n) => n,
        None => 0,
    }
}

/// `u64::saturating_add(x, 1)`.
pub open spec fn next_seq(x: u64) -> u64 {
    if x == u64::MAX {
        x
    } else {
        (x + 1) as u64
    }
}

/// Everything but the position, the awaited IV, the segments and the kept lines stays.
pub open spec fn same_frame(s: MediaScan, t: MediaScan) -> bool {
    t.base == s.base && t.lines == s.lines
}

/// The line is kept as it is and the scan moves on, with `key` as the current key.
pub open spec fn kept_line(s: MediaScan, t: MediaScan, next_sequence: u64, key: Option<(Seq<u8>, Option<Seq<u8>>)>) -> bool {
    &&& t.pos == s.pos + 1
    &&& t.next_sequence == next_sequence
    &&& key_opt_view(t.current_key) == key
    &&& t.awaiting_iv is None
    &&& entry_views(t.segments@) == entry_views(s.segments@)
    &&& views(t.full_lines@) == views(s.full_lines@).push(s.lines@[s.pos as int]@)
}

/// Nothing changes.
pub open spec fn unchanged(s: MediaScan, t: MediaScan) -> bool {
    &&& t.pos == s.pos
    &&& t.next_sequence == s.next_sequence
    &&& key_opt_view(t.current_key) == key_opt_view(s.current_key)
    &&& t.awaiting_iv == s.awaiting_iv
    &&& entry_views(t.segments@) == entry_views(s.segments@)
    &&& views(t.full_lines@) == views(s.full_lines@)
}

/// One step over the line at `s.pos`: blank lines and comments are kept, a media
/// sequence line sets the next number, a key line keeps the key, clears it (`METHOD=NONE`:
/// the segments that follow are not encrypted), fails or asks for a key, and
/// any other line is a segment URI, resolved against the playlist URL.
pub open spec fn line_step(s: MediaScan, t: MediaScan, r: ScanAction) -> bool {
    let line = s.lines@[s.pos as int]@;
    let tr = trim(line);
    if tr.len() == 0 || starts_with(tr, "#"@) {
        if starts_with(tr, media_sequence_prefix()) {
            r is Continue && kept_line(s, t, media_sequence(tr), key_opt_view(s.current_key))
        } else {
            match key_plan(tr, s.base@) {
                KeyPlan::Keep => r is Continue && kept_line(s, t, s.next_sequence, key_opt_view(s.current_key)),
                KeyPlan::Clear => r is Continue && kept_line(s, t, s.next_sequence, None),
                KeyPlan::Fail(m) => (r matches ScanAction::Failed(e) && e@ == m) && unchanged(s, t),
                KeyPlan::Fetch(u, iv) => {
                    &&& r matches ScanAction::FetchKey(k) && k@ == u
                    &&& t.pos == s.pos
                    &&& t.next_sequence == s.next_sequence
                    &&& key_opt_view(t.current_key) == key_opt_view(s.current_key)
                    &&& t.awaiting_iv matches Some(w) && opt_view(w) == iv
                    &&& entry_views(t.segments@) == entry_views(s.segments@)
                    &&& views(t.full_lines@) == views(s.full_lines@)
                },
            }
        }
    } else {
        match url_join(s.base@, tr) {
            None => (r matches ScanAction::Failed(e) && e@ == "无法解析分片 URL："@ + tr) && unchanged(s, t),
            Some(u) => {
                &&& r is Continue
                &&& t.pos == s.pos + 1
                &&& t.next_sequence == next_seq(s.next_sequence)
                &&& key_opt_view(t.current_key) == key_opt_view(s.current_key)
                &&& t.awaiting_iv is None
                &&& entry_views(t.segments@) == entry_views(s.segments@).push(
                    (u, s.next_sequence, key_opt_view(s.current_key)),
                )
                &&& views(t.full_lines@) == views(s.full_lines@).push(u)
            },
        }
    }
}

fn clone_key(k: &Option<SegmentKey>) -> (r: Option<SegmentKey>)
    ensures
        key_opt_view(r) == key_opt_view(*k),
{
    match k {
        Some(k) => Some(k.clone()),
        None => None,
    }
}

impl MediaScan {
    pub open spec fn wf(&self) -> bool {
        self.pos <= self.lines@.len()
    }

    /// A scan of `text`, the playlist at `base`, before its first line.
    pub fn new(base: WebUrl, text: &str) -> (s: Self)
        ensures
            s.wf(),
            s.base == base,
            views(s.lines@) == lines(text@),
            s.pos == 0,
            s.next_sequence == 0,
            s.current_key is None,
            s.awaiting_iv is None,
            s.segments@.len() == 0,
            s.full_lines@.len() == 0,
    {
        let v = chars_of(text);
        let ls = split_lines(&v);
        let mut out: Vec<String> = Vec::new();
        let mut i: usize = 0;
        while i < ls.len()
            invariant
                i <= ls.len(),
                ls@.len() == lines(v@).len(),
                forall|k: int| 0 <= k < ls@.len() ==> (#[trigger] ls@[k])@ == lines(v@)[k],
                views(out@) == lines(v@).take(i as int),
            decreases ls.len() - i,
        {
            let ghost prev = out@;
            let line = string_of(ls[i].as_slice());
            out.push(line);
            assert(views(out@) =~= views(prev).push(line@));
            assert(views(out@) =~= lines(v@).take(i + 1));
            i = i + 1;
        }
        assert(lines(v@).take(ls.len() as int) =~= lines(v@));
        MediaScan {
            base,
            lines: out,
            pos: 0,
            next_sequence: 0,
            current_key: None,
            awaiting_iv: None,
            segments: Vec::new(),
            full_lines: Vec::new(),
        }
    }

    /// Reads the next line, or finishes after the last one.
    pub fn advance(&mut self) -> (r: ScanAction)
        requires
            old(self).wf(),
            old(self).awaiting_iv is None,
        ensures
            final(self).wf(),
            same_frame(*old(self), *final(self)),
            old(self).pos == old(self).lines@.len() ==> unchanged(*old(self), *final(self)),
            old(self).pos == old(self).lines@.len() && old(self).segments@.len() > 0 ==> r is Finished,
            old(self).pos == old(self).lines@.len() && old(self).segments@.len() == 0 ==> (r matches ScanAction::Failed(m)
                && m@ == "m3u8 中没有找到可下载分片。"@),
            old(self).pos < old(self).lines@.len() ==> line_step(*old(self), *final(self), r),
    {
        if self.pos == self.lines.len() {
            if self.segments.len() > 0 {
                return ScanAction::Finished;
            } else {
                return ScanAction::Failed(String::from_str("m3u8 中没有找到可下载分片。"));
            }
        }
        let ghost s = *self;
        let line = chars_of(self.lines[self.pos].as_str());
        let t = trim_chars(&line);
        let hash = chars_of("#");
        let prefix = chars_of("#EXT-X-MEDIA-SEQUENCE:");
        if t.len() == 0 || starts_with_chars(&t, &hash) {
            if starts_with_chars(&t, &prefix) {
                let rest = slice_chars(&t, prefix.len(), t.len());
                let value = trim_chars(&rest);
                self.next_sequence = match parse_u64(&value) {
                    Some(n) => n,
                    None => 0,
                };
                proof {
                    assert(rest@ =~= t@.skip(media_sequence_prefix().len() as int));
                }
            } else {
                let t_string = string_of(t.as_slice());
                match parse_segment_key(t_string.as_str(), &self.base) {
                    KeyDirective::Keep => {},
                    KeyDirective::Clear => {
                        self.current_key = None;
                    },
                    KeyDirective::Fail(m) => {
                        return ScanAction::Failed(m);
                    },
                    KeyDirective::Fetch(url, iv) => {
                        self.awaiting_iv = Some(iv);
                        return ScanAction::FetchKey(url);
                    },
                }
            }
            let kept = self.lines[self.pos].clone();
            self.full_lines.push(kept);
            self.pos = self.pos + 1;
            proof {
                assert(views(self.full_lines@) =~= views(s.full_lines@).push(s.lines@[s.pos as int]@));
            }
            return ScanAction::Continue;
        }
        let t_string = string_of(t.as_slice());
        match self.base.join(t_string.as_str()) {
            None => {
                ScanAction::Failed(crate::text::concat("无法解析分片 URL：", t_string.as_str()))
            },
            Some(url) => {
                let shown = String::from_str(url.as_str());
                let entry = SegmentEntry {
                    url,
                    sequence: self.next_sequence,
                    encryption: clone_key(&self.current_key),
                };
                self.segments.push(entry);
                self.full_lines.push(shown);
                self.next_sequence = self.next_sequence.saturating_add(1);
                self.pos = self.pos + 1;
                proof {
                    assert(entry_views(self.segments@) =~= entry_views(s.segments@).push(
                        entry_view(entry),
                    ));
                    assert(views(self.full_lines@) =~= views(s.full_lines@).push(shown@));
                }
                ScanAction::Continue
            },
        }
    }

    /// Takes the body of the key that `advance` asked for, or the error of fetching it.
    pub fn key_fetched(&mut self, fetched: Result<Vec<u8>, String>) -> (r: ScanAction)
        requires
            old(self).wf(),
            old(self).awaiting_iv is Some,
            old(self).pos < old(self).lines@.len(),
        ensures
            final(self).wf(),
            same_frame(*old(self), *final(self)),
            match fetched {
                Err(e) => (r matches ScanAction::Failed(m) && m@ == e@) && unchanged(*old(self), *final(self)),
                Ok(bytes) => match spec_finish_key(bytes@, opt_view(old(self).awaiting_iv->0)) {
                    Err(e) => (r matches ScanAction::Failed(m) && m@ == e) && unchanged(*old(self), *final(self)),
                    Ok(k) => {
                        &&& r is Continue
                        &&& final(self).pos == old(self).pos + 1
                        &&& final(self).next_sequence == old(self).next_sequence
                        &&& key_opt_view(final(self).current_key) == Some(k)
                        &&& final(self).awaiting_iv is None
                        &&& entry_views(final(self).segments@) == entry_views(old(self).segments@)
                        &&& views(final(self).full_lines@) == views(old(self).full_lines@).push(
                            old(self).lines@[old(self).pos as int]@,
                        )
                    },
                },
            },
    {
        let ghost s = *self;
        let n = self.lines.len();
        let bytes = match fetched {
            Ok(bytes) => bytes,
            Err(e) => {
                return ScanAction::Failed(e);
            },
        };
        let iv = match &self.awaiting_iv {
            Some(iv) => crate::text::clone_opt(iv),
            None => None,
        };
        match finish_key(bytes, iv) {
            Err(e) => ScanAction::Failed(e),
            Ok(key) => {
                self.current_key = Some(key);
                self.awaiting_iv = None;
                let kept = self.lines[self.pos].clone();
                self.full_lines.push(kept);
                self.pos = self.pos + 1;
                proof {
                    assert(views(self.full_lines@) =~= views(s.full_lines@).push(s.lines@[s.pos as int]@));
                }
                ScanAction::Continue
            },
        }
    }
}

/// The text of `full.m3u8`: the kept lines joined by newlines.
pub fn full_playlist_text(scan: &MediaScan) -> (r: String)
    ensures
        r@ == join(views(scan.full_lines@), "\n"@),
{
    crate::text::join_strings(&scan.full_lines, "\n")
}

/// The aria2 input list: each segment URL, then an indented `out=` line naming its file.
pub open spec fn aria2_text(urls: Seq<Seq<char>>) -> Seq<char>
    decreases urls.len(),
{
    if urls.len() == 0 {
        seq![]
    } else {
        aria2_text(urls.drop_last()) + urls.last() + "\n  out="@ + spec_segment_name(
            (urls.len() - 1) as nat,
        ) + "\n"@
    }
}

/// The URLs of the segments.
pub open spec fn entry_urls(v: Seq<SegmentEntry>) -> Seq<Seq<char>> {
    v.map_values(|e: SegmentEntry| e.url@)
}

pub fn aria2_input(segments: &Vec<SegmentEntry>) -> (r: String)
    ensures
        r@ == aria2_text(entry_urls(segments@)),
{
    let mut out: Vec<char> = Vec::new();
    let mut i: usize = 0;
    while i < segments.len()
        invariant
            i <= segments.len(),
            out@ == aria2_text(entry_urls(segments@.take(i as int))),
        decreases segments.len() - i,
    {
        let ghost prev = out@;
        push_all(&mut out, segments[i].url.as_str());
        push_all(&mut out, "\n  out=");
        let name = segment_name(i);
        push_all(&mut out, name.as_str());
        push_all(&mut out, "\n");
        proof {
            let u = entry_urls(segments@.take(i + 1));
            assert(u.drop_last() =~= entry_urls(segments@.take(i as int)));
            assert(u.last() == segments@[i as int].url@);
            assert(u.len() == i + 1);
        }
        i = i + 1;
    }
    assert(segments@.take(segments.len() as int) =~= segments@);
    string_of(out.as_slice())
}

/// The path of segment file `index` under the working directory, as ffmpeg's concat
/// list quotes it: each `'` becomes `'\''`.
pub open spec fn quoted_part_path(working_dir: Seq<char>, index: nat) -> Seq<char> {
    replace_char(
        spec_join_path(spec_join_path(working_dir, "parts"@), spec_segment_name(index)),
        '\'',
        "'\\''"@,
    )
}

/// The ffmpeg concat list of the first `count` segment files.
pub open spec fn concat_text(working_dir: Seq<char>, count: nat) -> Seq<char>
    decreases count,
{
    if count == 0 {
        seq![]
    } else {
        concat_text(working_dir, (count - 1) as nat) + "file '"@ + quoted_part_path(
            working_dir,
            (count - 1) as nat,
        ) + "'\n"@
    }
}

pub fn concat_list(working_dir: &str, count: usize) -> (r: String)
    ensures
        r@ == concat_text(working_dir@, count as nat),
{
    let parts = join_path(working_dir, "parts");
    let mut out: Vec<char> = Vec::new();
    let mut i: usize = 0;
    while i < count
        invariant
            i <= count,
            parts@ == spec_join_path(working_dir@, "parts"@),
            out@ == concat_text(working_dir@, i as nat),
        decreases count - i,
    {
        let name = segment_name(i);
        let path = join_path(parts.as_str(), name.as_str());
        let quoted = replace_char_chars(&chars_of(path.as_str()), '\'', "'\\''");
        push_all(&mut out, "file '");
        push_chars(&mut out, &quoted);
        push_all(&mut out, "'\n");
        i = i + 1;
    }
    string_of(out.as_slice())
}

/// What to do with the playlist text fetched for (or handed with) a URL.
pub enum PlaylistStep {
    /// It is a media playlist: scan it.
    Media,
    /// It is a master playlist: fetch the chosen variant's playlist.
    FetchVariant(WebUrl),
    /// It cannot be used.
    Failed(String),
}

/// A media playlist is used as it is; a master playlist leads to its best variant; any
/// other text is refused with a preview of it.
pub open spec fn playlist_step_holds(r: PlaylistStep, input: Seq<char>, text: Seq<char>) -> bool {
    match spec_playlist_kind(text) {
        Some(PlaylistKind::Media) => r is Media,
        Some(PlaylistKind::Master) => match spec_master_variant(input, text) {
            Ok(u) => r matches PlaylistStep::FetchVariant(v) && v@ == u,
            Err(e) => r matches PlaylistStep::Failed(m) && m@ == e,
        },
        None => r matches PlaylistStep::Failed(m) && m@ == "m3u8 无效或 token 已过期，请重新获取链接。响应摘要："@
            + spec_response_preview(text),
    }
}

pub fn media_playlist_step(input: &WebUrl, text: &str) -> (r: PlaylistStep)
    requires
        master_scores_fit(text@),
    ensures
        playlist_step_holds(r, input@, text@),
{
    match playlist_kind(text) {
        Some(PlaylistKind::Media) => PlaylistStep::Media,
        Some(PlaylistKind::Master) => match select_master_variant(input, text) {
            Ok(u) => PlaylistStep::FetchVariant(u),
            Err(e) => PlaylistStep::Failed(e),
        },
        None => {
            let preview = response_preview(text);
            PlaylistStep::Failed(
                crate::text::concat(
                    "m3u8 无效或 token 已过期，请重新获取链接。响应摘要：",
                    preview.as_str(),
                ),
            )
        },
    }
}

/// The playlist of the chosen variant must itself be a media playlist.
pub fn check_variant_playlist(text: &str) -> (r: Result<(), String>)
    ensures
        spec_playlist_kind(text@) == Some(PlaylistKind::Media) <==> r is Ok,
        r matches Err(m) ==> m@ == "master playlist 中选出的 variant 不是可下载 media playlist。"@,
{
    match playlist_kind(text) {
        Some(PlaylistKind::Media) => Ok(()),
        _ => Err(String::from_str("master playlist 中选出的 variant 不是可下载 media playlist。")),
    }
}

} // verus!
