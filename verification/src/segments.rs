//! Checks on the downloaded segment files: completeness, the sample probed before the
//! merge, and which segments need decrypting.
use vstd::prelude::*;
use crate::hls::{segment_name, spec_segment_name};
use crate::manifest::SegmentEntry;
use crate::paths::{join_path, spec_join_path};
use crate::probe::SegmentProbeResult;
use crate::settings::{clamp, global_decrypt_worker_limit, MAX_DECRYPT_WORKERS, MIN_DECRYPT_WORKERS};
use crate::sizes::{format_size, spec_format_size};
use crate::text::{chars_of, decimal, decimal_chars, join, push_all, push_chars, string_of, views};

verus! {

/// `3 * total`, saturating at `usize::MAX`.
pub open spec fn saturating_triple(total: nat) -> nat {
    if 3 * total > usize::MAX {
        usize::MAX as nat
    } else {
        3 * total
    }
}

/// The segments sampled before merging: the first, the quarter, the half, the three
/// quarters (of a saturating triple) and the last.
pub open spec fn is_sample_point(total: nat, x: nat) -> bool {
    x == 0 || x == total / 4 || x == total / 2 || x == saturating_triple(total) / 4 || x == total - 1
}

/// Strictly increasing.
pub open spec fn strictly_increasing(r: Seq<usize>) -> bool {
    forall|i: int, j: int| 0 <= i < j < r.len() ==> r[i] < r[j]
}

/// The sample points, each once, in increasing order (the sort and dedup of the five).
pub open spec fn samples_hold(r: Seq<usize>, total: nat) -> bool {
    &&& strictly_increasing(r)
    &&& forall|i: int| 0 <= i < r.len() ==> is_sample_point(total, #[trigger] r[i] as nat)
    &&& forall|x: nat| is_sample_point(total, x) ==> r.contains(x as usize) && x <= usize::MAX
}

fn insert_sorted(r: &mut Vec<usize>, p: usize)
    requires
        strictly_increasing(old(r)@),
    ensures
        strictly_increasing(final(r)@),
        forall|x: usize| final(r)@.contains(x) <==> (old(r)@.contains(x) || x == p),
{
    let mut j: usize = 0;
    while j < r.len() && r[j] < p
        invariant
            r@ == old(r)@,
            strictly_increasing(r@),
            j <= r@.len(),
            forall|a: int| 0 <= a < j ==> r@[a] < p,
        decreases r@.len() - j,
    {
        j = j + 1;
    }
    if j < r.len() && r[j] == p {
        assert(r@.contains(p));
        return;
    }
    let ghost before = r@;
    r.insert(j, p);
    proof {
        assert(r@ == before.insert(j as int, p));
        assert forall|a: int, b: int| 0 <= a < b < r@.len() implies r@[a] < r@[b] by {
            if b < j {
            } else if b == j {
                assert(r@[a] == before[a]);
            } else if a < j {
                assert(r@[b] == before[b - 1]);
                assert(before[j as int] > p);
            } else if a == j {
                assert(r@[b] == before[b - 1]);
                if b - 1 > j {
                    assert(before[j as int] < before[b - 1]);
                }
            } else {
                assert(r@[a] == before[a - 1]);
                assert(r@[b] == before[b - 1]);
            }
        }
        assert forall|x: usize| r@.contains(x) <==> (before.contains(x) || x == p) by {
            if r@.contains(x) {
                let a = choose|a: int| 0 <= a < r@.len() && r@[a] == x;
                if a < j {
                    assert(before[a] == x);
                } else if a > j {
                    assert(before[a - 1] == x);
                }
            }
            if before.contains(x) {
                let a = choose|a: int| 0 <= a < before.len() && before[a] == x;
                if a < j {
                    assert(r@[a] == x);
                } else {
                    assert(r@[a + 1] == x);
                }
            }
            if x == p {
                assert(r@[j as int] == x);
            }
        }
    }
}

pub fn segment_probe_sample_indices(total: usize) -> (r: Vec<usize>)
    requires
        total >= 1,
    ensures
        samples_hold(r@, total as nat),
{
    let triple: usize = if total > usize::MAX / 3 {
        usize::MAX
    } else {
        total * 3
    };
    assert(triple as nat == saturating_triple(total as nat));
    let mut r: Vec<usize> = Vec::new();
    insert_sorted(&mut r, 0);
    insert_sorted(&mut r, total / 4);
    insert_sorted(&mut r, total / 2);
    insert_sorted(&mut r, triple / 4);
    insert_sorted(&mut r, total - 1);
    proof {
        assert forall|i: int| 0 <= i < r@.len() implies is_sample_point(total as nat, #[trigger] r@[i] as nat) by {
            assert(r@.contains(r@[i]));
        }
        assert forall|x: nat| is_sample_point(total as nat, x) implies r@.contains(x as usize) && x <= usize::MAX by {
            if x == 0 {
                assert(r@.contains(0usize));
            }
        }
    }
    r
}

/// The problem with segment file `index`: none where it has bytes, else its path and
/// whether it is empty or missing.
pub open spec fn segment_problem(parts_dir: Seq<char>, index: nat, size: Option<u64>) -> Seq<Seq<char>> {
    let path = spec_join_path(parts_dir, spec_segment_name(index));
    match size {
        Some(n) => if n > 0 {
            seq![]
        } else {
            seq![path + " (空文件)"@]
        },
        None => seq![path + " (缺失)"@],
    }
}

/// The problems of the first `count` segment files.
pub open spec fn segment_problems(parts_dir: Seq<char>, sizes: Seq<Option<u64>>, count: nat) -> Seq<Seq<char>>
    decreases count,
{
    if count == 0 {
        seq![]
    } else {
        segment_problems(parts_dir, sizes, (count - 1) as nat) + segment_problem(
            parts_dir,
            (count - 1) as nat,
            sizes[count - 1],
        )
    }
}

/// All segment files were downloaded with content; otherwise every missing or empty one
/// is listed.
pub open spec fn spec_verify_segment_files(working_dir: Seq<char>, sizes: Seq<Option<u64>>) -> Result<(), Seq<char>> {
    let problems = segment_problems(spec_join_path(working_dir, "parts"@), sizes, sizes.len());
    if problems.len() == 0 {
        Ok(())
    } else {
        Err("分片下载未完成："@ + join(problems, "，"@))
    }
}

/// Checks the segment files; `sizes[i]` is the size of file `i`, `None` where it does not
/// exist.
pub fn verify_segment_files(working_dir: &str, sizes: &Vec<Option<u64>>) -> (r: Result<(), String>)
    ensures
        match r {
            Ok(()) => spec_verify_segment_files(working_dir@, sizes@) == Ok::<(), Seq<char>>(()),
            Err(e) => spec_verify_segment_files(working_dir@, sizes@) == Err::<(), Seq<char>>(e@),
        },
{
    let parts = join_path(working_dir, "parts");
    let mut problems: Vec<String> = Vec::new();
    let mut i: usize = 0;
    assert(views(problems@) =~= Seq::<Seq<char>>::empty());
    while i < sizes.len()
        invariant
            i <= sizes@.len(),
            parts@ == spec_join_path(working_dir@, "parts"@),
            views(problems@) == segment_problems(parts@, sizes@, i as nat),
        decreases sizes@.len() - i,
    {
        let path = join_path(parts.as_str(), segment_name(i).as_str());
        let ghost before = views(problems@);
        match sizes[i] {
            Some(n) => {
                if n == 0 {
                    let p = crate::text::concat(path.as_str(), " (空文件)");
                    problems.push(p);
                    assert(views(problems@) =~= before.push(p@));
                } else {
                    assert(views(problems@) =~= before + Seq::<Seq<char>>::empty());
                }
            },
            None => {
                let p = crate::text::concat(path.as_str(), " (缺失)");
                problems.push(p);
                assert(views(problems@) =~= before.push(p@));
            },
        }
        proof {
            let sp = segment_problem(parts@, i as nat, sizes@[i as int]);
            if sp.len() == 1 {
                assert(before + sp =~= before.push(sp[0]));
            } else {
                assert(before + sp =~= before);
            }
        }
        i = i + 1;
    }
    if problems.len() == 0 {
        Ok(())
    } else {
        let joined = crate::text::join_strings(&problems, "，");
        Err(crate::text::concat("分片下载未完成：", joined.as_str()))
    }
}

/// What was seen of a sampled segment file.
pub enum SampleObservation {
    /// The file does not exist.
    Missing,
    /// The file has no bytes.
    Empty,
    /// The file was probed: its size, ffprobe's result or error, and (where the probe
    /// found no media stream) the summary of its first bytes.
    Probed {
        size: u64,
        probe: Result<SegmentProbeResult, String>,
        signature: String,
    },
}

/// Whether a probe result asks for the file's first bytes in the report.
pub fn needs_signature(probe: &Result<SegmentProbeResult, String>) -> (r: bool)
    ensures
        r == !(probe matches Ok(p) && p.has_media_stream),
{
    match probe {
        Ok(p) => !p.has_media_stream,
        Err(_) => true,
    }
}

/// The check of the sampled segments before the merge.
pub struct MergeCheck {
    pub parts_dir: String,
    pub indices: Vec<usize>,
    pub next: usize,
    pub reports: Vec<String>,
    pub valid_reports: Vec<String>,
}

pub open spec fn merge_check_ok(c: MergeCheck) -> bool {
    c.next <= c.indices@.len()
}

/// Starts the check: there must be segments; the log line says how many are sampled.
pub fn start_merge_check(working_dir: &str, total: usize) -> (r: Result<(MergeCheck, String), String>)
    ensures
        total == 0 <==> r is Err,
        r matches Err(e) ==> e@ == "没有可检查的分片，无法合并。"@,
        r matches Ok((c, log)) ==> {
            &&& merge_check_ok(c)
            &&& c.next == 0
            &&& c.reports@.len() == 0
            &&& c.valid_reports@.len() == 0
            &&& c.parts_dir@ == spec_join_path(working_dir@, "parts"@)
            &&& samples_hold(c.indices@, total as nat)
            &&& log@ == "合并前检查分片媒体流，抽样 "@ + decimal(c.indices@.len()) + " / "@ + decimal(
                total as nat,
            ) + " 个分片。\n"@
        },
{
    if total == 0 {
        return Err(String::from_str("没有可检查的分片，无法合并。"));
    }
    let indices = segment_probe_sample_indices(total);
    let mut log = chars_of("合并前检查分片媒体流，抽样 ");
    push_chars(&mut log, &decimal_chars(indices.len() as u64));
    push_all(&mut log, " / ");
    push_chars(&mut log, &decimal_chars(total as u64));
    push_all(&mut log, " 个分片。\n");
    Ok((
        MergeCheck {
            parts_dir: join_path(working_dir, "parts"),
            indices,
            next: 0,
            reports: Vec::new(),
            valid_reports: Vec::new(),
        },
        string_of(log.as_slice()),
    ))
}

/// The report line of a probed sample.
pub open spec fn sample_report(index: nat, size: u64, probe: Result<SegmentProbeResult, String>, signature: Seq<char>) -> Seq<char> {
    let head = spec_segment_name(index) + "："@ + spec_format_size(size as nat);
    match probe {
        Ok(p) => if p.has_media_stream {
            head + "，"@ + p.stream_summary@
        } else {
            head + "，"@ + p.stream_summary@ + "，"@ + signature
        },
        Err(e) => head + "，ffprobe 失败："@ + e@ + "，"@ + signature,
    }
}

impl MergeCheck {
    /// The segment to look at next and its path, if any is left.
    pub fn current_sample(&self) -> (r: Option<(usize, String)>)
        requires
            merge_check_ok(*self),
        ensures
            self.next < self.indices@.len() ==> (r matches Some((i, p)) && i == self.indices@[self.next as int]
                && p@ == spec_join_path(self.parts_dir@, spec_segment_name(i as nat))),
            self.next == self.indices@.len() ==> r is None,
    {
        if self.next < self.indices.len() {
            let index = self.indices[self.next];
            Some((index, join_path(self.parts_dir.as_str(), segment_name(index).as_str())))
        } else {
            None
        }
    }

    /// Records what was seen of the current sample: a missing or empty file fails the
    /// check at once; a probed file adds a report line.
    pub fn record(&mut self, observation: SampleObservation) -> (r: Result<(), String>)
        requires
            merge_check_ok(*old(self)),
            old(self).next < old(self).indices@.len(),
        ensures
            merge_check_ok(*final(self)),
            final(self).indices == old(self).indices,
            final(self).parts_dir == old(self).parts_dir,
            ({
                let index = old(self).indices@[old(self).next as int];
                let path = spec_join_path(old(self).parts_dir@, spec_segment_name(index as nat));
                match observation {
                    SampleObservation::Missing => r matches Err(e) && e@ == "合并前检查失败：分片缺失，"@ + path + "。"@,
                    SampleObservation::Empty => r matches Err(e) && e@ == "合并前检查失败：分片为空，"@ + path + "。"@,
                    SampleObservation::Probed { size, probe, signature } => {
                        &&& r is Ok
                        &&& final(self).next == old(self).next + 1
                        &&& if probe matches Ok(p) && p.has_media_stream {
                            views(final(self).valid_reports@) == views(old(self).valid_reports@).push(
                                sample_report(index as nat, size, probe, signature@),
                            ) && views(final(self).reports@) == views(old(self).reports@)
                        } else {
                            views(final(self).reports@) == views(old(self).reports@).push(
                                sample_report(index as nat, size, probe, signature@),
                            ) && views(final(self).valid_reports@) == views(old(self).valid_reports@)
                        }
                    },
                }
            }),
    {
        let count = self.indices.len();
        let index = self.indices[self.next];
        let name = segment_name(index);
        match observation {
            SampleObservation::Missing => {
                let path = join_path(self.parts_dir.as_str(), name.as_str());
                let mut m = chars_of("合并前检查失败：分片缺失，");
                push_all(&mut m, path.as_str());
                push_all(&mut m, "。");
                Err(string_of(m.as_slice()))
            },
            SampleObservation::Empty => {
                let path = join_path(self.parts_dir.as_str(), name.as_str());
                let mut m = chars_of("合并前检查失败：分片为空，");
                push_all(&mut m, path.as_str());
                push_all(&mut m, "。");
                Err(string_of(m.as_slice()))
            },
            SampleObservation::Probed { size, probe, signature } => {
                let mut line = chars_of(name.as_str());
                push_all(&mut line, "：");
                push_all(&mut line, format_size(size).as_str());
                let valid = match &probe {
                    Ok(p) => p.has_media_stream,
                    Err(_) => false,
                };
                match &probe {
                    Ok(p) => {
                        push_all(&mut line, "，");
                        push_all(&mut line, p.stream_summary.as_str());
                        if !p.has_media_stream {
                            push_all(&mut line, "，");
                            push_all(&mut line, signature.as_str());
                        }
                    },
                    Err(e) => {
                        push_all(&mut line, "，ffprobe 失败：");
                        push_all(&mut line, e.as_str());
                        push_all(&mut line, "，");
                        push_all(&mut line, signature.as_str());
                    },
                }
                let text = string_of(line.as_slice());
                if valid {
                    let ghost before = self.valid_reports@;
                    self.valid_reports.push(text);
                    assert(views(self.valid_reports@) =~= views(before).push(text@));
                } else {
                    let ghost before = self.reports@;
                    self.reports.push(text);
                    assert(views(self.reports@) =~= views(before).push(text@));
                }
                assert(self.next < self.indices@.len());
                self.next = self.next + 1;
                Ok(())
            },
        }
    }

    /// Ends the check after the last sample: it passes where no report line was written.
    pub fn finish(&self) -> (r: (String, Result<(), String>))
        ensures
            self.reports@.len() == 0 ==> r.1 is Ok && r.0@ == "分片媒体流检查通过："@ + join(
                views(self.valid_reports@),
                "；"@,
            ) + "。\n"@,
            self.reports@.len() > 0 ==> (r.1 matches Err(e) && e@
                == "合并前检查失败：抽样分片都没有检测到 video/audio 流。可能是分片未正确解密、下载到了错误响应，或 m3u8 token/请求头已失效。"@
                + join(views(self.reports@), "；"@)) && r.0@ == "分片媒体流检查未通过："@ + join(
                views(self.reports@),
                "；"@,
            ) + "。\n"@,
    {
        if self.reports.len() == 0 {
            let joined = crate::text::join_strings(&self.valid_reports, "；");
            let mut log = chars_of("分片媒体流检查通过：");
            push_all(&mut log, joined.as_str());
            push_all(&mut log, "。\n");
            return (string_of(log.as_slice()), Ok(()));
        }
        let joined = crate::text::join_strings(&self.reports, "；");
        let mut log = chars_of("分片媒体流检查未通过：");
        push_all(&mut log, joined.as_str());
        push_all(&mut log, "。\n");
        let error = crate::text::concat(
            "合并前检查失败：抽样分片都没有检测到 video/audio 流。可能是分片未正确解密、下载到了错误响应，或 m3u8 token/请求头已失效。",
            joined.as_str(),
        );
        (string_of(log.as_slice()), Err(error))
    }
}

/// The positions of the encrypted segments, in order.
pub open spec fn encrypted_positions(segments: Seq<SegmentEntry>) -> Seq<nat>
    decreases segments.len(),
{
    if segments.len() == 0 {
        seq![]
    } else {
        let p = encrypted_positions(segments.drop_last());
        if segments.last().encryption is Some {
            p.push((segments.len() - 1) as nat)
        } else {
            p
        }
    }
}

/// The segments to decrypt.
pub fn encrypted_segment_indices(segments: &Vec<SegmentEntry>) -> (r: Vec<usize>)
    ensures
        r@.map_values(|i: usize| i as nat) == encrypted_positions(segments@),
{
    let mut r: Vec<usize> = Vec::new();
    let mut i: usize = 0;
    while i < segments.len()
        invariant
            i <= segments@.len(),
            r@.map_values(|i: usize| i as nat) == encrypted_positions(segments@.take(i as int)),
        decreases segments@.len() - i,
    {
        proof {
            assert(segments@.take(i + 1).drop_last() =~= segments@.take(i as int));
            assert(segments@.take(i + 1).last() == segments@[i as int]);
        }
        if segments[i].encryption.is_some() {
            let ghost before = r@;
            r.push(i);
            assert(r@.map_values(|i: usize| i as nat) =~= before.map_values(|i: usize| i as nat).push(i as nat));
        }
        i = i + 1;
    }
    assert(segments@.take(segments@.len() as int) =~= segments@);
    r
}

/// How many threads decrypt: one per encrypted segment, at most the global limit.
pub fn decrypt_worker_count(encrypted: usize, global_limit: usize) -> (r: usize)
    ensures
        r == if encrypted < global_limit { encrypted } else { global_limit },
{
    if encrypted < global_limit {
        encrypted
    } else {
        global_limit
    }
}

/// The log line before decrypting.
pub fn decrypt_plan_message(encrypted: usize, global_limit: usize) -> (r: String)
    ensures
        r@ == "并行解密 "@ + decimal(encrypted as nat) + " 个加密分片，全局解密槽位："@ + decimal(
            global_limit as nat,
        ) + "。\n"@,
{
    let mut v = chars_of("并行解密 ");
    push_chars(&mut v, &decimal_chars(encrypted as u64));
    push_all(&mut v, " 个加密分片，全局解密槽位：");
    push_chars(&mut v, &decimal_chars(global_limit as u64));
    push_all(&mut v, "。\n");
    string_of(v.as_slice())
}

/// The log line when all decryption slots are taken.
pub fn decrypt_wait_message(active: usize, limit: usize) -> (r: String)
    ensures
        r@ == "全局解密槽位已满，等待可用槽位（"@ + decimal(active as nat) + "/"@ + decimal(limit as nat)
            + " 已占用）。\n"@,
{
    let mut v = chars_of("全局解密槽位已满，等待可用槽位（");
    push_chars(&mut v, &decimal_chars(active as u64));
    push_all(&mut v, "/");
    push_chars(&mut v, &decimal_chars(limit as u64));
    push_all(&mut v, " 已占用）。\n");
    string_of(v.as_slice())
}

/// What a decryption worker does after asking for a global slot.
pub enum SlotStep {
    /// A slot was taken; release it with `DecryptSlots::release` when done.
    Acquired,
    /// All slots are taken and the task's log does not show it: log the line, keep
    /// note that it was logged, and ask again.
    LogWait(String),
    /// All slots are taken: wait for a release (or a short timeout) and ask again.
    Wait,
}

/// The global count of decryption slots in use, shared by all tasks.
pub struct DecryptSlots {
    pub active: usize,
}

/// The outcome of asking for a slot while `active` are in use under the stored limit.
pub open spec fn slot_step_holds(active: usize, stored_limit: u64, wait_logged: bool, after: usize, r: SlotStep) -> bool {
    let limit = clamp(stored_limit as int, MIN_DECRYPT_WORKERS as int, MAX_DECRYPT_WORKERS as int);
    if active < limit {
        r is Acquired && after == active + 1
    } else {
        &&& after == active
        &&& if wait_logged {
            r is Wait
        } else {
            r matches SlotStep::LogWait(m) && m@ == "全局解密槽位已满，等待可用槽位（"@ + decimal(active as nat)
                + "/"@ + decimal(limit as nat) + " 已占用）。\n"@
        }
    }
}

impl DecryptSlots {
    /// Takes a slot if fewer than the limit (clamped to its bounds) are in use.
    pub fn try_acquire(&mut self, stored_limit: u64, wait_logged: bool) -> (r: SlotStep)
        ensures
            slot_step_holds(old(self).active, stored_limit, wait_logged, final(self).active, r),
    {
        let limit = global_decrypt_worker_limit(stored_limit);
        if self.active < limit {
            self.active = self.active + 1;
            SlotStep::Acquired
        } else if wait_logged {
            SlotStep::Wait
        } else {
            SlotStep::LogWait(decrypt_wait_message(self.active, limit))
        }
    }

    /// Gives a slot back (never below zero).
    pub fn release(&mut self)
        ensures
            final(self).active == if old(self).active > 0 {
                old(self).active - 1
            } else {
                0
            },
    {
        self.active = self.active.saturating_sub(1);
    }
}

/// A granted slot never takes the count past the limit, and giving it back restores
/// the count from before.
pub proof fn lemma_slots_bounded(active: usize, stored_limit: u64, wait_logged: bool, after: usize, r: SlotStep)
    requires
        slot_step_holds(active, stored_limit, wait_logged, after, r),
    ensures
        r is Acquired ==> after <= clamp(stored_limit as int, MIN_DECRYPT_WORKERS as int, MAX_DECRYPT_WORKERS as int)
            && after > 0 && after - 1 == active,
        !(r is Acquired) ==> after == active,
        active <= clamp(stored_limit as int, MIN_DECRYPT_WORKERS as int, MAX_DECRYPT_WORKERS as int)
            ==> after <= clamp(stored_limit as int, MIN_DECRYPT_WORKERS as int, MAX_DECRYPT_WORKERS as int),
{
}

} // verus!
