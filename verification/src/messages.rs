//! Texts shown to the user: response previews, command output summaries, quoting.
use vstd::prelude::*;
use crate::text::{
    chars_of, join, lines, push_all, push_chars, replace_char, replace_char_chars, split_lines,
    string_of, trim, trim_chars, views,
};

verus! {

/// The first 500 characters of a response with line breaks made visible, or
/// `<空响应>` for an empty response.
pub open spec fn spec_response_preview(text: Seq<char>) -> Seq<char> {
    let head = text.take(if text.len() < 500 { text.len() as int } else { 500 });
    let p = replace_char(replace_char(head, '\n', "\\n"@), '\r', "\\r"@);
    if p.len() == 0 {
        "<空响应>"@
    } else {
        p
    }
}

pub fn response_preview(text: &str) -> (r: String)
    ensures
        r@ == spec_response_preview(text@),
{
    let v = chars_of(text);
    let n: usize = if v.len() < 500 {
        v.len()
    } else {
        500
    };
    let head = crate::text::slice_chars(&v, 0, n);
    assert(head@ =~= text@.take(n as int));
    let a = replace_char_chars(&head, '\n', "\\n");
    let p = replace_char_chars(&a, '\r', "\\r");
    if p.len() == 0 {
        String::from_str("<空响应>")
    } else {
        string_of(p.as_slice())
    }
}

/// `s` with `\` doubled and `"` escaped, for an AppleScript string literal.
pub open spec fn spec_escape_applescript_string(value: Seq<char>) -> Seq<char> {
    replace_char(replace_char(value, '\\', "\\\\"@), '"', "\\\""@)
}

pub fn escape_applescript_string(value: &str) -> (r: String)
    ensures
        r@ == spec_escape_applescript_string(value@),
{
    let a = replace_char_chars(&chars_of(value), '\\', "\\\\");
    let b = replace_char_chars(&a, '"', "\\\"");
    string_of(b.as_slice())
}

/// The trimmed non-blank lines of `ls`, in order.
pub open spec fn nonblank_trimmed(ls: Seq<Seq<char>>) -> Seq<Seq<char>>
    decreases ls.len(),
{
    if ls.len() == 0 {
        seq![]
    } else {
        let rest = nonblank_trimmed(ls.drop_last());
        if trim(ls.last()).len() == 0 {
            rest
        } else {
            rest.push(trim(ls.last()))
        }
    }
}

/// The last six non-blank lines of an error output, trimmed and joined by ` | `.
pub open spec fn spec_command_tail(text: Seq<char>) -> Seq<char> {
    let all = nonblank_trimmed(lines(text));
    let tail = if all.len() > 6 {
        all.skip(all.len() - 6)
    } else {
        all
    };
    if tail.len() == 0 {
        "没有错误输出。"@
    } else {
        "错误输出："@ + join(tail, " | "@)
    }
}

pub fn command_tail(text: &str) -> (r: String)
    ensures
        r@ == spec_command_tail(text@),
{
    let v = chars_of(text);
    let ls = split_lines(&v);
    let ghost all_lines = lines(text@);
    let mut kept: Vec<String> = Vec::new();
    let mut i: usize = 0;
    while i < ls.len()
        invariant
            v@ == text@,
            all_lines == lines(text@),
            i <= ls.len(),
            ls@.len() == all_lines.len(),
            forall|k: int| 0 <= k < ls@.len() ==> (#[trigger] ls@[k])@ == all_lines[k],
            views(kept@) == nonblank_trimmed(all_lines.take(i as int)),
        decreases ls.len() - i,
    {
        let t = trim_chars(&ls[i]);
        proof {
            assert(all_lines.take(i + 1).drop_last() =~= all_lines.take(i as int));
            assert(all_lines.take(i + 1).last() == all_lines[i as int]);
        }
        if t.len() > 0 {
            let ghost prev = kept@;
            let s = string_of(t.as_slice());
            kept.push(s);
            assert(views(kept@) =~= views(prev).push(s@));
        }
        i = i + 1;
    }
    assert(all_lines.take(ls.len() as int) =~= all_lines);
    let ghost all = nonblank_trimmed(lines(text@));
    let start: usize = if kept.len() > 6 {
        kept.len() - 6
    } else {
        0
    };
    let mut tail: Vec<String> = Vec::new();
    let mut j: usize = start;
    while j < kept.len()
        invariant
            start <= j <= kept.len(),
            views(kept@) == all,
            views(tail@) == all.subrange(start as int, j as int),
        decreases kept.len() - j,
    {
        let ghost prev = tail@;
        tail.push(kept[j].clone());
        assert(views(tail@) =~= views(prev).push(kept@[j as int]@));
        assert(views(tail@) =~= all.subrange(start as int, j + 1));
        j = j + 1;
    }
    proof {
        if all.len() > 6 {
            assert(all.subrange(start as int, all.len() as int) =~= all.skip(all.len() - 6));
        } else {
            assert(all.subrange(0, all.len() as int) =~= all);
        }
    }
    if tail.len() == 0 {
        String::from_str("没有错误输出。")
    } else {
        let joined = crate::text::join_strings(&tail, " | ");
        crate::text::concat("错误输出：", joined.as_str())
    }
}

/// How many output lines a failing command keeps for its message.
pub const RECENT_OUTPUT_LINES: usize = 12;

/// Keeps a trimmed, non-blank output line among the last twelve.
pub open spec fn spec_remember_line(recent: Seq<Seq<char>>, line: Seq<char>) -> Seq<Seq<char>> {
    if trim(line).len() == 0 {
        recent
    } else if recent.len() == RECENT_OUTPUT_LINES {
        recent.drop_first().push(trim(line))
    } else {
        recent.push(trim(line))
    }
}

pub fn remember_line(recent_output: &mut std::collections::VecDeque<String>, line: &str)
    requires
        old(recent_output)@.len() <= RECENT_OUTPUT_LINES,
    ensures
        final(recent_output)@.len() <= RECENT_OUTPUT_LINES,
        views(final(recent_output)@) == spec_remember_line(views(old(recent_output)@), line@),
{
    let t = trim_chars(&chars_of(line));
    if t.len() == 0 {
        return;
    }
    let ghost before = recent_output@;
    if recent_output.len() == RECENT_OUTPUT_LINES {
        recent_output.pop_front();
    }
    let s = string_of(t.as_slice());
    recent_output.push_back(s);
    proof {
        if before.len() == RECENT_OUTPUT_LINES {
            assert(views(recent_output@) =~= views(before).drop_first().push(s@));
        } else {
            assert(views(recent_output@) =~= views(before).push(s@));
        }
    }
}

/// The kept output lines joined by ` | `, or a note that there were none.
pub open spec fn spec_recent_lines_summary(recent: Seq<Seq<char>>) -> Seq<char> {
    if recent.len() == 0 {
        "没有捕获到命令输出。"@
    } else {
        "最后输出："@ + join(recent, " | "@)
    }
}

pub fn recent_lines_summary(recent_output: &std::collections::VecDeque<String>) -> (r: String)
    ensures
        r@ == spec_recent_lines_summary(views(recent_output@)),
{
    if recent_output.len() == 0 {
        return String::from_str("没有捕获到命令输出。");
    }
    let mut items: Vec<String> = Vec::new();
    let mut i: usize = 0;
    while i < recent_output.len()
        invariant
            i <= recent_output@.len(),
            views(items@) == views(recent_output@).take(i as int),
        decreases recent_output@.len() - i,
    {
        let ghost prev = items@;
        let s = recent_output[i].clone();
        items.push(s);
        assert(views(items@) =~= views(prev).push(recent_output@[i as int]@));
        assert(views(items@) =~= views(recent_output@).take(i + 1));
        i = i + 1;
    }
    assert(views(recent_output@).take(recent_output@.len() as int) =~= views(recent_output@));
    let joined = crate::text::join_strings(&items, " | ");
    crate::text::concat("最后输出：", joined.as_str())
}

} // verus!
