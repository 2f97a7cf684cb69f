//! What the HTTP replies for pages, playlists and keys mean: the body, or the message a
//! task fails with, and the log lines of a page request. The requests themselves are
//! the caller's.
use vstd::prelude::*;
use crate::candidates::url_views;
use crate::messages::{response_preview, spec_response_preview};
use crate::text::{chars_of, decimal, decimal_chars, push_all, push_chars, string_of, views};
use crate::urls::WebUrl;

verus! {

/// How a text request went: it could not be sent (the error's text); the server
/// answered with a status that is not a success (the status line and the body, empty
/// where it could not be read); or with a success status (the status line, and the body
/// or the error of reading it).
pub enum HttpReply {
    SendFailed(String),
    Refused(String, String),
    Body(String, Result<String, String>),
}

/// The same for a request whose body is kept as bytes.
pub enum BinaryReply {
    SendFailed(String),
    Refused(String, String),
    Body(Result<Vec<u8>, String>),
}

/// The log line before a page is requested.
pub fn page_fetch_start_line(page_url: &WebUrl) -> (r: String)
    ensures
        r@ == "开始请求网页 HTML: "@ + page_url@ + "\n"@,
{
    let mut v = chars_of("开始请求网页 HTML: ");
    push_all(&mut v, page_url.as_str());
    push_all(&mut v, "\n");
    string_of(v.as_slice())
}

pub open spec fn status_line(status: Seq<char>) -> Seq<char> {
    "网页 HTTP 状态码: "@ + status + "\n"@
}

/// The log lines and the outcome of a page request: the status is logged once the
/// server answered; a page that was read is logged with its length in characters.
pub open spec fn page_fetch_holds(reply: HttpReply, r: (Vec<String>, Result<String, String>)) -> bool {
    match reply {
        HttpReply::SendFailed(e) => {
            &&& views(r.0@) == Seq::<Seq<char>>::empty()
            &&& r.1 matches Err(m) && m@ == "网页请求失败："@ + e@
        },
        HttpReply::Refused(status, body) => {
            &&& views(r.0@) == seq![status_line(status@)]
            &&& r.1 matches Err(m) && m@ == "网页请求失败，HTTP 状态码："@ + status@ + "，响应摘要："@
                + spec_response_preview(body@)
        },
        HttpReply::Body(status, Err(e)) => {
            &&& views(r.0@) == seq![status_line(status@)]
            &&& r.1 matches Err(m) && m@ == "读取网页内容失败："@ + e@
        },
        HttpReply::Body(status, Ok(html)) => {
            &&& views(r.0@) == seq![
                status_line(status@),
                "静态 HTML 响应长度: "@ + decimal(html@.len()) + " 字符。\n"@,
            ]
            &&& r.1 matches Ok(t) && t@ == html@
        },
    }
}

fn status_log(status: &str) -> (r: String)
    ensures
        r@ == status_line(status@),
{
    let mut v = chars_of("网页 HTTP 状态码: ");
    push_all(&mut v, status);
    push_all(&mut v, "\n");
    string_of(v.as_slice())
}

pub fn page_fetch_result(reply: HttpReply) -> (r: (Vec<String>, Result<String, String>))
    ensures
        page_fetch_holds(reply, r),
{
    let mut logs: Vec<String> = Vec::new();
    match reply {
        HttpReply::SendFailed(e) => {
            assert(views(logs@) =~= Seq::<Seq<char>>::empty());
            (logs, Err(crate::text::concat("网页请求失败：", e.as_str())))
        },
        HttpReply::Refused(status, body) => {
            logs.push(status_log(status.as_str()));
            assert(views(logs@) =~= seq![status_line(status@)]);
            let mut m = chars_of("网页请求失败，HTTP 状态码：");
            push_all(&mut m, status.as_str());
            push_all(&mut m, "，响应摘要：");
            push_all(&mut m, response_preview(body.as_str()).as_str());
            (logs, Err(string_of(m.as_slice())))
        },
        HttpReply::Body(status, Err(e)) => {
            logs.push(status_log(status.as_str()));
            assert(views(logs@) =~= seq![status_line(status@)]);
            (logs, Err(crate::text::concat("读取网页内容失败：", e.as_str())))
        },
        HttpReply::Body(status, Ok(html)) => {
            logs.push(status_log(status.as_str()));
            let count = chars_of(html.as_str()).len();
            let mut m = chars_of("静态 HTML 响应长度: ");
            push_chars(&mut m, &decimal_chars(count as u64));
            push_all(&mut m, " 字符。\n");
            logs.push(string_of(m.as_slice()));
            assert(views(logs@) =~= seq![
                status_line(status@),
                "静态 HTML 响应长度: "@ + decimal(html@.len()) + " 字符。\n"@,
            ]);
            (logs, Ok(html))
        },
    }
}

/// The log lines after a static scan: the number of addresses, then each one numbered.
pub open spec fn static_candidate_lines(urls: Seq<Seq<char>>) -> Seq<Seq<char>> {
    seq!["静态扫描发现 "@ + decimal(urls.len()) + " 个候选地址。\n"@] + Seq::new(
        urls.len(),
        |i: int| "静态候选 #"@ + decimal((i + 1) as nat) + ": "@ + urls[i] + "\n"@,
    )
}

pub fn static_candidates_log(candidates: &Vec<WebUrl>) -> (r: Vec<String>)
    ensures
        views(r@) == static_candidate_lines(url_views(candidates@)),
{
    let ghost expected = static_candidate_lines(url_views(candidates@));
    let mut r: Vec<String> = Vec::new();
    let mut head = chars_of("静态扫描发现 ");
    push_chars(&mut head, &decimal_chars(candidates.len() as u64));
    push_all(&mut head, " 个候选地址。\n");
    r.push(string_of(head.as_slice()));
    assert(views(r@) =~= expected.take(1));
    let mut i: usize = 0;
    while i < candidates.len()
        invariant
            i <= candidates@.len(),
            expected == static_candidate_lines(url_views(candidates@)),
            expected.len() == candidates@.len() + 1,
            views(r@) == expected.take(i + 1),
        decreases candidates@.len() - i,
    {
        let mut line = chars_of("静态候选 #");
        push_chars(&mut line, &decimal_chars((i + 1) as u64));
        push_all(&mut line, ": ");
        push_all(&mut line, candidates[i].as_str());
        push_all(&mut line, "\n");
        let ghost before = r@;
        let s = string_of(line.as_slice());
        proof {
            let k = i as int;
            assert(url_views(candidates@)[k] == candidates@[k]@);
            assert(expected[k + 1] == "静态候选 #"@ + decimal((k + 1) as nat) + ": "@ + candidates@[k]@ + "\n"@);
            assert(s@ == expected[k + 1]);
        }
        r.push(s);
        proof {
            assert(views(r@) =~= views(before).push(s@));
            assert(expected.take(i + 2) =~= expected.take(i + 1).push(expected[i + 1]));
        }
        i = i + 1;
    }
    assert(expected.take(candidates@.len() + 1 as int) =~= expected);
    r
}

/// A playlist fetched as text, or the message of what went wrong.
pub open spec fn text_fetch_holds(reply: HttpReply, r: Result<String, String>) -> bool {
    match reply {
        HttpReply::SendFailed(e) => r matches Err(m) && m@ == "网络请求失败，请检查链接是否可访问："@ + e@,
        HttpReply::Refused(status, body) => r matches Err(m) && m@ == "m3u8 请求失败，HTTP 状态码："@ + status@
            + "，响应摘要："@ + spec_response_preview(body@),
        HttpReply::Body(_, Err(e)) => r matches Err(m) && m@ == "读取 m3u8 内容失败："@ + e@,
        HttpReply::Body(_, Ok(t)) => r matches Ok(x) && x@ == t@,
    }
}

fn refused_message(status: &str, body: &str) -> (r: String)
    ensures
        r@ == "m3u8 请求失败，HTTP 状态码："@ + status@ + "，响应摘要："@ + spec_response_preview(body@),
{
    let mut m = chars_of("m3u8 请求失败，HTTP 状态码：");
    push_all(&mut m, status);
    push_all(&mut m, "，响应摘要：");
    push_all(&mut m, response_preview(body).as_str());
    string_of(m.as_slice())
}

pub fn text_fetch_result(reply: HttpReply) -> (r: Result<String, String>)
    ensures
        text_fetch_holds(reply, r),
{
    match reply {
        HttpReply::SendFailed(e) => Err(crate::text::concat("网络请求失败，请检查链接是否可访问：", e.as_str())),
        HttpReply::Refused(status, body) => Err(refused_message(status.as_str(), body.as_str())),
        HttpReply::Body(_, Err(e)) => Err(crate::text::concat("读取 m3u8 内容失败：", e.as_str())),
        HttpReply::Body(_, Ok(t)) => Ok(t),
    }
}

/// A key fetched as bytes, or the message of what went wrong.
pub fn binary_fetch_result(reply: BinaryReply) -> (r: Result<Vec<u8>, String>)
    ensures
        match reply {
            BinaryReply::SendFailed(e) => r matches Err(m) && m@ == "网络请求失败，请检查链接是否可访问："@ + e@,
            BinaryReply::Refused(status, body) => r matches Err(m) && m@ == "m3u8 请求失败，HTTP 状态码："@
                + status@ + "，响应摘要："@ + spec_response_preview(body@),
            BinaryReply::Body(Err(e)) => r matches Err(m) && m@ == "读取二进制内容失败："@ + e@,
            BinaryReply::Body(Ok(b)) => r == Ok::<Vec<u8>, String>(b),
        },
{
    match reply {
        BinaryReply::SendFailed(e) => Err(crate::text::concat("网络请求失败，请检查链接是否可访问：", e.as_str())),
        BinaryReply::Refused(status, body) => Err(refused_message(status.as_str(), body.as_str())),
        BinaryReply::Body(Err(e)) => Err(crate::text::concat("读取二进制内容失败：", e.as_str())),
        BinaryReply::Body(Ok(b)) => Ok(b),
    }
}

} // verus!
