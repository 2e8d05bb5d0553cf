//! What holds of the request parser: that it gives the same request however
//! the data are cut into pieces, and what every request it gives is like.
use vstd::prelude::*;
use crate::bytes::{lemma_run_index, lemma_run_index_extend, run_index};
use crate::http::request::{
    after, content_length_of, crlf, crlf_crlf, escaped_percents, has_escaped_percent,
    header_block, header_line, headers_stage, lemma_url_decoded_no_percent,
    lemma_url_decoded_percents, lemma_url_decoded_plain, line_stage,
    occurrences, parsed, raw_path, read_after_headers, read_headers, url_decoded,
    with_header_lines, HeaderState, Outcome, ParserModel, ParseState, RequestModel, Stage, Verdict,
};
use crate::split::lines;
use crate::strmap::{key_index, lemma_key_index, put, Pairs};
use crate::text::{index_of, lemma_lower_idempotent, lower, split_once_trimmed};

verus! {

/// A request line that was read stays read when more data follow, and a
/// line that is no request line stays none.
pub proof fn lemma_line_stage_extend(m: ParserModel, a: Seq<u8>, b: Seq<u8>)
    requires
        !(line_stage(m, a) is Wait),
    ensures
        line_stage(m, a + b) == line_stage(m, a),
        line_stage(m, a) matches Stage::Go(m1, k) ==> m1.state is AwaitHeaders && k <= a.len(),
{
    reveal(line_stage);
    lemma_run_index_extend(a, b, crlf());
    lemma_run_index(a, crlf());
    let i = run_index(a, crlf()) as int;
    assert((a + b).take(i) =~= a.take(i));
}

proof fn lemma_header_block_extend(a: Seq<u8>, b: Seq<u8>)
    requires
        header_block(a) is Some,
    ensures
        header_block(a + b) == header_block(a),
        ({
            let h = header_block(a)->0;
            h.0 <= h.1 <= a.len() && (a + b).take(h.0 as int) == a.take(h.0 as int)
        }),
{
    let ab = a + b;
    if crlf().is_prefix_of(a) {
        assert(ab.take(2) =~= a.take(2));
        assert(crlf() =~= ab.take(2));
        assert(ab.take(0) =~= a.take(0));
    } else {
        lemma_run_index_extend(a, b, crlf_crlf());
        lemma_run_index(a, crlf_crlf());
        let i = run_index(a, crlf_crlf()) as int;
        assert(a.len() >= 4);
        if crlf().is_prefix_of(ab) {
            assert(ab.take(2) =~= a.take(2));
            assert(crlf() =~= a.take(2));
        }
        assert(ab.take(i) =~= a.take(i));
    }
}

/// A header block that was read stays read when more data follow, and a
/// block that is refused stays refused.
pub proof fn lemma_headers_stage_extend(m: ParserModel, a: Seq<u8>, b: Seq<u8>)
    requires
        !(headers_stage(m, a) is Wait),
    ensures
        headers_stage(m, a + b) == headers_stage(m, a),
        headers_stage(m, a) matches Stage::Go(m2, k) ==> !(m2.state is AwaitRequestLine) && !(
        m2.state is AwaitHeaders) && k <= a.len(),
{
    reveal(headers_stage);
    lemma_header_block_extend(a, b);
}

/// A request that is complete stays the same when more data follow.
pub proof fn lemma_complete_extend(m: ParserModel, a: Seq<u8>, b: Seq<u8>)
    requires
        !(m.state is AwaitRequestLine),
        !(m.state is AwaitHeaders),
        read_after_headers(m, a).verdict is Complete,
    ensures
        read_after_headers(m, a + b) == read_after_headers(m, a),
{
    match m.state {
        ParseState::AwaitBody(n) => {
            assert((a + b).take(n as int) =~= a.take(n as int));
        },
        _ => {},
    }
}

proof fn lemma_after_after(o: Outcome, j: nat, k: nat)
    ensures
        after(after(o, j), k) == after(o, j + k),
        after(o, 0) == o,
{
}

proof fn lemma_resume_rest(m: ParserModel, a: Seq<u8>, b: Seq<u8>)
    requires
        !(m.state is AwaitRequestLine),
        !(m.state is AwaitHeaders),
    ensures
        ({
            let first = read_after_headers(m, a);
            let whole = read_after_headers(m, a + b);
            match first.verdict {
                Verdict::Failed(_) => false,
                Verdict::Complete => whole == first,
                Verdict::NeedMore => first.consumed == 0 && first.parser == m,
            }
        }),
{
    if read_after_headers(m, a).verdict is Complete {
        lemma_complete_extend(m, a, b);
    }
}

proof fn lemma_resume_headers(m: ParserModel, a: Seq<u8>, b: Seq<u8>)
    requires
        m.state is AwaitHeaders,
    ensures
        ({
            let first = read_headers(m, a);
            let whole = read_headers(m, a + b);
            match first.verdict {
                Verdict::Failed(_) => whole == first,
                Verdict::Complete => whole == first,
                Verdict::NeedMore => first.consumed <= a.len() && whole == after(
                    parsed(first.parser, a.skip(first.consumed as int) + b),
                    first.consumed,
                ),
            }
        }),
{
    let first = read_headers(m, a);
    let whole = read_headers(m, a + b);
    match headers_stage(m, a) {
        Stage::Wait => {
            assert(a.skip(0) =~= a);
            lemma_after_after(whole, 0, 0);
        },
        Stage::Fail(_) => {
            lemma_headers_stage_extend(m, a, b);
        },
        Stage::Go(m2, k) => {
            lemma_headers_stage_extend(m, a, b);
            let rest = a.skip(k as int);
            assert((a + b).skip(k as int) =~= rest + b);
            lemma_resume_rest(m2, rest, b);
            let inner = read_after_headers(m2, rest);
            if inner.verdict is NeedMore {
                assert(first == after(inner, k));
                assert(rest.skip(0) =~= rest);
                assert(parsed(m2, rest + b) == read_after_headers(m2, rest + b));
            }
        },
    }
}

/// Parser resumability. Let the parser be given the data `a`, and then what
/// it left of `a` followed by `b`. It ends as if it had been given `a`
/// followed by `b` at once: with the same parser, the same request, and the
/// same number of bytes used in all. A request that is complete on `a`
/// alone is the same request whatever follows, and data that are refused
/// are refused for the same reason whatever follows.
pub proof fn lemma_parse_resumes(m: ParserModel, a: Seq<u8>, b: Seq<u8>)
    ensures
        ({
            let first = parsed(m, a);
            let whole = parsed(m, a + b);
            match first.verdict {
                Verdict::Failed(_) => whole == first,
                Verdict::Complete => whole == first,
                Verdict::NeedMore => first.consumed <= a.len() && whole == after(
                    parsed(first.parser, a.skip(first.consumed as int) + b),
                    first.consumed,
                ),
            }
        }),
{
    let first = parsed(m, a);
    let whole = parsed(m, a + b);
    match m.state {
        ParseState::AwaitRequestLine => {
            match line_stage(m, a) {
                Stage::Wait => {
                    assert(a.skip(0) =~= a);
                    lemma_after_after(whole, 0, 0);
                },
                Stage::Fail(_) => {
                    lemma_line_stage_extend(m, a, b);
                },
                Stage::Go(m1, k) => {
                    lemma_line_stage_extend(m, a, b);
                    let rest = a.skip(k as int);
                    assert((a + b).skip(k as int) =~= rest + b);
                    lemma_resume_headers(m1, rest, b);
                    let inner = read_headers(m1, rest);
                    let inner_whole = read_headers(m1, rest + b);
                    assert(first == after(inner, k));
                    assert(whole == after(inner_whole, k));
                    if inner.verdict is NeedMore {
                        let j = inner.consumed;
                        assert(rest.skip(j as int) =~= a.skip((k + j) as int));
                        lemma_after_after(
                            parsed(inner.parser, rest.skip(j as int) + b),
                            j,
                            k,
                        );
                    }
                },
            }
        },
        ParseState::AwaitHeaders => {
            lemma_resume_headers(m, a, b);
        },
        ParseState::AwaitBody(n) => {
            lemma_resume_rest(m, a, b);
            if first.verdict is NeedMore {
                assert(a.skip(0) =~= a);
                lemma_after_after(whole, 0, 0);
            }
        },
        ParseState::Complete => {},
    }
}

/// Whether the path of a request is the decoded path part of its target
/// and begins with `/`.
pub open spec fn path_is_decoded(r: RequestModel) -> bool {
    &&& url_decoded(raw_path(r.uri), false) == Some(r.path)
    &&& r.path.len() > 0
    &&& r.path[0] == '/'
}

/// The request of a fresh parser has a decoded path.
pub proof fn lemma_blank_path()
    ensures
        path_is_decoded(RequestModel::blank()),
{
    reveal_with_fuel(index_of, 3);
    reveal_strlit("/");
    let s = "/"@;
    assert(raw_path(s) =~= s);
    lemma_url_decoded_plain(s, false);
}

/// Of a request with a decoded path: the path begins with `/`, and no
/// escape of the target is left in it, since every `%` of the path stands
/// for an escape of `%` itself, there being as many of the one as of the
/// other; so the path holds no `%` at all unless the target escapes one.
pub proof fn lemma_decoded_path(r: RequestModel)
    requires
        path_is_decoded(r),
    ensures
        r.path.len() > 0 && r.path[0] == '/',
        occurrences(r.path, '%') == escaped_percents(raw_path(r.uri)),
        !has_escaped_percent(raw_path(r.uri)) ==> forall|i: int|
            0 <= i < r.path.len() ==> #[trigger] r.path[i] != '%',
{
    let raw = raw_path(r.uri);
    lemma_url_decoded_percents(raw, false);
    if !has_escaped_percent(raw) {
        lemma_url_decoded_no_percent(raw, false);
    }
}

/// Whether every header name is in lowercase.
pub open spec fn lowercase_names(h: Pairs) -> bool {
    forall|i: int| 0 <= i < h.len() ==> lower((#[trigger] h[i]).0) == h[i].0
}

proof fn lemma_put_lowercase(h: Pairs, k: Seq<char>, v: Seq<char>)
    requires
        lowercase_names(h),
        lower(k) == k,
    ensures
        lowercase_names(put(h, k, v)),
{
    lemma_key_index(h, k);
    let t = put(h, k, v);
    assert forall|i: int| 0 <= i < t.len() implies lower((#[trigger] t[i]).0) == t[i].0 by {
        if i < h.len() && i != key_index(h, k) {
            assert(t[i] == h[i]);
        }
    }
}

proof fn lemma_header_lines_lowercase(acc: HeaderState, block: Seq<Seq<char>>)
    requires
        lowercase_names(acc.headers),
    ensures
        with_header_lines(acc, block) matches Ok(r) ==> lowercase_names(r.headers),
    decreases block.len(),
{
    if block.len() > 0 {
        lemma_header_lines_lowercase(acc, block.drop_last());
        match with_header_lines(acc, block.drop_last()) {
            Ok(a) => {
                if block.last().len() > 0 {
                    match header_line(block.last()) {
                        Some(p) => {
                            let parts = split_once_trimmed(block.last(), ':')->0;
                            lemma_lower_idempotent(parts.0);
                            lemma_put_lowercase(a.headers, p.0, p.1);
                        },
                        None => {},
                    }
                }
            },
            Err(_) => {},
        }
    }
}

/// The length that the headers announce for the body: what
/// `Content-Length` gives, and nothing where it gives no number.
pub open spec fn announced_length(h: Pairs) -> nat {
    match content_length_of(h) {
        Some(n) => n,
        None => 0,
    }
}

/// What holds of every parser that started out fresh, whatever it was
/// given: the path of its request is the decoded path part of the target;
/// the header names are in lowercase; and the body is as long as the
/// headers announce once the request is complete, and empty before.
pub open spec fn sound(m: ParserModel) -> bool {
    &&& path_is_decoded(m.request)
    &&& lowercase_names(m.request.headers)
    &&& match m.state {
        ParseState::AwaitRequestLine => m.request.body.len() == 0 && m.request.headers.len() == 0,
        ParseState::AwaitHeaders => m.request.body.len() == 0 && m.request.headers.len() == 0,
        ParseState::AwaitBody(n) => m.request.body.len() == 0 && n > 0 && content_length_of(
            m.request.headers,
        ) == Some(n as nat),
        ParseState::Complete => m.request.body.len() == announced_length(m.request.headers),
    }
}

/// A fresh parser is sound.
pub proof fn lemma_fresh_sound()
    ensures
        sound(ParserModel::fresh()),
{
    lemma_blank_path();
}

/// A sound parser stays sound, whatever it is given.
pub proof fn lemma_parsed_sound(m: ParserModel, data: Seq<u8>)
    requires
        sound(m),
    ensures
        sound(parsed(m, data).parser),
{
    reveal(line_stage);
    reveal(headers_stage);
    lemma_fresh_sound();
    match m.state {
        ParseState::AwaitRequestLine => {
            match line_stage(m, data) {
                Stage::Go(m1, k) => {
                    lemma_headers_sound(m1, data.skip(k as int));
                },
                _ => {},
            }
        },
        ParseState::AwaitHeaders => {
            lemma_headers_sound(m, data);
        },
        _ => {},
    }
}

proof fn lemma_headers_sound(m: ParserModel, data: Seq<u8>)
    requires
        sound(m),
        m.state is AwaitHeaders,
    ensures
        sound(read_headers(m, data).parser),
{
    reveal(headers_stage);
    lemma_fresh_sound();
    match header_block(data) {
        Some(b) => {
            let block = data.take(b.0 as int);
            lemma_header_lines_lowercase(
                HeaderState { headers: m.request.headers, cookies: m.request.cookies },
                lines(vstd::utf8::decode_utf8(block)),
            );
        },
        None => {},
    }
}

} // verus!
