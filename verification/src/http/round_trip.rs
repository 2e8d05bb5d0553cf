//! Reading back what the response encoder wrote.
//!
//! The head of a response is text: a status line, header lines, a blank
//! line. This module says how such text is read, and proves that reading
//! the head of a response gives back its version, its status and its
//! headers, with the names in lowercase.
use vstd::prelude::*;
use crate::error::HttpStatus;
use crate::http::request::{header_line, with_header_lines, HeaderState, HttpVersion};
use crate::http::response::{header_lines_text, ResponseModel};
use crate::keyed::{distinct_keys, Keyed};
use crate::number::{dec, is_digit, lemma_dec_digits, lemma_parse_dec, parse_number};
use crate::split::{lemma_word_len_unique, lines, strip_cr, words};
use crate::strmap::{lemma_key_index_unique, put, Pairs};
use crate::text::{
    is_space, lemma_index_of_unique, lemma_trim_end_len, lemma_trim_start_len, lower, trim,
    trim_start,
};

verus! {

/// The version and the status that a status line gives: its first word is
/// the version, its second the code of a supported status.
pub open spec fn read_status_line(line: Seq<char>) -> Option<(HttpVersion, HttpStatus)> {
    let parts = words(line);
    if parts.len() < 2 {
        None
    } else {
        match (HttpVersion::of_name(parts[0]), parse_number(parts[1], 65535)) {
            (Some(v), Some(c)) => match HttpStatus::of_code(c) {
                Some(s) => Some((v, s)),
                None => None,
            },
            _ => None,
        }
    }
}

/// The version, the status and the headers that the head of a response
/// gives: the first line is the status line, the others are header lines,
/// read as those of a request are.
pub open spec fn read_head(head: Seq<char>) -> Option<(HttpVersion, HttpStatus, Pairs)> {
    let rows = lines(head);
    if rows.len() == 0 {
        None
    } else {
        match (
            read_status_line(rows[0]),
            with_header_lines(
                HeaderState { headers: Seq::empty(), cookies: Seq::empty() },
                rows.skip(1),
            ),
        ) {
            (Some(s), Ok(h)) => Some((s.0, s.1, h.headers)),
            _ => None,
        }
    }
}

/// The headers with their names in lowercase.
pub open spec fn canonical(h: Pairs) -> Pairs {
    Seq::new(h.len(), |i: int| (lower(h[i].0), h[i].1))
}

/// Whether a text holds no line feed.
pub open spec fn one_line(s: Seq<char>) -> bool {
    forall|i: int| 0 <= i < s.len() ==> #[trigger] s[i] != '\n'
}

/// Whether a header can be told from the line that it is written as: name
/// and value hold no line feed and no whitespace at either end, and the
/// name holds no colon.
pub open spec fn plain_header(e: (Seq<char>, Seq<char>)) -> bool {
    &&& one_line(e.0)
    &&& one_line(e.1)
    &&& trim(e.0) == e.0
    &&& trim(e.1) == e.1
    &&& forall|i: int| 0 <= i < e.0.len() ==> #[trigger] e.0[i] != ':'
}

pub open spec fn plain_headers(h: Pairs) -> bool {
    forall|i: int| 0 <= i < h.len() ==> plain_header(#[trigger] h[i])
}

/// The header lines of `h`, one for each header, without line endings.
pub open spec fn header_rows(h: Pairs) -> Seq<Seq<char>> {
    Seq::new(h.len(), |i: int| h[i].0 + ": "@ + h[i].1)
}

proof fn lemma_crlf_text()
    ensures
        "\r\n"@ == seq!['\r', '\n'],
        ": "@ == seq![':', ' '],
        " "@ == seq![' '],
{
    reveal_strlit("\r\n");
    reveal_strlit(": ");
    reveal_strlit(" ");
    assert("\r\n"@ =~= seq!['\r', '\n']);
    assert(": "@ =~= seq![':', ' ']);
    assert(" "@ =~= seq![' ']);
}

/// A line and its line ending at the front of a text are its first line.
proof fn lemma_lines_front(l: Seq<char>, rest: Seq<char>)
    requires
        one_line(l),
    ensures
        lines(l + "\r\n"@ + rest) == seq![l] + lines(rest),
{
    lemma_crlf_text();
    let s = l + "\r\n"@ + rest;
    let n = l.len() as int;
    assert(s[n] == '\r');
    assert(s[n + 1] == '\n');
    assert forall|j: int| 0 <= j < n + 1 implies #[trigger] s[j] != '\n' by {
        if j < n {
            assert(s[j] == l[j]);
        }
    }
    lemma_index_of_unique(s, '\n', n + 1);
    assert(s.take(n + 1) =~= l.push('\r'));
    assert(strip_cr(l.push('\r')) =~= l);
    assert(s.skip(n + 2) =~= rest);
}

proof fn lemma_header_row_is_one_line(e: (Seq<char>, Seq<char>))
    requires
        plain_header(e),
    ensures
        one_line(e.0 + ": "@ + e.1),
{
    lemma_crlf_text();
    let s = e.0 + ": "@ + e.1;
    assert forall|i: int| 0 <= i < s.len() implies #[trigger] s[i] != '\n' by {
        if i < e.0.len() {
            assert(s[i] == e.0[i]);
        } else if i >= e.0.len() + 2 {
            assert(s[i] == e.1[i - e.0.len() - 2]);
        }
    }
}

/// The lines of header lines followed by more text are one line for each
/// header, then the lines of that text.
proof fn lemma_lines_of_headers(h: Pairs, tail: Seq<char>)
    requires
        plain_headers(h),
    ensures
        lines(header_lines_text(h) + tail) == header_rows(h) + lines(tail),
    decreases h.len(),
{
    if h.len() == 0 {
        assert(header_lines_text(h) + tail =~= tail);
        assert(header_rows(h) + lines(tail) =~= lines(tail));
    } else {
        let init = h.drop_last();
        let e = h.last();
        let row = e.0 + ": "@ + e.1;
        assert(plain_headers(init)) by {
            assert forall|i: int| 0 <= i < init.len() implies plain_header(#[trigger] init[i]) by {
                assert(init[i] == h[i]);
            }
        }
        assert(plain_header(h[h.len() - 1]));
        let tail2 = row + "\r\n"@ + tail;
        lemma_lines_of_headers(init, tail2);
        lemma_header_row_is_one_line(e);
        lemma_lines_front(row, tail);
        assert(header_lines_text(h) + tail =~= header_lines_text(init) + tail2);
        assert(header_rows(init) + (seq![row] + lines(tail)) =~= header_rows(h) + lines(tail));
    }
}

/// Text without whitespace at either end is what trimming leaves of it
/// with a space in front.
proof fn lemma_trim_after_space(v: Seq<char>)
    requires
        trim(v) == v,
    ensures
        trim(seq![' '] + v) == v,
{
    lemma_trim_start_len(v);
    lemma_trim_end_len(trim_start(v));
    assert(trim_start(v).len() == v.len());
    assert(v.skip(0) =~= v);
    assert(trim_start(v) == v);
    let s = seq![' '] + v;
    assert(s.skip(1) =~= v);
    assert(trim_start(s) == trim_start(v));
}

/// A header is read back from its line, with its name in lowercase.
proof fn lemma_header_line_round_trip(e: (Seq<char>, Seq<char>))
    requires
        plain_header(e),
    ensures
        header_line(e.0 + ": "@ + e.1) == Some((lower(e.0), e.1)),
        (e.0 + ": "@ + e.1).len() > 0,
{
    lemma_crlf_text();
    let s = e.0 + ": "@ + e.1;
    let n = e.0.len() as int;
    assert(s[n] == ':');
    assert forall|j: int| 0 <= j < n implies #[trigger] s[j] != ':' by {
        assert(s[j] == e.0[j]);
    }
    lemma_index_of_unique(s, ':', n);
    assert(s.take(n) =~= e.0);
    assert(s.skip(n + 1) =~= seq![' '] + e.1);
    lemma_trim_after_space(e.1);
}

/// Reading the header lines of headers with distinct names gives the
/// headers back, with their names in lowercase.
proof fn lemma_header_rows_round_trip(h: Pairs)
    requires
        plain_headers(h),
        distinct_keys(h),
    ensures
        with_header_lines(
            HeaderState { headers: Seq::empty(), cookies: Seq::empty() },
            header_rows(h),
        ) is Ok,
        with_header_lines(
            HeaderState { headers: Seq::empty(), cookies: Seq::empty() },
            header_rows(h),
        )->Ok_0.headers == canonical(h),
    decreases h.len(),
{
    let start = HeaderState { headers: Seq::empty(), cookies: Seq::empty() };
    if h.len() == 0 {
        assert(canonical(h) =~= Seq::empty());
    } else {
        let init = h.drop_last();
        let e = h.last();
        assert(plain_headers(init) && distinct_keys(init)) by {
            assert forall|i: int| 0 <= i < init.len() implies plain_header(#[trigger] init[i]) by {
                assert(init[i] == h[i]);
            }
            assert forall|i: int, j: int| 0 <= i < j < init.len() implies (#[trigger] init[i]).key()
                != (#[trigger] init[j]).key() by {
                assert(init[i] == h[i] && init[j] == h[j]);
            }
        }
        lemma_header_rows_round_trip(init);
        assert(plain_header(h[h.len() - 1]));
        lemma_header_line_round_trip(e);
        assert(header_rows(h).drop_last() =~= header_rows(init));
        assert(header_rows(h).last() == e.0 + ": "@ + e.1);
        let before = canonical(init);
        assert forall|j: int| 0 <= j < before.len() implies (#[trigger] before[j]).0 != lower(
            e.0,
        ) by {
            assert(h[j].key() != h[h.len() - 1].key());
        }
        lemma_key_index_unique(before, lower(e.0), before.len() as int);
        assert(put(before, lower(e.0), e.1) =~= canonical(h));
    }
}

/// A word at the front of a text, followed by a space, is its first word.
proof fn lemma_words_front(w: Seq<char>, rest: Seq<char>)
    requires
        w.len() > 0,
        forall|i: int| 0 <= i < w.len() ==> !is_space(#[trigger] w[i]),
    ensures
        words(w + seq![' '] + rest) == seq![w] + words(rest),
{
    let s = w + seq![' '] + rest;
    let n = w.len() as int;
    assert(s[0] == w[0]);
    assert(s[n] == ' ');
    assert forall|j: int| 0 <= j < n implies !is_space(#[trigger] s[j]) by {
        assert(s[j] == w[j]);
    }
    lemma_word_len_unique(s, n);
    assert(s.take(n) =~= w);
    let t = s.skip(n);
    assert(t[0] == ' ');
    assert(t.skip(1) =~= rest);
    assert(words(t) == words(rest));
}

proof fn lemma_version_word(v: HttpVersion)
    ensures
        v.name().len() > 0,
        forall|i: int| 0 <= i < v.name().len() ==> !is_space(#[trigger] v.name()[i]),
        HttpVersion::of_name(v.name()) == Some(v),
        one_line(v.name()),
{
    reveal_strlit("HTTP/1.0");
    reveal_strlit("HTTP/1.1");
    assert("HTTP/1.0"@[7] != "HTTP/1.1"@[7]);
}

proof fn lemma_reason_is_one_line(s: HttpStatus)
    ensures
        one_line(s.reason()),
{
    reveal_strlit("OK");
    reveal_strlit("Created");
    reveal_strlit("No Content");
    reveal_strlit("Moved Permanently");
    reveal_strlit("Found");
    reveal_strlit("Bad Request");
    reveal_strlit("Forbidden");
    reveal_strlit("Not Found");
    reveal_strlit("Method Not Allowed");
    reveal_strlit("Request Entity Too Large");
    reveal_strlit("Internal Server Error");
}

/// A status line is read back.
proof fn lemma_status_line_round_trip(v: HttpVersion, s: HttpStatus)
    ensures
        read_status_line(v.name() + " "@ + dec(s.code()) + " "@ + s.reason()) == Some((v, s)),
        one_line(v.name() + " "@ + dec(s.code()) + " "@ + s.reason()),
{
    lemma_crlf_text();
    lemma_version_word(v);
    lemma_reason_is_one_line(s);
    lemma_dec_digits(s.code());
    lemma_parse_dec(s.code(), 65535);
    s.lemma_code_round_trip();
    let code = dec(s.code());
    assert forall|i: int| 0 <= i < code.len() implies !is_space(#[trigger] code[i]) by {
        assert(is_digit(code[i]));
    }
    let line = v.name() + " "@ + code + " "@ + s.reason();
    let rest = code + seq![' '] + s.reason();
    assert(line =~= v.name() + seq![' '] + rest);
    lemma_words_front(v.name(), rest);
    lemma_words_front(code, s.reason());
    let parts = words(line);
    assert(parts[0] == v.name());
    assert(parts[1] == code);
    assert forall|i: int| 0 <= i < line.len() implies #[trigger] line[i] != '\n' by {
        let a = v.name().len() as int;
        let b = code.len() as int;
        if i < a {
            assert(line[i] == v.name()[i]);
        } else if i == a {
        } else if i < a + 1 + b {
            assert(line[i] == code[i - a - 1]);
            assert(is_digit(code[i - a - 1]));
        } else if i == a + 1 + b {
        } else {
            assert(line[i] == s.reason()[i - a - b - 2]);
        }
    }
}

/// Round trip: reading the head of an encoded response gives back its
/// version, its status, and its headers with their names in lowercase; and
/// the head is the text that its bytes on the wire decode to.
/// This holds of a well-formed response whose header names and values hold
/// no line feed and no whitespace at either end, and whose header names
/// hold no colon.
pub proof fn lemma_head_round_trip(r: ResponseModel)
    requires
        r.wf(),
        plain_headers(r.headers),
    ensures
        read_head(r.head()) == Some((r.version, r.status, canonical(r.headers))),
        vstd::utf8::decode_utf8(vstd::utf8::encode_utf8(r.head())) == r.head(),
{
    vstd::utf8::encode_utf8_decode_utf8(r.head());
    lemma_crlf_text();
    let first = r.version.name() + " "@ + dec(r.status.code()) + " "@ + r.status.reason();
    lemma_status_line_round_trip(r.version, r.status);
    let after = header_lines_text(r.headers) + "\r\n"@;
    assert(r.head() =~= first + "\r\n"@ + after);
    lemma_lines_front(first, after);
    lemma_lines_of_headers(r.headers, "\r\n"@);
    let blank = Seq::<char>::empty();
    assert("\r\n"@ =~= blank + "\r\n"@ + blank);
    lemma_lines_front(blank, blank);
    assert(lines(blank) =~= Seq::<Seq<char>>::empty());
    let rows = lines(r.head());
    assert(rows =~= seq![first] + (header_rows(r.headers) + seq![blank]));
    assert(rows[0] == first);
    let block = rows.skip(1);
    assert(block =~= header_rows(r.headers).push(blank));
    assert(block.drop_last() =~= header_rows(r.headers));
    lemma_header_rows_round_trip(r.headers);
}

} // verus!
