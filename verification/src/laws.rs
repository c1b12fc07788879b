//! Properties that hold across the library's functions.
use vstd::prelude::*;
use crate::geo::{EwkbError, LongLat, point_json_spec, as_i32, coords_at, ewkb_point_spec, has_srid, le_u32, le_u64};
use crate::image_data::{TARGET_SIZE, data_url_payload_at, is_word_char, word_run, base64_char, base64_text, crop_origin_spec};
use crate::http::{
    after_last_colon, all_digits, content_length_spec, digits_value, head_well_formed, is_length_line,
    length_value, line_end, lines_of, strip_cr,
};
use crate::response::{byte_len, response_spec};
use crate::rows::{CellValue, Column, ColumnKind, cell_text, column_kind_spec, column_text, row_text, rows_text};
use crate::text::{decimal, digit_char, int_text, is_space, replaced, trim_end_spec, trim_start_spec, trimmed};

verus! {

/// The decimal digits of `n` are digits that denote `n`.
pub proof fn lemma_decimal_value(n: nat)
    ensures
        decimal(n).len() > 0,
        all_digits(decimal(n)),
        digits_value(decimal(n)) == n,
    decreases n,
{
    if n < 10 {
        let d = decimal(n);
        assert(d.drop_last() =~= Seq::<char>::empty());
        assert(digit_char(n) as int == n + 48);
        assert(digits_value(d.drop_last()) == 0);
        assert(d.last() == digit_char(n));
        assert(digits_value(d) == n);
    } else {
        lemma_decimal_value(n / 10);
        let d = decimal(n);
        assert(d.drop_last() =~= decimal(n / 10));
        assert(digit_char(n % 10) as int == n % 10 + 48);
        assert(d.last() == digit_char(n % 10));
        assert((n / 10) * 10 + n % 10 == n);
        assert(digits_value(d) == n);
        assert forall|i: int| 0 <= i < d.len() implies '0' <= #[trigger] d[i] <= '9' by {
            if i < d.len() - 1 {
                assert(d[i] == decimal(n / 10)[i]);
            }
        }
    }
}

/// Text without `:` keeps everything after the last colon before it.
proof fn lemma_after_colon_append(l: Seq<char>, b: Seq<char>)
    requires
        forall|i: int| 0 <= i < b.len() ==> b[i] != ':',
    ensures
        after_last_colon(l + b) == after_last_colon(l) + b,
    decreases b.len(),
{
    if b.len() == 0 {
        assert(l + b =~= l);
        assert(after_last_colon(l) + b =~= after_last_colon(l));
    } else {
        lemma_after_colon_append(l, b.drop_last());
        assert((l + b).drop_last() =~= l + b.drop_last());
        assert((l + b).last() == b.last());
        assert(after_last_colon(l) + b =~= (after_last_colon(l) + b.drop_last()).push(b.last()));
    }
}

/// The `Content-Length` line that [`crate::crate_response`] writes
/// announces exactly the body's byte length to the proxy's own head
/// parser: the response is the status line, the CORS and content type
/// headers, that length line, a blank line and the body, and reading the
/// length line back ([`length_value`]) gives the body's byte length.
pub proof fn law_length_header_round_trip(status: Seq<char>, body: Seq<char>, content_type: Seq<char>)
    ensures
        ({
            let line = "Content-Length: "@ + int_text(byte_len(body) as int);
            &&& response_spec(status, body, content_type) == status
                + "\r\nAccess-Control-Allow-Origin: *\r\nContent-Type: "@ + content_type + "\r\n"@
                + line + "\r\n\r\n"@ + body
            &&& is_length_line(line)
            &&& length_value(line) == Some(byte_len(body))
        }),
{
    let n = byte_len(body);
    let d = decimal(n as nat);
    lemma_decimal_value(n as nat);
    reveal_strlit("Content-Length: ");
    reveal_strlit("Content-Length");
    reveal_strlit("\r\nContent-Length: ");
    reveal_strlit("\r\n");
    let line = "Content-Length: "@ + int_text(n as int);
    assert(int_text(n as int) == d);
    assert("\r\nContent-Length: "@ =~= "\r\n"@ + "Content-Length: "@);
    assert(response_spec(status, body, content_type) =~= status
        + "\r\nAccess-Control-Allow-Origin: *\r\nContent-Type: "@ + content_type + "\r\n"@ + line
        + "\r\n\r\n"@ + body);
    assert("Content-Length"@.is_prefix_of(line)) by {
        assert(line.subrange(0, 14) =~= "Content-Length"@);
    }
    let head = "Content-Length:"@;
    reveal_strlit("Content-Length:");
    assert(line =~= head + (seq![' '] + d));
    assert forall|i: int| 0 <= i < (seq![' '] + d).len() implies (seq![' '] + d)[i] != ':' by {
        if i > 0 {
            assert((seq![' '] + d)[i] == d[i - 1]);
            assert('0' <= d[i - 1] <= '9');
        }
    }
    lemma_after_colon_append(head, seq![' '] + d);
    assert(head.drop_last() =~= "Content-Length"@);
    assert(after_last_colon(head) =~= Seq::<char>::empty());
    assert(after_last_colon(line) =~= seq![' '] + d);
    let sd = seq![' '] + d;
    assert(is_space(sd[0]));
    assert(sd.drop_first() =~= d);
    assert('0' <= d[0] <= '9');
    assert(trim_start_spec(d) == d);
    assert(trim_start_spec(sd) == d);
    assert('0' <= d.last() <= '9');
    assert(trim_end_spec(d) == d);
    assert(trimmed(sd) == d);
    assert(d[0] != '+');
}

/// The end of a line followed by more text.
proof fn lemma_line_end_concat(a: Seq<char>, b: Seq<char>)
    requires
        forall|i: int| 0 <= i < a.len() ==> a[i] != '\n',
    ensures
        line_end(a + seq!['\n'] + b) == a.len(),
    decreases a.len(),
{
    let s = a + seq!['\n'] + b;
    if a.len() > 0 {
        assert(s.drop_first() =~= a.drop_first() + seq!['\n'] + b);
        lemma_line_end_concat(a.drop_first(), b);
    }
}

/// Splitting off the first line.
proof fn lemma_lines_cons(a: Seq<char>, b: Seq<char>)
    requires
        forall|i: int| 0 <= i < a.len() ==> a[i] != '\n',
    ensures
        lines_of(a + seq!['\n'] + b) == seq![strip_cr(a)] + lines_of(b),
{
    let s = a + seq!['\n'] + b;
    lemma_line_end_concat(a, b);
    assert(s.take(a.len() as int) =~= a);
    assert(s.skip((a.len() + 1) as int) =~= b);
}

/// A line made of `a` and `\r\n` before `b`.
proof fn lemma_lines_crlf(a: Seq<char>, b: Seq<char>)
    requires
        forall|i: int| 0 <= i < a.len() ==> a[i] != '\n',
    ensures
        lines_of(a + "\r\n"@ + b) == seq![a] + lines_of(b),
{
    reveal_strlit("\r\n");
    let ar = a.push('\r');
    assert forall|i: int| 0 <= i < ar.len() implies ar[i] != '\n' by {
        if i < a.len() {
            assert(ar[i] == a[i]);
        }
    }
    assert(a + "\r\n"@ + b =~= ar + seq!['\n'] + b);
    lemma_lines_cons(ar, b);
    assert(ar.drop_last() =~= a);
}

/// Whether `s` holds no line feed.
pub open spec fn single_line(s: Seq<char>) -> bool {
    forall|i: int| 0 <= i < s.len() ==> s[i] != '\n'
}

/// The head of a response the proxy writes is one the proxy's own head
/// parser reads ([`crate::check_head`], [`crate::parse_request`]): as
/// long as the status line and content type are single lines and the
/// status line is no `Content-Length` header, the first line read back is
/// the status line and the announced length is the body's byte length.
pub proof fn law_response_head_round_trip(status: Seq<char>, body: Seq<char>, content_type: Seq<char>)
    requires
        single_line(status),
        single_line(content_type),
        !is_length_line(status),
    ensures
        ({
            let head = status + "\r\nAccess-Control-Allow-Origin: *\r\nContent-Type: "@
                + content_type + "\r\nContent-Length: "@ + int_text(byte_len(body) as int)
                + "\r\n\r\n"@;
            &&& response_spec(status, body, content_type) == head + body
            &&& head_well_formed(head)
            &&& lines_of(head)[0] == status
            &&& content_length_spec(lines_of(head)) == byte_len(body)
        }),
{
    let n = byte_len(body);
    let d = int_text(n as int);
    law_length_header_round_trip(status, body, content_type);
    lemma_decimal_value(n as nat);
    reveal_strlit("\r\nAccess-Control-Allow-Origin: *\r\nContent-Type: ");
    reveal_strlit("\r\nContent-Length: ");
    reveal_strlit("\r\n\r\n");
    reveal_strlit("\r\n");
    reveal_strlit("Access-Control-Allow-Origin: *");
    reveal_strlit("Content-Type: ");
    reveal_strlit("Content-Length: ");
    reveal_strlit("Content-Length");
    let l1 = "Access-Control-Allow-Origin: *"@;
    let l2 = "Content-Type: "@ + content_type;
    let l3 = "Content-Length: "@ + d;
    let crlf = "\r\n"@;
    let head = status + "\r\nAccess-Control-Allow-Origin: *\r\nContent-Type: "@ + content_type
        + "\r\nContent-Length: "@ + d + "\r\n\r\n"@;
    assert(head =~= status + crlf + (l1 + crlf + (l2 + crlf + (l3 + crlf + (Seq::<char>::empty()
        + crlf + Seq::<char>::empty())))));
    assert(single_line(l1));
    assert(single_line(l2)) by {
        assert forall|i: int| 0 <= i < l2.len() implies l2[i] != '\n' by {
            if i >= 14 {
                assert(l2[i] == content_type[i - 14]);
            }
        }
    }
    assert(single_line(l3)) by {
        assert forall|i: int| 0 <= i < l3.len() implies l3[i] != '\n' by {
            if i >= 16 {
                assert(l3[i] == d[i - 16]);
                assert('0' <= d[i - 16] <= '9');
            }
        }
    }
    let e = Seq::<char>::empty();
    lemma_lines_crlf(e, e);
    assert(lines_of(e) =~= Seq::<Seq<char>>::empty());
    lemma_lines_crlf(l3, e + crlf + e);
    lemma_lines_crlf(l2, l3 + crlf + (e + crlf + e));
    lemma_lines_crlf(l1, l2 + crlf + (l3 + crlf + (e + crlf + e)));
    lemma_lines_crlf(status, l1 + crlf + (l2 + crlf + (l3 + crlf + (e + crlf + e))));
    let ls = lines_of(head);
    assert(ls =~= seq![status, l1, l2, l3, e]);
    assert(!is_length_line(l1)) by {
        assert(l1[0] != "Content-Length"@[0]);
    }
    assert(!is_length_line(l2)) by {
        assert(l2[8] != "Content-Length"@[8]);
    }
    assert(!is_length_line(e));
    assert(ls.drop_last() =~= seq![status, l1, l2, l3]);
    assert(ls.last() == e);
    assert(content_length_spec(ls) == content_length_spec(ls.drop_last()));
    assert(ls.drop_last().last() == l3);
    assert(is_length_line(l3));
    assert(length_value(l3) == Some(n));
    assert(content_length_spec(ls.drop_last()) == n);
    assert(content_length_spec(ls) == n);
    assert(head_well_formed(head)) by {
        assert forall|i: int| 0 <= i < ls.len() && is_length_line(#[trigger] ls[i]) implies length_value(
            ls[i],
        ) is Some by {
            assert(i == 3);
        }
    }
    assert(response_spec(status, body, content_type) =~= head + body);
}

/// The byte-order byte of an EWKB point is not consulted: changing it
/// never changes what is decoded.
pub proof fn law_ewkb_ignores_byte_order(raw: Seq<u8>, byte_order: u8)
    requires
        raw.len() > 0,
    ensures
        ewkb_point_spec(raw.update(0, byte_order)) == ewkb_point_spec(raw),
{
    let r2 = raw.update(0, byte_order);
    assert forall|i: int| 1 <= i < raw.len() implies r2[i] == raw[i] by {}
}

/// A column is read as a geography point exactly when its type is not a
/// built-in one the proxy knows and its name is the one
/// [`crate::LongLat::accepts`] accepts.
pub proof fn law_geography_columns(oid: u32, pg_type: Seq<char>)
    requires
        oid != 1082 && oid != 1083 && oid != 1114 && oid != 1184 && oid != 18 && oid != 1043
            && oid != 25 && oid != 19 && oid != 23 && oid != 16 && oid != 701,
    ensures
        (column_kind_spec(oid, pg_type) == ColumnKind::Geography) == (pg_type == "geography"@),
{
}

/// Replacing a pattern by itself leaves the text as it was; so with the
/// default port `3000` the client script is served unchanged.
pub proof fn law_replace_by_itself(s: Seq<char>, pattern: Seq<char>)
    requires
        pattern.len() > 0,
    ensures
        replaced(s, pattern, pattern) == s,
    decreases s.len(),
{
    if s.len() == 0 {
    } else if pattern.is_prefix_of(s) {
        law_replace_by_itself(s.skip(pattern.len() as int), pattern);
        assert(pattern + s.skip(pattern.len() as int) =~= s);
    } else {
        law_replace_by_itself(s.drop_first(), pattern);
        assert(seq![s[0]] + s.drop_first() =~= s);
    }
}

/// Distinct six-bit values have distinct base64 characters, none of them `=`.
proof fn lemma_base64_char(a: int, b: int)
    requires
        0 <= a < 64,
        0 <= b < 64,
    ensures
        base64_char(a) != '=',
        base64_char(a) == base64_char(b) ==> a == b,
{
    assert(base64_char(a) as int != 61);
    if base64_char(a) == base64_char(b) {
        assert(base64_char(a) as int == base64_char(b) as int);
    }
}

/// Three bytes are fixed by the four six-bit groups they are cut into.
proof fn lemma_groups(x: int, y: int, z: int, x2: int, y2: int, z2: int)
    by (nonlinear_arith)
    requires
        0 <= x < 256,
        0 <= y < 256,
        0 <= z < 256,
        0 <= x2 < 256,
        0 <= y2 < 256,
        0 <= z2 < 256,
        x / 4 == x2 / 4,
        (x % 4) * 16 + y / 16 == (x2 % 4) * 16 + y2 / 16,
        (y % 16) * 4 + z / 64 == (y2 % 16) * 4 + z2 / 64,
        z % 64 == z2 % 64,
    ensures
        x == x2,
        y == y2,
        z == z2,
{
}

/// The six-bit groups of three bytes are below 64.
proof fn lemma_group_ranges(x: int, y: int, z: int)
    requires
        0 <= x < 256,
        0 <= y < 256,
        0 <= z < 256,
    ensures
        0 <= x / 4 < 64,
        0 <= (x % 4) * 16 + y / 16 < 64,
        0 <= (y % 16) * 4 + z / 64 < 64,
        0 <= z % 64 < 64,
{
}

/// The base64 text of bytes has four characters per three bytes, rounded up.
proof fn lemma_base64_len(b: Seq<u8>)
    ensures
        base64_text(b).len() == if b.len() % 3 == 0 {
            b.len() / 3 * 4
        } else {
            b.len() / 3 * 4 + 4
        },
    decreases b.len(),
{
    if b.len() >= 3 {
        lemma_base64_len(b.skip(3));
        assert(b.skip(3).len() == b.len() - 3);
        assert((b.len() - 3) / 3 == b.len() / 3 - 1);
        assert((b.len() - 3) % 3 == b.len() % 3);
    }
}

/// Different bytes have different base64 texts, so the bytes that
/// [`crate::decode_payload`] gives back are the only ones whose text it read.
pub proof fn law_base64_text_injective(a: Seq<u8>, b: Seq<u8>)
    requires
        base64_text(a) == base64_text(b),
    ensures
        a == b,
    decreases a.len(),
{
    let t = base64_text(a);
    lemma_base64_len(a);
    lemma_base64_len(b);
    if a.len() == 0 || b.len() == 0 {
        assert(a.len() == 0 && b.len() == 0);
        assert(a =~= b);
    } else {
        let x = a[0] as int;
        let y = if a.len() > 1 { a[1] as int } else { 0 };
        let z = if a.len() > 2 { a[2] as int } else { 0 };
        let x2 = b[0] as int;
        let y2 = if b.len() > 1 { b[1] as int } else { 0 };
        let z2 = if b.len() > 2 { b[2] as int } else { 0 };
        lemma_group_ranges(x, y, z);
        lemma_group_ranges(x2, y2, z2);
        lemma_base64_char((y % 16) * 4 + z / 64, 0);
        lemma_base64_char(z % 64, 0);
        lemma_base64_char((y2 % 16) * 4 + z2 / 64, 0);
        lemma_base64_char(z2 % 64, 0);
        // the padding tells how many bytes the first group holds
        assert((a.len() == 1) == (t[2] == '='));
        assert((b.len() == 1) == (t[2] == '='));
        assert((a.len() <= 2) == (t[3] == '='));
        assert((b.len() <= 2) == (t[3] == '='));
        let tb0 = base64_text(b);
        assert(t[0] == base64_char(x / 4) && tb0[0] == base64_char(x2 / 4));
        assert(t[1] == base64_char((x % 4) * 16 + y / 16) && tb0[1] == base64_char(
            (x2 % 4) * 16 + y2 / 16,
        ));
        assert(a.len() >= 2 ==> t[2] == base64_char((y % 16) * 4 + z / 64));
        assert(b.len() >= 2 ==> tb0[2] == base64_char((y2 % 16) * 4 + z2 / 64));
        assert(a.len() >= 3 ==> t[3] == base64_char(z % 64));
        assert(b.len() >= 3 ==> tb0[3] == base64_char(z2 % 64));
        lemma_base64_char(x / 4, x2 / 4);
        lemma_base64_char((x % 4) * 16 + y / 16, (x2 % 4) * 16 + y2 / 16);
        lemma_base64_char((y % 16) * 4 + z / 64, (y2 % 16) * 4 + z2 / 64);
        lemma_base64_char(z % 64, z2 % 64);
        if a.len() == 1 {
            assert(y == 0 && y2 == 0 && z == 0 && z2 == 0);
            lemma_groups(x, y, z, x2, y2, z2);
            assert(a =~= b);
        } else if a.len() == 2 {
            assert(z == 0 && z2 == 0);
            lemma_groups(x, y, z, x2, y2, z2);
            assert(a =~= b);
        } else {
            lemma_groups(x, y, z, x2, y2, z2);
            let ta = base64_text(a.skip(3));
            let tb = base64_text(b.skip(3));
            assert(ta =~= t.skip(4));
            assert(tb =~= t.skip(4));
            law_base64_text_injective(a.skip(3), b.skip(3));
            assert(a =~= seq![a[0], a[1], a[2]] + a.skip(3));
            assert(b =~= seq![b[0], b[1], b[2]] + b.skip(3));
        }
    }
}

/// The four little-endian bytes of `v`.
pub open spec fn le_bytes_u32(v: u32) -> Seq<u8> {
    seq![(v & 0xff) as u8, ((v >> 8) & 0xff) as u8, ((v >> 16) & 0xff) as u8, ((v >> 24) & 0xff) as u8]
}

/// The eight little-endian bytes of `v`.
pub open spec fn le_bytes_u64(v: u64) -> Seq<u8> {
    seq![
        (v & 0xff) as u8,
        ((v >> 8) & 0xff) as u8,
        ((v >> 16) & 0xff) as u8,
        ((v >> 24) & 0xff) as u8,
        ((v >> 32) & 0xff) as u8,
        ((v >> 40) & 0xff) as u8,
        ((v >> 48) & 0xff) as u8,
        ((v >> 56) & 0xff) as u8,
    ]
}

/// The little-endian EWKB encoding of a point: byte order 1, the type
/// word of a point (with the reference-id flag when it has one), the
/// reference id, then longitude and latitude.
pub open spec fn ewkb_point_bytes(p: LongLat) -> Seq<u8> {
    let t: u32 = if p.srid is Some {
        0x2000_0001
    } else {
        1
    };
    let srid_bytes = match p.srid {
        Some(s) => le_bytes_u32(s as u32),
        None => Seq::<u8>::empty(),
    };
    seq![1u8] + le_bytes_u32(t) + srid_bytes + le_bytes_u64(p.long_bits) + le_bytes_u64(p.lat_bits)
}

proof fn lemma_le_u32(raw: Seq<u8>, at: int, v: u32)
    requires
        0 <= at,
        at + 4 <= raw.len(),
        raw.subrange(at, at + 4) == le_bytes_u32(v),
    ensures
        le_u32(raw, at) == v,
{
    let b = le_bytes_u32(v);
    assert(raw[at] == b[0] && raw[at + 1] == b[1] && raw[at + 2] == b[2] && raw[at + 3] == b[3]) by {
        assert(raw.subrange(at, at + 4)[0] == raw[at]);
        assert(raw.subrange(at, at + 4)[1] == raw[at + 1]);
        assert(raw.subrange(at, at + 4)[2] == raw[at + 2]);
        assert(raw.subrange(at, at + 4)[3] == raw[at + 3]);
    }
    assert(((v & 0xff) as u8) as u32 + (((v >> 8) & 0xff) as u8) as u32 * 0x100 + (((v >> 16) & 0xff) as u8) as u32 * 0x1_0000
        + (((v >> 24) & 0xff) as u8) as u32 * 0x100_0000 == v) by (bit_vector);
}

proof fn lemma_le_u64(raw: Seq<u8>, at: int, v: u64)
    requires
        0 <= at,
        at + 8 <= raw.len(),
        raw.subrange(at, at + 8) == le_bytes_u64(v),
    ensures
        le_u64(raw, at) == v,
{
    let b = le_bytes_u64(v);
    assert forall|k: int| 0 <= k < 8 implies raw[at + k] == b[k] by {
        assert(raw.subrange(at, at + 8)[k] == raw[at + k]);
    }
    assert(raw[at] == b[0] && raw[at + 1] == b[1] && raw[at + 2] == b[2] && raw[at + 3] == b[3]
        && raw[at + 4] == b[4] && raw[at + 5] == b[5] && raw[at + 6] == b[6] && raw[at + 7] == b[7]);
    assert(((v & 0xff) as u8) as u64 + (((v >> 8) & 0xff) as u8) as u64 * 0x100 + (((v >> 16) & 0xff) as u8) as u64
        * 0x1_0000 + (((v >> 24) & 0xff) as u8) as u64 * 0x100_0000 + (((v >> 32) & 0xff) as u8) as u64
        * 0x1_0000_0000 + (((v >> 40) & 0xff) as u8) as u64 * 0x100_0000_0000 + (((v >> 48) & 0xff) as u8) as u64
        * 0x1_0000_0000_0000 + (((v >> 56) & 0xff) as u8) as u64 * 0x100_0000_0000_0000 == v) by (bit_vector);
}

/// Decoding the little-endian EWKB encoding of a point gives the point back.
pub proof fn law_ewkb_round_trip(p: LongLat)
    ensures
        ewkb_point_spec(ewkb_point_bytes(p)) == Ok::<LongLat, EwkbError>(p),
{
    let raw = ewkb_point_bytes(p);
    let t: u32 = if p.srid is Some {
        0x2000_0001
    } else {
        1
    };
    assert(raw.subrange(1, 5) =~= le_bytes_u32(t));
    lemma_le_u32(raw, 1, t);
    assert(0x2000_0001u32 & 0x2000_0000 == 0x2000_0000) by (bit_vector);
    assert(1u32 & 0x2000_0000 != 0x2000_0000) by (bit_vector);
    assert(0x2000_0001u32 & 0xff == 1) by (bit_vector);
    assert(1u32 & 0xff == 1) by (bit_vector);
    let at = coords_at(t);
    assert(has_srid(t) == p.srid is Some);
    assert(raw.subrange(at, at + 8) =~= le_bytes_u64(p.long_bits));
    assert(raw.subrange(at + 8, at + 16) =~= le_bytes_u64(p.lat_bits));
    lemma_le_u64(raw, at, p.long_bits);
    lemma_le_u64(raw, at + 8, p.lat_bits);
    if let Some(s) = p.srid {
        let u = s as u32;
        assert(raw.subrange(5, 9) =~= le_bytes_u32(u));
        lemma_le_u32(raw, 5, u);
        assert(u < 0x8000_0000 ==> u as i32 == s) by (bit_vector)
            requires
                u == s as u32,
        ;
        assert(u >= 0x8000_0000 ==> (u - 0x1_0000_0000) as i32 == s) by (bit_vector)
            requires
                u == s as u32,
        ;
        assert(as_i32(u) == s);
    }
}

/// Whether every character of `s` is white space.
pub open spec fn all_space(s: Seq<char>) -> bool {
    forall|i: int| 0 <= i < s.len() ==> is_space(#[trigger] s[i])
}

proof fn lemma_trim_start_spaces(pre: Seq<char>, x: Seq<char>)
    requires
        all_space(pre),
    ensures
        trim_start_spec(pre + x) == trim_start_spec(x),
    decreases pre.len(),
{
    if pre.len() > 0 {
        assert((pre + x)[0] == pre[0]);
        assert((pre + x).drop_first() =~= pre.drop_first() + x);
        lemma_trim_start_spaces(pre.drop_first(), x);
    } else {
        assert(pre + x =~= x);
    }
}

proof fn lemma_trim_end_spaces(x: Seq<char>, post: Seq<char>)
    requires
        all_space(post),
    ensures
        trim_end_spec(x + post) == trim_end_spec(x),
    decreases post.len(),
{
    if post.len() > 0 {
        assert((x + post).last() == post.last());
        assert((x + post).drop_last() =~= x + post.drop_last());
        lemma_trim_end_spaces(x, post.drop_last());
    } else {
        assert(x + post =~= x);
    }
}

proof fn lemma_trim_start_append(s: Seq<char>, post: Seq<char>)
    requires
        all_space(post),
    ensures
        trim_start_spec(s).len() > 0 ==> trim_start_spec(s + post) == trim_start_spec(s) + post,
        trim_start_spec(s).len() == 0 ==> trim_start_spec(s + post).len() == 0,
    decreases s.len(),
{
    if s.len() == 0 {
        assert(s + post =~= post);
        lemma_trim_start_spaces(post, Seq::<char>::empty());
        assert(post + Seq::<char>::empty() =~= post);
    } else {
        assert((s + post)[0] == s[0]);
        if is_space(s[0]) {
            assert((s + post).drop_first() =~= s.drop_first() + post);
            lemma_trim_start_append(s.drop_first(), post);
        }
    }
}

/// Trimming ignores white space added around a text; so
/// [`crate::decode_payload`], whose outcome is fixed by the trimmed text,
/// gives the same outcome with or without surrounding white space.
pub proof fn law_trim_ignores_surrounding_space(s: Seq<char>, pre: Seq<char>, post: Seq<char>)
    requires
        all_space(pre),
        all_space(post),
    ensures
        trimmed(pre + s + post) == trimmed(s),
{
    assert(pre + s + post =~= pre + (s + post));
    lemma_trim_start_spaces(pre, s + post);
    lemma_trim_start_append(s, post);
    if trim_start_spec(s).len() > 0 {
        lemma_trim_end_spaces(trim_start_spec(s), post);
    } else {
        assert(trim_start_spec(s + post) =~= Seq::<char>::empty());
        assert(trim_start_spec(s) =~= Seq::<char>::empty());
    }
}

/// Only `Content-Length` lines set the announced length: a line that is
/// none leaves it as it was, wherever it stands, and a length line sets it
/// to its own value; with no lines it is 0.
pub proof fn law_length_from_last_length_line(ls: Seq<Seq<char>>, l: Seq<char>)
    ensures
        content_length_spec(Seq::<Seq<char>>::empty()) == 0,
        !is_length_line(l) ==> content_length_spec(ls.push(l)) == content_length_spec(ls),
        is_length_line(l) ==> content_length_spec(ls.push(l)) == length_value(l).unwrap(),
{
    assert(ls.push(l).drop_last() =~= ls);
    assert(ls.push(l).last() == l);
}

/// A head without `Content-Length` lines announces no body.
pub proof fn law_no_length_line_no_body(ls: Seq<Seq<char>>)
    requires
        forall|i: int| 0 <= i < ls.len() ==> !is_length_line(#[trigger] ls[i]),
    ensures
        content_length_spec(ls) == 0,
    decreases ls.len(),
{
    if ls.len() > 0 {
        assert forall|i: int| 0 <= i < ls.drop_last().len() implies !is_length_line(
            #[trigger] ls.drop_last()[i],
        ) by {
            assert(ls.drop_last()[i] == ls[i]);
        }
        assert(!is_length_line(ls[ls.len() - 1]));
        law_no_length_line_no_body(ls.drop_last());
    }
}

/// Every row is written, in order: no rows give `[]`, and one more row
/// adds a comma and its object before the closing bracket.
pub proof fn law_rows_each_written(s: Seq<Vec<Column>>, r: Vec<Column>)
    ensures
        rows_text(Seq::<Vec<Column>>::empty()) == "[]"@,
        s.len() == 0 ==> rows_text(s.push(r)) == "["@ + row_text(r@) + "]"@,
        s.len() > 0 ==> rows_text(s.push(r)) == rows_text(s).drop_last() + ","@ + row_text(r@) + "]"@,
{
    reveal_strlit("[]");
    reveal_strlit("[");
    reveal_strlit("]");
    let f = |x: Vec<Column>| row_text(x@);
    let ps = s.map_values(f);
    let pr = s.push(r).map_values(f);
    assert(Seq::<Vec<Column>>::empty().map_values(f) =~= Seq::<Seq<char>>::empty());
    assert(rows_text(Seq::<Vec<Column>>::empty()) =~= "[]"@);
    assert(pr =~= ps.push(row_text(r@)));
    assert(pr.drop_last() =~= ps);
    if s.len() == 0 {
        assert(pr.len() == 1);
        assert(rows_text(s.push(r)) =~= "["@ + row_text(r@) + "]"@);
    } else {
        assert(rows_text(s).drop_last() =~= "["@ + crate::rows::joined(ps));
        assert(rows_text(s.push(r)) =~= rows_text(s).drop_last() + ","@ + row_text(r@) + "]"@);
    }
}

/// Every column of a row is written, in order: no columns give `{}`, and
/// one more column adds a comma and its member before the closing brace.
pub proof fn law_row_each_column_written(cs: Seq<Column>, c: Column)
    ensures
        row_text(Seq::<Column>::empty()) == "{}"@,
        cs.len() == 0 ==> row_text(cs.push(c)) == "{"@ + column_text(c) + "}"@,
        cs.len() > 0 ==> row_text(cs.push(c)) == row_text(cs).drop_last() + ","@ + column_text(c) + "}"@,
{
    reveal_strlit("{}");
    reveal_strlit("{");
    reveal_strlit("}");
    let f = |x: Column| column_text(x);
    let ps = cs.map_values(f);
    let pr = cs.push(c).map_values(f);
    assert(Seq::<Column>::empty().map_values(f) =~= Seq::<Seq<char>>::empty());
    assert(row_text(Seq::<Column>::empty()) =~= "{}"@);
    assert(pr =~= ps.push(column_text(c)));
    assert(pr.drop_last() =~= ps);
    if cs.len() == 0 {
        assert(pr.len() == 1);
        assert(row_text(cs.push(c)) =~= "{"@ + column_text(c) + "}"@);
    } else {
        assert(row_text(cs).drop_last() =~= "{"@ + crate::rows::joined(ps));
        assert(row_text(cs.push(c)) =~= row_text(cs).drop_last() + ","@ + column_text(c) + "}"@);
    }
}

/// A column is written as its name between quotes, a colon, then its value.
pub proof fn law_column_member(c: Column)
    ensures
        column_text(c)[0] == '"',
        column_text(c).subrange(1, (c.name@.len() + 1) as int) == c.name@,
        column_text(c)[c.name@.len() + 1 as int] == '"',
        column_text(c)[c.name@.len() + 2 as int] == ':',
        column_text(c).skip(c.name@.len() + 3 as int) == cell_text(c.value),
{
    reveal_strlit(":");
    let n = c.name@.len() as int;
    let t = column_text(c);
    assert(t.subrange(1, n + 1) =~= c.name@);
    assert(t.skip(n + 3) =~= cell_text(c.value));
}

/// An `int4` value is written as decimal digits that read back as the
/// value, after a minus sign when it is negative.
pub proof fn law_int_cell_reads_back(i: i32)
    ensures
        i >= 0 ==> all_digits(cell_text(CellValue::Int4(i))) && digits_value(
            cell_text(CellValue::Int4(i)),
        ) == i,
        i < 0 ==> cell_text(CellValue::Int4(i))[0] == '-' && all_digits(
            cell_text(CellValue::Int4(i)).drop_first(),
        ) && digits_value(cell_text(CellValue::Int4(i)).drop_first()) == -i,
{
    if i >= 0 {
        lemma_decimal_value(i as nat);
    } else {
        lemma_decimal_value((-i) as nat);
        assert(cell_text(CellValue::Int4(i)).drop_first() =~= decimal((-i) as nat));
    }
}

/// A point is written as `{"long":`, the longitude text exactly as given,
/// `,"lat":`, the latitude text exactly as given, and `}`.
pub proof fn law_point_json_layout(long: Seq<char>, lat: Seq<char>)
    ensures
        ({
            let j = point_json_spec(long, lat);
            let n = long.len() as int;
            let m = lat.len() as int;
            &&& j.len() == n + m + 16
            &&& j.subrange(0, 8) == seq!['{', '"', 'l', 'o', 'n', 'g', '"', ':']
            &&& j.subrange(8, 8 + n) == long
            &&& j.subrange(8 + n, 15 + n) == seq![',', '"', 'l', 'a', 't', '"', ':']
            &&& j.subrange(15 + n, 15 + n + m) == lat
            &&& j[15 + n + m] == '}'
        }),
{
    reveal_strlit("{\"long\":");
    reveal_strlit(",\"lat\":");
    reveal_strlit("}");
    let j = point_json_spec(long, lat);
    let n = long.len() as int;
    let m = lat.len() as int;
    assert(j.subrange(0, 8) =~= seq!['{', '"', 'l', 'o', 'n', 'g', '"', ':']);
    assert(j.subrange(8, 8 + n) =~= long);
    assert(j.subrange(8 + n, 15 + n) =~= seq![',', '"', 'l', 'a', 't', '"', ':']);
    assert(j.subrange(15 + n, 15 + n + m) =~= lat);
}

/// The crop window is centred along the longer side: across when the
/// image is wider than tall, else down, where the offset is half the
/// width's excess over the target (rounded down) in both cases.
pub proof fn law_crop_window_on_longer_side(width: u32, height: u32)
    requires
        width >= TARGET_SIZE,
    ensures
        width > height ==> crop_origin_spec(width, height).1 == 0 && 2 * crop_origin_spec(
            width,
            height,
        ).0 + 512 <= width <= 2 * crop_origin_spec(width, height).0 + 513,
        width <= height ==> crop_origin_spec(width, height).0 == 0 && 2 * crop_origin_spec(
            width,
            height,
        ).1 + 512 <= width <= 2 * crop_origin_spec(width, height).1 + 513,
{
}

proof fn lemma_word_run(t: Seq<char>, rest: Seq<char>)
    requires
        forall|i: int| 0 <= i < t.len() ==> is_word_char(#[trigger] t[i]),
        rest.len() > 0 ==> !is_word_char(rest[0]),
    ensures
        word_run(t + rest) == t.len(),
    decreases t.len(),
{
    if t.len() > 0 {
        assert((t + rest)[0] == t[0]);
        assert((t + rest).drop_first() =~= t.drop_first() + rest);
        lemma_word_run(t.drop_first(), rest);
    } else {
        assert(t + rest =~= rest);
    }
}

/// The data-URL prefix is found for every image subtype: for a subtype
/// `t` of ASCII word characters and any payload `p`, the payload of
/// `data:image/<t>;base64,<p>` starts right after the prefix and is `p`,
/// which [`crate::decode_data_url`] then decodes.
pub proof fn law_data_url_prefix_found(t: Seq<char>, p: Seq<char>)
    requires
        t.len() > 0,
        forall|i: int| 0 <= i < t.len() ==> is_word_char(#[trigger] t[i]),
    ensures
        data_url_payload_at("data:image/"@ + t + ";base64,"@ + p) == Some(19 + t.len() as int),
        ("data:image/"@ + t + ";base64,"@ + p).skip(19 + t.len() as int) == p,
{
    reveal_strlit("data:image/");
    reveal_strlit(";base64,");
    let h = "data:image/"@ + t + ";base64,"@ + p;
    let tail = ";base64,"@ + p;
    assert(h.skip(11) =~= t + tail);
    assert(tail[0] == ';');
    lemma_word_run(t, tail);
    assert(h.subrange(0, 11) =~= "data:image/"@);
    assert(h.skip(11 + t.len() as int) =~= tail);
    assert(tail.subrange(0, 8) =~= ";base64,"@);
    assert(h.skip(19 + t.len() as int) =~= p);
}

} // verus!
