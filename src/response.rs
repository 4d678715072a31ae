use vstd::prelude::*;
use crate::bytes::append_bytes;
use crate::file_manager::{FileView, TFile};

verus! {

/// The statuses a response can carry.
#[derive(Debug, Clone, Copy, PartialEq, Eq, Structural)]
pub enum Status {
    Success,
    NotFound,
    Locked,
    InternalError,
}

/// `AFTP/1.0 `
pub open spec fn proto_prefix() -> Seq<u8> {
    seq![65u8, 70, 84, 80, 47, 49, 46, 48, 32]
}

/// The code and reason of a status: `200 OK`, `404 Not Found`, `423 Locked`,
/// `500 Internal Error`.
pub open spec fn status_text(st: Status) -> Seq<u8> {
    match st {
        Status::Success => seq![50u8, 48, 48, 32, 79, 75],
        Status::NotFound => seq![52u8, 48, 52, 32, 78, 111, 116, 32, 70, 111, 117, 110, 100],
        Status::Locked => seq![52u8, 50, 51, 32, 76, 111, 99, 107, 101, 100],
        Status::InternalError => seq![
            53u8, 48, 48, 32, 73, 110, 116, 101, 114, 110, 97, 108, 32, 69, 114, 114, 111, 114,
        ],
    }
}

pub open spec fn newline() -> Seq<u8> {
    seq![10u8]
}

/// The status line: `AFTP/1.0 <code> <reason>\n`.
pub open spec fn status_line(st: Status) -> Seq<u8> {
    proto_prefix() + status_text(st) + newline()
}

/// `Content-Length: `
pub open spec fn content_length_label() -> Seq<u8> {
    seq![67u8, 111, 110, 116, 101, 110, 116, 45, 76, 101, 110, 103, 116, 104, 58, 32]
}

/// `File-Size: `
pub open spec fn file_size_label() -> Seq<u8> {
    seq![70u8, 105, 108, 101, 45, 83, 105, 122, 101, 58, 32]
}

/// The decimal digits of `n`, most significant first, without leading zeros.
pub open spec fn decimal_digits(n: nat) -> Seq<u8>
    decreases n,
{
    if n < 10 {
        seq![(48 + n) as u8]
    } else {
        decimal_digits(n / 10).push((48 + n % 10) as u8)
    }
}

/// The decimal text of a signed number: a minus sign before negative ones.
pub open spec fn signed_digits(i: int) -> Seq<u8> {
    if i < 0 {
        seq![45u8] + decimal_digits((-i) as nat)
    } else {
        decimal_digits(i as nat)
    }
}

/// One line of a listing: `<name> <created> <hash>\n`.
pub open spec fn list_entry(f: FileView) -> Seq<u8> {
    f.name + seq![32u8] + signed_digits(f.created as int) + seq![32u8] + f.hash + newline()
}

/// The lines of a listing, one per record, in order.
pub open spec fn list_body(s: Seq<FileView>) -> Seq<u8>
    decreases s.len(),
{
    if s.len() == 0 {
        Seq::empty()
    } else {
        list_body(s.drop_last()) + list_entry(s.last())
    }
}

/// The header of a GET response for a file of `size` bytes.
pub open spec fn get_header_spec(size: nat) -> Seq<u8> {
    status_line(Status::Success) + content_length_label() + decimal_digits(size) + newline()
        + file_size_label() + decimal_digits(size) + newline()
}

/// The response to LIST: the status, the length of the listing, the listing.
pub open spec fn list_response_spec(s: Seq<FileView>) -> Seq<u8> {
    status_line(Status::Success) + content_length_label() + decimal_digits(list_body(s).len())
        + newline() + list_body(s)
}

/// Appends the decimal digits of `n`.
pub fn push_decimal(out: &mut Vec<u8>, n: u64)
    ensures
        final(out)@ == old(out)@ + decimal_digits(n as nat),
    decreases n,
{
    if n >= 10 {
        push_decimal(out, n / 10);
    }
    out.push((48 + n % 10) as u8);
    assert(final(out)@ =~= old(out)@ + decimal_digits(n as nat));
}

/// Appends the decimal text of a signed number.
pub fn push_signed(out: &mut Vec<u8>, i: i64)
    ensures
        final(out)@ == old(out)@ + signed_digits(i as int),
{
    if i < 0 {
        out.push(45u8);
        let m: u64 = ((-(i + 1)) as u64) + 1;
        push_decimal(out, m);
        assert(final(out)@ =~= old(out)@ + signed_digits(i as int));
    } else {
        push_decimal(out, i as u64);
    }
}

fn push_status_text(out: &mut Vec<u8>, st: Status)
    ensures
        final(out)@ == old(out)@ + status_text(st),
{
    let t: Vec<u8> = match st {
        Status::Success => vec![50u8, 48, 48, 32, 79, 75],
        Status::NotFound => vec![52u8, 48, 52, 32, 78, 111, 116, 32, 70, 111, 117, 110, 100],
        Status::Locked => vec![52u8, 50, 51, 32, 76, 111, 99, 107, 101, 100],
        Status::InternalError => vec![
            53u8, 48, 48, 32, 73, 110, 116, 101, 114, 110, 97, 108, 32, 69, 114, 114, 111, 114,
        ],
    };
    assert(t@ == status_text(st));
    append_bytes(out, &t);
}

/// The status line for `st`.
pub fn status_response(st: Status) -> (r: Vec<u8>)
    ensures
        r@ == status_line(st),
{
    let mut out: Vec<u8> = vec![65u8, 70, 84, 80, 47, 49, 46, 48, 32];
    assert(out@ == proto_prefix());
    push_status_text(&mut out, st);
    out.push(10u8);
    assert(out@ =~= status_line(st));
    out
}

/// The header sent before the bytes of a file of `size` bytes.
pub fn get_header(size: u64) -> (r: Vec<u8>)
    ensures
        r@ == get_header_spec(size as nat),
{
    let mut out = status_response(Status::Success);
    let cl: Vec<u8> = vec![67u8, 111, 110, 116, 101, 110, 116, 45, 76, 101, 110, 103, 116, 104, 58, 32];
    let fs: Vec<u8> = vec![70u8, 105, 108, 101, 45, 83, 105, 122, 101, 58, 32];
    assert(cl@ == content_length_label());
    assert(fs@ == file_size_label());
    append_bytes(&mut out, &cl);
    push_decimal(&mut out, size);
    out.push(10u8);
    append_bytes(&mut out, &fs);
    push_decimal(&mut out, size);
    out.push(10u8);
    assert(out@ =~= get_header_spec(size as nat));
    out
}

/// The response to LIST for the given records.
pub fn list_response(files: &Vec<TFile>) -> (r: Vec<u8>)
    ensures
        r@ == list_response_spec(files@.map_values(|f: TFile| f@)),
{
    let ghost s = files@.map_values(|f: TFile| f@);
    let mut body: Vec<u8> = Vec::new();
    let mut i: usize = 0;
    while i < files.len()
        invariant
            i <= files@.len(),
            s == files@.map_values(|f: TFile| f@),
            body@ == list_body(s.subrange(0, i as int)),
        decreases files@.len() - i,
    {
        let f = &files[i];
        let ghost before = body@;
        append_bytes(&mut body, &f.filename);
        body.push(32u8);
        push_signed(&mut body, f.created);
        body.push(32u8);
        append_bytes(&mut body, &f.hash);
        body.push(10u8);
        assert(s.subrange(0, i + 1).drop_last() == s.subrange(0, i as int));
        assert(s.subrange(0, i + 1).last() == f@);
        assert(body@ =~= before + list_entry(f@));
        i = i + 1;
    }
    assert(s.subrange(0, files@.len() as int) == s);
    let mut out = status_response(Status::Success);
    let cl: Vec<u8> = vec![67u8, 111, 110, 116, 101, 110, 116, 45, 76, 101, 110, 103, 116, 104, 58, 32];
    assert(cl@ == content_length_label());
    append_bytes(&mut out, &cl);
    push_decimal(&mut out, body.len() as u64);
    out.push(10u8);
    append_bytes(&mut out, &body);
    assert(out@ =~= list_response_spec(s));
    out
}

} // verus!
