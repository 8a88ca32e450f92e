//! The probe's fixed handshake, and how a reply to it is reported.
use vstd::prelude::*;
use vstd::string::StringExecFns;

verus! {

/// Seconds to wait for a reply after the handshake is sent.
pub const RECEIVE_TIMEOUT_SECS: u64 = 3;

/// Most bytes of a reply that are read.
pub const REPLY_BUFFER_LEN: usize = 32;

/// Bytes of a dump line.
pub const BYTES_PER_LINE: usize = 16;

/// Lower-case hexadecimal digit of `n`.
pub open spec fn hex_digit(n: int) -> char {
    if n == 0 { '0' }
    else if n == 1 { '1' }
    else if n == 2 { '2' }
    else if n == 3 { '3' }
    else if n == 4 { '4' }
    else if n == 5 { '5' }
    else if n == 6 { '6' }
    else if n == 7 { '7' }
    else if n == 8 { '8' }
    else if n == 9 { '9' }
    else if n == 10 { 'a' }
    else if n == 11 { 'b' }
    else if n == 12 { 'c' }
    else if n == 13 { 'd' }
    else if n == 14 { 'e' }
    else { 'f' }
}

/// `n` in lower-case hexadecimal, padded with zeros to at least `width` digits.
pub open spec fn hex_text(n: nat, width: nat) -> Seq<char>
    decreases n + width,
{
    if n < 16 && width <= 1 {
        seq![hex_digit(n as int)]
    } else {
        hex_text(n / 16, if width > 0 { (width - 1) as nat } else { 0 }) + seq![hex_digit((n % 16) as int)]
    }
}

/// A byte of the dump: two digits, and a space after each second byte.
pub open spec fn byte_cell(data: Seq<u8>, i: int) -> Seq<char> {
    hex_text(data[i] as nat, 2) + if i % 2 == 1 { seq![' '] } else { Seq::empty() }
}

/// The cells of bytes `from` up to `to`.
pub open spec fn cells(data: Seq<u8>, from: int, to: int) -> Seq<char>
    decreases to - from,
{
    if to <= from {
        Seq::empty()
    } else {
        cells(data, from, to - 1) + byte_cell(data, to - 1)
    }
}

/// Where dump line `k` ends.
pub open spec fn line_end(data: Seq<u8>, k: int) -> int {
    if data.len() - 16 * k > 16 { 16 * k + 16 } else { data.len() as int }
}

/// Dump line `k`: its offset in eight hexadecimal digits, then the cells of
/// its sixteen bytes (fewer on the last line).
pub open spec fn dump_line(data: Seq<u8>, k: int) -> Seq<char> {
    seq![' ', ' '] + hex_text((16 * k) as nat, 8) + seq![':', ' '] + cells(data, 16 * k, line_end(data, k))
}

/// The first `k` dump lines, separated by line breaks.
pub open spec fn dump_lines(data: Seq<u8>, k: nat) -> Seq<char>
    decreases k,
{
    if k == 0 {
        Seq::empty()
    } else if k == 1 {
        dump_line(data, 0)
    } else {
        dump_lines(data, (k - 1) as nat) + seq!['\n'] + dump_line(data, k - 1)
    }
}

/// Number of dump lines for `n` bytes.
pub open spec fn line_count(n: nat) -> nat {
    ((n + 15) / 16) as nat
}

/// The hex dump of `data`, without a final line break.
pub open spec fn dump_text(data: Seq<u8>) -> Seq<char> {
    dump_lines(data, line_count(data.len()))
}

fn hex_digit_text(n: u8) -> (r: &'static str)
    requires
        n < 16,
    ensures
        r@ == seq![hex_digit(n as int)],
{
    proof {
        reveal_strlit("0");
        reveal_strlit("1");
        reveal_strlit("2");
        reveal_strlit("3");
        reveal_strlit("4");
        reveal_strlit("5");
        reveal_strlit("6");
        reveal_strlit("7");
        reveal_strlit("8");
        reveal_strlit("9");
        reveal_strlit("a");
        reveal_strlit("b");
        reveal_strlit("c");
        reveal_strlit("d");
        reveal_strlit("e");
        reveal_strlit("f");
    }
    let r = if n == 0 { "0" }
    else if n == 1 { "1" }
    else if n == 2 { "2" }
    else if n == 3 { "3" }
    else if n == 4 { "4" }
    else if n == 5 { "5" }
    else if n == 6 { "6" }
    else if n == 7 { "7" }
    else if n == 8 { "8" }
    else if n == 9 { "9" }
    else if n == 10 { "a" }
    else if n == 11 { "b" }
    else if n == 12 { "c" }
    else if n == 13 { "d" }
    else if n == 14 { "e" }
    else { "f" };
    assert(r@ =~= seq![hex_digit(n as int)]);
    r
}

/// `n` in lower-case hexadecimal, padded with zeros to at least `width` digits.
pub fn hex_padded(n: usize, width: usize) -> (r: String)
    ensures
        r@ == hex_text(n as nat, width as nat),
    decreases n + width,
{
    if n < 16 && width <= 1 {
        String::from_str(hex_digit_text(n as u8))
    } else {
        let mut r = hex_padded(n / 16, if width > 0 { width - 1 } else { 0 });
        r.append(hex_digit_text((n % 16) as u8));
        r
    }
}

} // verus!

verus! {

fn render_line(data: &[u8], start: usize, end: usize) -> (r: String)
    requires
        start < end <= data@.len(),
    ensures
        r@ == seq![' ', ' '] + hex_text(start as nat, 8) + seq![':', ' '] + cells(data@, start as int, end as int),
{
    proof {
        reveal_strlit("  ");
        reveal_strlit(": ");
        reveal_strlit(" ");
    }
    let mut r = String::from_str("  ");
    let offset = hex_padded(start, 8);
    r.append(offset.as_str());
    r.append(": ");
    let ghost head = r@;
    assert(head =~= seq![' ', ' '] + hex_text(start as nat, 8) + seq![':', ' ']);
    let mut i: usize = start;
    while i < end
        invariant
            start <= i <= end,
            end <= data@.len(),
            r@ == head + cells(data@, start as int, i as int),
        decreases end - i,
    {
        proof {
            reveal_strlit(" ");
        }
        let h = hex_padded(data[i] as usize, 2);
        assert(h@ == hex_text(data@[i as int] as nat, 2));
        r.append(h.as_str());
        if i % 2 == 1 {
            r.append(" ");
        }
        assert(r@ =~= head + cells(data@, start as int, i as int) + byte_cell(data@, i as int));
        assert(cells(data@, start as int, i + 1) == cells(data@, start as int, i as int) + byte_cell(
            data@,
            i as int,
        ));
        i = i + 1;
    }
    r
}

/// The hex dump of `data`: sixteen bytes a line, each line led by two spaces
/// and its offset in eight hexadecimal digits, each byte in two digits, a
/// space after each second byte, and no line break after the last line.
pub fn hex_dump(data: &[u8]) -> (r: String)
    ensures
        r@ == dump_text(data@),
{
    let n = data.len();
    let mut out = String::new();
    let mut start: usize = 0;
    let ghost mut k: nat = 0;
    while start < n
        invariant
            start <= n,
            n == data@.len(),
            start == if 16 * k <= n { 16 * k as int } else { n as int },
            k > 0 ==> 16 * k - 16 < n,
            out@ == dump_lines(data@, k),
        decreases n - start,
    {
        let end = if n - start > BYTES_PER_LINE { start + BYTES_PER_LINE } else { n };
        assert(end == line_end(data@, k as int));
        proof {
            reveal_strlit("\n");
        }
        let line = render_line(data, start, end);
        assert(line@ == dump_line(data@, k as int));
        if start > 0 {
            out.append("\n");
        }
        out.append(line.as_str());
        assert(out@ =~= dump_lines(data@, k + 1));
        start = end;
        proof {
            k = k + 1;
        }
    }
    assert(k == line_count(n as nat)) by (nonlinear_arith)
        requires
            start >= n,
            start == if 16 * k <= n { 16 * k as int } else { n as int },
            k > 0 ==> 16 * k - 16 < n,
            k == 0 ==> n == 0,
    ;
    out
}

} // verus!

verus! {

/// The handshake datagram: a one, twenty-seven zeros, then an eight.
pub open spec fn handshake() -> Seq<u8> {
    seq![1u8] + Seq::new(27, |i: int| 0u8) + seq![8u8]
}

/// The handshake datagram that a probe sends.
pub fn handshake_payload() -> (r: Vec<u8>)
    ensures
        r@ == handshake(),
        r@.len() == 29,
{
    let mut r: Vec<u8> = Vec::new();
    r.push(1u8);
    let mut i: usize = 0;
    while i < 27
        invariant
            i <= 27,
            r@ == seq![1u8] + Seq::new(i as nat, |j: int| 0u8),
        decreases 27 - i,
    {
        r.push(0u8);
        assert(r@ =~= seq![1u8] + Seq::new((i + 1) as nat, |j: int| 0u8));
        i = i + 1;
    }
    r.push(8u8);
    assert(r@ =~= handshake());
    r
}

/// What a probe reports of the reply it waited for.
pub enum ReplyReport {
    /// Bytes arrived: how many, and their hex dump.
    Data { count: usize, dump: String },
    /// Nothing arrived before the timeout, or an empty datagram did.
    NoData,
}

/// The report on a reply: `reply` is the datagram received, or `None` where
/// the receive failed or timed out.
pub fn report_reply(reply: Option<&[u8]>) -> (r: ReplyReport)
    ensures
        match reply {
            Some(d) if d@.len() > 0 => r matches ReplyReport::Data { count, dump } && count
                == d@.len() && dump@ == dump_text(d@),
            _ => r is NoData,
        },
{
    match reply {
        Some(d) => {
            if d.len() > 0 {
                ReplyReport::Data { count: d.len(), dump: hex_dump(d) }
            } else {
                ReplyReport::NoData
            }
        },
        None => ReplyReport::NoData,
    }
}

} // verus!

verus! {

/// The cells of the first `k` dump lines, without offsets or line breaks.
pub open spec fn line_cells(data: Seq<u8>, k: nat) -> Seq<char>
    decreases k,
{
    if k == 0 {
        Seq::empty()
    } else {
        line_cells(data, (k - 1) as nat) + cells(data, 16 * (k - 1), line_end(data, k - 1))
    }
}

proof fn lemma_cells_split(data: Seq<u8>, a: int, b: int, c: int)
    requires
        a <= b <= c,
    ensures
        cells(data, a, c) == cells(data, a, b) + cells(data, b, c),
    decreases c - b,
{
    if b == c {
        assert(cells(data, a, b) + cells(data, b, c) =~= cells(data, a, b));
    } else {
        lemma_cells_split(data, a, b, c - 1);
        assert(cells(data, a, c) =~= cells(data, a, b) + cells(data, b, c));
    }
}

proof fn lemma_line_cells_prefix(data: Seq<u8>, k: nat)
    requires
        k <= line_count(data.len()),
    ensures
        line_cells(data, k) == cells(data, 0, if 16 * k <= data.len() { 16 * k as int } else { data.len() as int }),
    decreases k,
{
    let n = data.len() as int;
    if k == 0 {
        assert(cells(data, 0, 0) =~= Seq::<char>::empty());
    } else {
        let kk = k as int;
        assert(16 * (kk - 1) < n) by (nonlinear_arith)
            requires
                kk <= (n + 15) / 16,
                kk > 0,
                n >= 0,
        ;
        lemma_line_cells_prefix(data, (k - 1) as nat);
        lemma_cells_split(data, 0, 16 * (k - 1), line_end(data, k - 1));
    }
}

/// Layout of the dump of a non-empty reply: every line but the last holds
/// sixteen bytes, the last one to sixteen and ends at the last byte, and the
/// lines' cells, in order, are the cells of all the bytes: each byte stands
/// once, in order, as two hexadecimal digits.
pub proof fn lemma_dump_layout(data: Seq<u8>)
    requires
        data.len() > 0,
    ensures
        forall|k: int|
            0 <= k < line_count(data.len()) - 1 ==> #[trigger] line_end(data, k) - 16 * k == 16,
        0 < line_end(data, line_count(data.len()) - 1) - 16 * (line_count(data.len()) - 1) <= 16,
        line_end(data, line_count(data.len()) - 1) == data.len(),
        line_cells(data, line_count(data.len())) == cells(data, 0, data.len() as int),
        forall|i: int| 0 <= i < data.len() ==> (#[trigger] hex_text(data[i] as nat, 2)).len() == 2,
{
    let n = data.len() as int;
    let m = line_count(data.len()) as int;
    assert(16 * (m - 1) < n && n <= 16 * m) by (nonlinear_arith)
        requires
            m == (n + 15) / 16,
            n > 0,
    ;
    assert forall|k: int| 0 <= k < m - 1 implies #[trigger] line_end(data, k) - 16 * k == 16 by {
        assert(16 * k + 16 < n) by (nonlinear_arith)
            requires
                k < m - 1,
                16 * (m - 1) < n,
        ;
    }
    lemma_line_cells_prefix(data, m as nat);
    assert forall|i: int| 0 <= i < n implies (#[trigger] hex_text(data[i] as nat, 2)).len() == 2 by {
        let b = data[i] as nat;
        assert(b / 16 < 16);
        assert(hex_text(b / 16, 1).len() == 1);
    }
}

} // verus!
