//! Byte-exact framing for the MJPEG preview stream.
//!
//! The preview server speaks `multipart/x-mixed-replace`: one fixed HTTP
//! response header per connection, then one part per JPEG, framed by a
//! `--frame` marker and a decimal `Content-Length`. The server's socket
//! loop sends exactly the byte strings built here.

use vstd::prelude::*;

verus! {

/// The characters of an ASCII string as bytes (each character truncated to
/// its low byte; all strings framed here are ASCII).
pub open spec fn ascii_bytes(s: Seq<char>) -> Seq<u8> {
    Seq::new(s.len(), |i: int| s[i] as u8)
}

/// The decimal digits of `n`, most significant first.
pub open spec fn dec_bytes(n: nat) -> Seq<u8>
    decreases n,
{
    if n < 10 {
        seq![(48 + n) as u8]
    } else {
        dec_bytes(n / 10).push((48 + n % 10) as u8)
    }
}

/// The number a digit string denotes.
pub open spec fn dec_value(s: Seq<u8>) -> int
    decreases s.len(),
{
    if s.len() == 0 {
        0
    } else {
        dec_value(s.drop_last()) * 10 + s.last() - 48
    }
}

/// The HTTP response header the preview server sends once per connection.
pub open spec fn spec_response_header() -> Seq<u8> {
    ascii_bytes(
        "HTTP/1.1 200 OK\r\nContent-Type: multipart/x-mixed-replace; boundary=frame\r\nCache-Control: no-cache, no-store\r\nConnection: close\r\nAccess-Control-Allow-Origin: *\r\n\r\n"@,
    )
}

/// One multipart body part: marker, part headers with the JPEG's length in
/// decimal, a blank line, the JPEG itself, and a trailing line break.
pub open spec fn spec_frame_chunk(jpeg: Seq<u8>) -> Seq<u8> {
    ascii_bytes("--frame\r\nContent-Type: image/jpeg\r\nContent-Length: "@) + dec_bytes(jpeg.len())
        + ascii_bytes("\r\n\r\n"@) + jpeg + ascii_bytes("\r\n"@)
}

/// Append the bytes of an ASCII string.
fn push_ascii(out: &mut Vec<u8>, s: &str)
    ensures
        final(out)@ == old(out)@ + ascii_bytes(s@),
{
    let n: usize = s.unicode_len();
    let mut i: usize = 0;
    while i < n
        invariant
            i <= n,
            n == s@.len(),
            out@ == old(out)@ + ascii_bytes(s@).subrange(0, i as int),
        decreases n - i,
    {
        let c = s.get_char(i);
        out.push(c as u8);
        proof {
            assert(out@ =~= old(out)@ + ascii_bytes(s@).subrange(0, i + 1));
        }
        i += 1;
    }
    proof {
        assert(final(out)@ =~= old(out)@ + ascii_bytes(s@));
    }
}

/// Append the decimal digits of `n`, most significant first.
fn push_decimal(out: &mut Vec<u8>, n: u64)
    ensures
        final(out)@ == old(out)@ + dec_bytes(n as nat),
    decreases n,
{
    if n < 10 {
        out.push(48 + n as u8);
        proof {
            assert(final(out)@ =~= old(out)@ + dec_bytes(n as nat));
        }
    } else {
        push_decimal(out, n / 10);
        out.push(48 + (n % 10) as u8);
        proof {
            assert(final(out)@ =~= old(out)@ + dec_bytes(n as nat));
        }
    }
}

/// The response header as bytes, ready to write to a fresh connection.
pub fn mjpeg_response_header() -> (r: Vec<u8>)
    ensures
        r@ == spec_response_header(),
{
    let mut out: Vec<u8> = Vec::new();
    push_ascii(
        &mut out,
        "HTTP/1.1 200 OK\r\nContent-Type: multipart/x-mixed-replace; boundary=frame\r\nCache-Control: no-cache, no-store\r\nConnection: close\r\nAccess-Control-Allow-Origin: *\r\n\r\n",
    );
    proof {
        assert(out@ =~= spec_response_header());
    }
    out
}

/// The complete multipart part for one JPEG, ready to write to the client.
pub fn mjpeg_frame_chunk(jpeg: &Vec<u8>) -> (r: Vec<u8>)
    ensures
        r@ == spec_frame_chunk(jpeg@),
{
    let mut out: Vec<u8> = Vec::new();
    push_ascii(&mut out, "--frame\r\nContent-Type: image/jpeg\r\nContent-Length: ");
    push_decimal(&mut out, jpeg.len() as u64);
    push_ascii(&mut out, "\r\n\r\n");
    let ghost before_body = out@;
    let mut i: usize = 0;
    while i < jpeg.len()
        invariant
            i <= jpeg@.len(),
            out@ == before_body + jpeg@.subrange(0, i as int),
        decreases jpeg@.len() - i,
    {
        out.push(jpeg[i]);
        proof {
            assert(out@ =~= before_body + jpeg@.subrange(0, i + 1));
        }
        i += 1;
    }
    proof {
        assert(out@ =~= before_body + jpeg@);
    }
    push_ascii(&mut out, "\r\n");
    proof {
        assert(out@ =~= spec_frame_chunk(jpeg@));
    }
    out
}

/// Every digit of `dec_bytes` is an ASCII digit, and the digit string reads
/// back as exactly the number it was made from: the `Content-Length` in a
/// part is correct.
pub proof fn lemma_dec_bytes_value(n: nat)
    ensures
        dec_bytes(n).len() >= 1,
        forall|i: int| 0 <= i < dec_bytes(n).len() ==> 48 <= #[trigger] dec_bytes(n)[i] <= 57,
        dec_value(dec_bytes(n)) == n,
    decreases n,
{
    if n < 10 {
        assert(dec_bytes(n) =~= seq![(48 + n) as u8]);
        assert(dec_bytes(n).drop_last() =~= Seq::<u8>::empty());
        assert(dec_value(Seq::<u8>::empty()) == 0);
        assert(dec_value(dec_bytes(n)) == n);
    } else {
        lemma_dec_bytes_value(n / 10);
        let s = dec_bytes(n);
        let p = dec_bytes(n / 10);
        assert(s == p.push((48 + n % 10) as u8));
        assert(s.drop_last() =~= p);
        assert(s.last() == (48 + n % 10) as u8);
        assert(dec_value(s) == dec_value(p) * 10 + n % 10);
        assert((n / 10) * 10 + n % 10 == n) by {
            vstd::arithmetic::div_mod::lemma_fundamental_div_mod(n as int, 10);
        }
        assert forall|i: int| 0 <= i < s.len() implies 48 <= #[trigger] s[i] <= 57 by {
            if i < p.len() {
                assert(s[i] == p[i]);
            }
        }
    }
}

/// Every part the server emits begins with the `--frame` marker line: the
/// first nine bytes of a frame chunk are exactly `--frame\r\n`.
pub proof fn lemma_frame_chunk_marker(jpeg: Seq<u8>)
    ensures
        spec_frame_chunk(jpeg).len() >= 9,
        spec_frame_chunk(jpeg).subrange(0, 9) =~= ascii_bytes("--frame\r\n"@),
{
    reveal_strlit("--frame\r\nContent-Type: image/jpeg\r\nContent-Length: ");
    reveal_strlit("--frame\r\n");
}

} // verus!
