//! Parsing of the system mixer's status listing into audio device records.
//!
//! The listing is line-oriented: an `Audio` block holds tree sections such
//! as `Sources:` and `Sinks:`, introduced by box-drawing branch markers,
//! and inside a section each device line carries an optional `*` (the
//! default device), a numeric id, a dot, the device name, and a trailing
//! volume tag. The grammar lives in the spec functions; the executable
//! parser is proved to follow it byte for byte.

use vstd::prelude::*;

verus! {

/// One device parsed out of the listing.
pub struct AudioDevice {
    pub id: Vec<u8>,
    pub name: Vec<u8>,
    pub is_default: bool,
}

/// What one device record holds, as plain sequences.
pub open spec fn device_rec(d: AudioDevice) -> (Seq<u8>, Seq<u8>, bool) {
    (d.id@, d.name@, d.is_default)
}

/// `p` occurs in `s` starting at `at`.
pub open spec fn spec_starts_with_at(s: Seq<u8>, at: int, p: Seq<u8>) -> bool {
    0 <= at && at + p.len() <= s.len() && s.subrange(at, at + p.len()) == p
}

/// The word that opens the audio block.
pub open spec fn audio_word() -> Seq<u8> {
    seq![65u8, 117u8, 100u8, 105u8, 111u8]
}

/// The branch marker of a tree entry that is not the last of its block.
pub open spec fn branch_marker() -> Seq<u8> {
    seq![226u8, 148u8, 156u8, 226u8, 148u8, 128u8, 32u8]
}

/// The branch marker of the last tree entry of its block.
pub open spec fn last_branch_marker() -> Seq<u8> {
    seq![226u8, 148u8, 148u8, 226u8, 148u8, 128u8, 32u8]
}

/// The `[vol:` tag that closes a device name.
pub open spec fn vol_tag() -> Seq<u8> {
    seq![91u8, 118u8, 111u8, 108u8, 58u8]
}

/// The header that opens the wanted section: branch marker, section name,
/// colon.
pub open spec fn section_header(marker: Seq<u8>, section: Seq<u8>) -> Seq<u8> {
    marker + section + seq![58u8]
}

/// The first index at or after `i` holding neither space nor tab (or the
/// end).
pub open spec fn spec_skip_ws(s: Seq<u8>, i: int) -> int
    decreases s.len() - i,
{
    if !(0 <= i < s.len()) {
        i
    } else if s[i] == 32 || s[i] == 9 {
        spec_skip_ws(s, i + 1)
    } else {
        i
    }
}

/// The first index at or after `i` holding an ASCII digit, or the end.
pub open spec fn spec_find_digit(s: Seq<u8>, i: int) -> int
    decreases s.len() - i,
{
    if !(0 <= i < s.len()) {
        s.len() as int
    } else if 48 <= s[i] <= 57 {
        i
    } else {
        spec_find_digit(s, i + 1)
    }
}

/// The first index at or after `i` holding no digit, or the end.
pub open spec fn spec_digit_end(s: Seq<u8>, i: int) -> int
    decreases s.len() - i,
{
    if !(0 <= i < s.len()) {
        s.len() as int
    } else if 48 <= s[i] <= 57 {
        spec_digit_end(s, i + 1)
    } else {
        i
    }
}

/// The first index at or after `i` where the `[vol:` tag starts, or the
/// end.
pub open spec fn spec_find_vol(s: Seq<u8>, i: int) -> int
    decreases s.len() - i,
{
    if !(0 <= i < s.len()) {
        s.len() as int
    } else if spec_starts_with_at(s, i, vol_tag()) {
        i
    } else {
        spec_find_vol(s, i + 1)
    }
}

/// A `*` occurs before index `end`.
pub open spec fn spec_has_star(s: Seq<u8>, end: int) -> bool
    decreases end,
{
    if end <= 0 || end > s.len() {
        false
    } else {
        s[end - 1] == 42 || spec_has_star(s, end - 1)
    }
}

/// The end of `s[from..to)` with trailing spaces removed.
pub open spec fn spec_rtrim(s: Seq<u8>, from: int, to: int) -> int
    decreases to - from,
{
    if to <= from || to > s.len() {
        from
    } else if s[to - 1] == 32 {
        spec_rtrim(s, from, to - 1)
    } else {
        to
    }
}

/// A device line: an optional `*` (default mark), then a digit run (the
/// id), a dot, at least one space, the name, at least one space, and the
/// `[vol:` tag. Anything else yields no record.
pub open spec fn spec_device_line(line: Seq<u8>) -> Option<(Seq<u8>, Seq<u8>, bool)> {
    let d0 = spec_find_digit(line, 0);
    if d0 >= line.len() {
        None
    } else {
        let star = spec_has_star(line, d0);
        let d1 = spec_digit_end(line, d0);
        if d1 >= line.len() || line[d1] != 46 {
            None
        } else {
            let ns = spec_skip_ws(line, d1 + 1);
            if ns == d1 + 1 || ns >= line.len() {
                None
            } else {
                let v = spec_find_vol(line, ns);
                if v >= line.len() || v == ns || line[v - 1] != 32 {
                    None
                } else {
                    let ne = spec_rtrim(line, ns, v);
                    if ne <= ns {
                        None
                    } else {
                        Some((line.subrange(d0, d1), line.subrange(ns, ne), star))
                    }
                }
            }
        }
    }
}

/// The first newline at or after `i`, or the end.
pub open spec fn spec_find_nl(s: Seq<u8>, i: int) -> int
    decreases s.len() - i,
{
    if !(0 <= i < s.len()) {
        s.len() as int
    } else if s[i] == 10 {
        i
    } else {
        spec_find_nl(s, i + 1)
    }
}

/// A line with a trailing carriage return loses it.
pub open spec fn strip_cr(line: Seq<u8>) -> Seq<u8> {
    if line.len() > 0 && line.last() == 13 {
        line.drop_last()
    } else {
        line
    }
}

/// The lines of `s` from byte `i` on, split at newlines, carriage returns
/// stripped; a trailing newline opens no extra empty line.
pub open spec fn spec_lines_from(s: Seq<u8>, i: int) -> Seq<Seq<u8>>
    decreases s.len() - i,
    via spec_lines_from_dec
{
    if !(0 <= i < s.len()) {
        Seq::empty()
    } else {
        let e = spec_find_nl(s, i);
        let next = if e < s.len() {
            e + 1
        } else {
            s.len() as int
        };
        seq![strip_cr(s.subrange(i, e))] + spec_lines_from(s, next)
    }
}

/// The newline found for a line is never before the line's start.
pub proof fn lemma_find_nl_ge(s: Seq<u8>, i: int)
    requires
        0 <= i <= s.len(),
    ensures
        i <= spec_find_nl(s, i) <= s.len(),
    decreases s.len() - i,
{
    if i < s.len() && s[i] != 10 {
        lemma_find_nl_ge(s, i + 1);
    }
}

#[via_fn]
proof fn spec_lines_from_dec(s: Seq<u8>, i: int) {
    if 0 <= i < s.len() {
        lemma_find_nl_ge(s, i);
    }
}

/// The line-level state machine over the listing: enter the audio block at
/// its header, leave it at the next top-level line, enter the wanted
/// section at its header, leave it at the next branch marker, and collect
/// every device line while inside.
pub open spec fn spec_scan(
    lines: Seq<Seq<u8>>,
    i: int,
    in_audio: bool,
    in_section: bool,
    section: Seq<u8>,
) -> Seq<(Seq<u8>, Seq<u8>, bool)>
    decreases lines.len() - i,
{
    if !(0 <= i < lines.len()) {
        Seq::empty()
    } else {
        let line = lines[i];
        if spec_starts_with_at(line, 0, audio_word()) {
            spec_scan(lines, i + 1, true, in_section, section)
        } else if in_audio && line.len() > 0 && line[0] != 32 {
            spec_scan(lines, i + 1, false, false, section)
        } else if !in_audio {
            spec_scan(lines, i + 1, in_audio, in_section, section)
        } else {
            let t = spec_skip_ws(line, 0);
            if spec_starts_with_at(line, t, section_header(branch_marker(), section))
                || spec_starts_with_at(line, t, section_header(last_branch_marker(), section)) {
                spec_scan(lines, i + 1, in_audio, true, section)
            } else if in_section && (spec_starts_with_at(line, t, branch_marker())
                || spec_starts_with_at(line, t, last_branch_marker())) {
                spec_scan(lines, i + 1, in_audio, false, section)
            } else if !in_section {
                spec_scan(lines, i + 1, in_audio, in_section, section)
            } else {
                match spec_device_line(line) {
                    Some(rec) => seq![rec] + spec_scan(lines, i + 1, in_audio, in_section, section),
                    None => spec_scan(lines, i + 1, in_audio, in_section, section),
                }
            }
        }
    }
}

/// The devices the listing holds in the given section.
pub open spec fn spec_wpctl_devices(output: Seq<u8>, section: Seq<u8>) -> Seq<
    (Seq<u8>, Seq<u8>, bool),
> {
    spec_scan(spec_lines_from(output, 0), 0, false, false, section)
}

/// The views of a sequence of byte vectors.
pub open spec fn views_of(v: Seq<Vec<u8>>) -> Seq<Seq<u8>> {
    v.map_values(|l: Vec<u8>| l@)
}

/// Does `p` occur in `s` at position `at`?
fn starts_with_at(s: &Vec<u8>, at: usize, p: &Vec<u8>) -> (r: bool)
    ensures
        r == spec_starts_with_at(s@, at as int, p@),
{
    if at > s.len() || p.len() > s.len() - at {
        return false;
    }
    let n: usize = p.len();
    let mut j: usize = 0;
    while j < n
        invariant
            j <= n,
            n == p@.len(),
            at + n <= s@.len(),
            s@.len() <= usize::MAX,
            forall|k: int| 0 <= k < j ==> s@[at + k] == p@[k],
        decreases n - j,
    {
        if s[at + j] != p[j] {
            proof {
                if spec_starts_with_at(s@, at as int, p@) {
                    assert(s@.subrange(at as int, at + p@.len())[j as int] == p@[j as int]);
                }
            }
            return false;
        }
        j += 1;
    }
    proof {
        assert(s@.subrange(at as int, at + p@.len()) =~= p@);
    }
    true
}

/// Copy `s[from..to)` into a fresh vector.
fn bytes_range(s: &Vec<u8>, from: usize, to: usize) -> (r: Vec<u8>)
    requires
        from <= to <= s@.len(),
    ensures
        r@ == s@.subrange(from as int, to as int),
{
    let mut r: Vec<u8> = Vec::new();
    let mut i: usize = from;
    while i < to
        invariant
            from <= i <= to <= s@.len(),
            r@ == s@.subrange(from as int, i as int),
        decreases to - i,
    {
        r.push(s[i]);
        proof {
            assert(r@ =~= s@.subrange(from as int, i + 1));
        }
        i += 1;
    }
    r
}

/// Skip spaces and tabs from `i`.
fn skip_ws(s: &Vec<u8>, i: usize) -> (r: usize)
    requires
        i <= s@.len(),
    ensures
        r == spec_skip_ws(s@, i as int),
        i <= r <= s@.len(),
    decreases s@.len() - i,
{
    if i < s.len() && (s[i] == 32 || s[i] == 9) {
        skip_ws(s, i + 1)
    } else {
        i
    }
}

/// First digit position from `i`, or the end.
fn find_digit(s: &Vec<u8>, i: usize) -> (r: usize)
    requires
        i <= s@.len(),
    ensures
        r == spec_find_digit(s@, i as int),
        i <= r <= s@.len(),
    decreases s@.len() - i,
{
    if i >= s.len() {
        s.len()
    } else if 48 <= s[i] && s[i] <= 57 {
        i
    } else {
        find_digit(s, i + 1)
    }
}

/// First non-digit position from `i`, or the end.
fn digit_end(s: &Vec<u8>, i: usize) -> (r: usize)
    requires
        i <= s@.len(),
    ensures
        r == spec_digit_end(s@, i as int),
        i <= r <= s@.len(),
    decreases s@.len() - i,
{
    if i >= s.len() {
        s.len()
    } else if 48 <= s[i] && s[i] <= 57 {
        digit_end(s, i + 1)
    } else {
        i
    }
}

/// First position of the `[vol:` tag from `i`, or the end.
fn find_vol(s: &Vec<u8>, i: usize, tag: &Vec<u8>) -> (r: usize)
    requires
        i <= s@.len(),
        tag@ == vol_tag(),
    ensures
        r == spec_find_vol(s@, i as int),
        i <= r <= s@.len(),
    decreases s@.len() - i,
{
    if i >= s.len() {
        s.len()
    } else if starts_with_at(s, i, tag) {
        i
    } else {
        find_vol(s, i + 1, tag)
    }
}

/// Is there a `*` before `end`?
fn has_star(s: &Vec<u8>, end: usize) -> (r: bool)
    requires
        end <= s@.len(),
    ensures
        r == spec_has_star(s@, end as int),
    decreases end,
{
    if end == 0 {
        false
    } else if s[end - 1] == 42 {
        true
    } else {
        has_star(s, end - 1)
    }
}

/// The end of `s[from..to)` without its trailing spaces.
fn rtrim(s: &Vec<u8>, from: usize, to: usize) -> (r: usize)
    requires
        from <= to <= s@.len(),
    ensures
        r == spec_rtrim(s@, from as int, to as int),
        from <= r <= to,
    decreases to - from,
{
    if to <= from {
        from
    } else if s[to - 1] == 32 {
        rtrim(s, from, to - 1)
    } else {
        to
    }
}

/// First newline from `i`, or the end.
fn find_nl(s: &Vec<u8>, i: usize) -> (r: usize)
    requires
        i <= s@.len(),
    ensures
        r == spec_find_nl(s@, i as int),
        i <= r <= s@.len(),
    decreases s@.len() - i,
{
    if i >= s.len() {
        s.len()
    } else if s[i] == 10 {
        i
    } else {
        find_nl(s, i + 1)
    }
}

/// Build the `[vol:` tag.
fn vol_vec() -> (r: Vec<u8>)
    ensures
        r@ == vol_tag(),
{
    let mut v: Vec<u8> = Vec::new();
    v.push(91);
    v.push(118);
    v.push(111);
    v.push(108);
    v.push(58);
    proof {
        assert(v@ =~= vol_tag());
    }
    v
}

/// Build the word that opens the audio block.
fn audio_vec() -> (r: Vec<u8>)
    ensures
        r@ == audio_word(),
{
    let mut v: Vec<u8> = Vec::new();
    v.push(65);
    v.push(117);
    v.push(100);
    v.push(105);
    v.push(111);
    proof {
        assert(v@ =~= audio_word());
    }
    v
}

/// Build a branch marker: `last` picks the closing variant.
fn branch_vec(last: bool) -> (r: Vec<u8>)
    ensures
        r@ == if last {
            last_branch_marker()
        } else {
            branch_marker()
        },
{
    let mut v: Vec<u8> = Vec::new();
    v.push(226);
    v.push(148);
    if last {
        v.push(148);
    } else {
        v.push(156);
    }
    v.push(226);
    v.push(148);
    v.push(128);
    v.push(32);
    proof {
        if last {
            assert(v@ =~= last_branch_marker());
        } else {
            assert(v@ =~= branch_marker());
        }
    }
    v
}

/// Build a section header: marker, section name, colon.
fn header_vec(marker: &Vec<u8>, section: &Vec<u8>) -> (r: Vec<u8>)
    ensures
        r@ == section_header(marker@, section@),
{
    let mut v: Vec<u8> = Vec::new();
    let mut i: usize = 0;
    let m: usize = marker.len();
    while i < m
        invariant
            i <= m,
            m == marker@.len(),
            v@ == marker@.subrange(0, i as int),
        decreases m - i,
    {
        v.push(marker[i]);
        proof {
            assert(v@ =~= marker@.subrange(0, i + 1));
        }
        i += 1;
    }
    proof {
        assert(v@ =~= marker@);
    }
    let ghost with_marker = v@;
    let mut j: usize = 0;
    let n: usize = section.len();
    while j < n
        invariant
            j <= n,
            n == section@.len(),
            v@ == with_marker + section@.subrange(0, j as int),
        decreases n - j,
    {
        v.push(section[j]);
        proof {
            assert(v@ =~= with_marker + section@.subrange(0, j + 1));
        }
        j += 1;
    }
    v.push(58);
    proof {
        assert(v@ =~= section_header(marker@, section@));
    }
    v
}

/// Parse one line as a device record, if it has the device shape.
fn parse_device_line(line: &Vec<u8>, tag: &Vec<u8>) -> (r: Option<AudioDevice>)
    requires
        tag@ == vol_tag(),
    ensures
        match spec_device_line(line@) {
            Some(t) => (r matches Some(d) && device_rec(d) == t),
            None => r.is_none(),
        },
{
    let d0 = find_digit(line, 0);
    if d0 >= line.len() {
        return None;
    }
    let star = has_star(line, d0);
    let d1 = digit_end(line, d0);
    if d1 >= line.len() || line[d1] != 46 {
        return None;
    }
    let ns = skip_ws(line, d1 + 1);
    if ns == d1 + 1 || ns >= line.len() {
        return None;
    }
    let v = find_vol(line, ns, tag);
    if v >= line.len() || v == ns || line[v - 1] != 32 {
        return None;
    }
    let ne = rtrim(line, ns, v);
    if ne <= ns {
        return None;
    }
    let id = bytes_range(line, d0, d1);
    let name = bytes_range(line, ns, ne);
    Some(AudioDevice { id, name, is_default: star })
}

/// Split the raw listing into lines, stripping carriage returns.
fn split_lines(output: &Vec<u8>) -> (r: Vec<Vec<u8>>)
    ensures
        views_of(r@) == spec_lines_from(output@, 0),
{
    let mut r: Vec<Vec<u8>> = Vec::new();
    let mut i: usize = 0;
    let n: usize = output.len();
    while i < n
        invariant
            i <= n,
            n == output@.len(),
            spec_lines_from(output@, 0) =~= views_of(r@) + spec_lines_from(output@, i as int),
        decreases n - i,
    {
        let e = find_nl(output, i);
        let mut line = bytes_range(output, i, e);
        if line.len() > 0 && line[line.len() - 1] == 13 {
            let _ = line.pop();
        }
        proof {
            assert(line@ == strip_cr(output@.subrange(i as int, e as int)));
        }
        r.push(line);
        let ghost prev = i as int;
        if e < n {
            i = e + 1;
        } else {
            i = n;
        }
        proof {
            assert(views_of(r@) =~= views_of(r@.drop_last()).push(r@.last()@));
            assert(spec_lines_from(output@, 0) =~= views_of(r@) + spec_lines_from(
                output@,
                i as int,
            ));
        }
    }
    proof {
        assert(spec_lines_from(output@, 0) =~= views_of(r@));
    }
    r
}

/// Parse the mixer listing and return the devices of the named section
/// (`Sources` or `Sinks`), in listing order, with the default mark.
pub fn parse_wpctl_section(output: &Vec<u8>, section: &Vec<u8>) -> (r: Vec<AudioDevice>)
    ensures
        r@.map_values(|d: AudioDevice| device_rec(d)) == spec_wpctl_devices(output@, section@),
{
    let lines = split_lines(output);
    let tag = vol_vec();
    let audio = audio_vec();
    let b1 = branch_vec(false);
    let b2 = branch_vec(true);
    let m1 = header_vec(&b1, section);
    let m2 = header_vec(&b2, section);
    let ghost lseq = views_of(lines@);
    let mut r: Vec<AudioDevice> = Vec::new();
    let mut in_audio: bool = false;
    let mut in_section: bool = false;
    let mut i: usize = 0;
    let n: usize = lines.len();
    while i < n
        invariant
            i <= n,
            n == lines@.len(),
            lseq == views_of(lines@),
            tag@ == vol_tag(),
            audio@ == audio_word(),
            b1@ == branch_marker(),
            b2@ == last_branch_marker(),
            m1@ == section_header(branch_marker(), section@),
            m2@ == section_header(last_branch_marker(), section@),
            spec_scan(lseq, 0, false, false, section@) =~= r@.map_values(
                |d: AudioDevice| device_rec(d),
            ) + spec_scan(lseq, i as int, in_audio, in_section, section@),
        decreases n - i,
    {
        let line = &lines[i];
        proof {
            assert(lseq[i as int] == line@);
        }
        let ghost gi = i as int;
        let ghost gia = in_audio;
        let ghost gis = in_section;
        if starts_with_at(line, 0, &audio) {
            in_audio = true;
        } else if in_audio && line.len() > 0 && line[0] != 32 {
            in_audio = false;
            in_section = false;
        } else if !in_audio {
        } else {
            let t = skip_ws(line, 0);
            if starts_with_at(line, t, &m1) || starts_with_at(line, t, &m2) {
                in_section = true;
            } else if in_section && (starts_with_at(line, t, &b1) || starts_with_at(
                line,
                t,
                &b2,
            )) {
                in_section = false;
            } else if !in_section {
            } else {
                match parse_device_line(line, &tag) {
                    Some(d) => {
                        let ghost drec = device_rec(d);
                        r.push(d);
                        proof {
                            assert(r@.map_values(|d2: AudioDevice| device_rec(d2)) =~= r@.drop_last(
                            ).map_values(|d2: AudioDevice| device_rec(d2)).push(drec));
                        }
                    },
                    None => {},
                }
            }
        }
        i += 1;
        proof {
            assert(spec_scan(lseq, gi, gia, gis, section@) == (if spec_starts_with_at(
                lseq[gi],
                0,
                audio_word(),
            ) {
                spec_scan(lseq, gi + 1, true, gis, section@)
            } else if gia && lseq[gi].len() > 0 && lseq[gi][0] != 32 {
                spec_scan(lseq, gi + 1, false, false, section@)
            } else if !gia {
                spec_scan(lseq, gi + 1, gia, gis, section@)
            } else {
                let tt = spec_skip_ws(lseq[gi], 0);
                if spec_starts_with_at(lseq[gi], tt, section_header(branch_marker(), section@))
                    || spec_starts_with_at(
                    lseq[gi],
                    tt,
                    section_header(last_branch_marker(), section@),
                ) {
                    spec_scan(lseq, gi + 1, gia, true, section@)
                } else if gis && (spec_starts_with_at(lseq[gi], tt, branch_marker())
                    || spec_starts_with_at(lseq[gi], tt, last_branch_marker())) {
                    spec_scan(lseq, gi + 1, gia, false, section@)
                } else if !gis {
                    spec_scan(lseq, gi + 1, gia, gis, section@)
                } else {
                    match spec_device_line(lseq[gi]) {
                        Some(rec) => seq![rec] + spec_scan(lseq, gi + 1, gia, gis, section@),
                        None => spec_scan(lseq, gi + 1, gia, gis, section@),
                    }
                }
            }));
        }
    }
    proof {
        assert(r@.map_values(|d: AudioDevice| device_rec(d)) =~= spec_scan(
            lseq,
            0,
            false,
            false,
            section@,
        ));
    }
    r
}

} // verus!
