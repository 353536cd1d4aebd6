//! Rendering numbers, output file names and relocation reports as text.

use crate::extract::{FileReloc, Mode};
use vstd::prelude::*;
use vstd::string::{StrSliceExecFns, StringExecFns};

verus! {

/// Relies on `String::push`: appends the given character to the end of the
/// string.
pub assume_specification[ String::push ](s: &mut String, ch: char)
    ensures
        final(s)@ == old(s)@.push(ch),
;

/// The character for digit `d`, upper case.
pub open spec fn spec_digit(d: int) -> char {
    if d == 0 {
        '0'
    } else if d == 1 {
        '1'
    } else if d == 2 {
        '2'
    } else if d == 3 {
        '3'
    } else if d == 4 {
        '4'
    } else if d == 5 {
        '5'
    } else if d == 6 {
        '6'
    } else if d == 7 {
        '7'
    } else if d == 8 {
        '8'
    } else if d == 9 {
        '9'
    } else if d == 10 {
        'A'
    } else if d == 11 {
        'B'
    } else if d == 12 {
        'C'
    } else if d == 13 {
        'D'
    } else if d == 14 {
        'E'
    } else if d == 15 {
        'F'
    } else {
        '?'
    }
}

fn digit(d: u64) -> (c: char)
    requires
        d < 16,
    ensures
        c == spec_digit(d as int),
{
    match d {
        0 => '0',
        1 => '1',
        2 => '2',
        3 => '3',
        4 => '4',
        5 => '5',
        6 => '6',
        7 => '7',
        8 => '8',
        9 => '9',
        10 => 'A',
        11 => 'B',
        12 => 'C',
        13 => 'D',
        14 => 'E',
        15 => 'F',
        _ => vstd::pervasive::unreached(),
    }
}

/// `v` written in base `b` with upper-case digits, zero-padded on the left
/// to at least `width` digits; more digits are used when `v` needs them.
pub open spec fn spec_padded(v: int, b: int, width: int) -> Seq<char>
    recommends
        0 <= v,
        2 <= b <= 16,
    decreases v, width,
    via spec_padded_decreases
{
    if 0 <= v < b && width <= 1 {
        seq![spec_digit(v)]
    } else if v < 0 || b < 2 {
        seq![spec_digit(v)]
    } else {
        spec_padded(
            v / b,
            b,
            if width <= 1 {
                0
            } else {
                width - 1
            },
        ) + seq![spec_digit(v % b)]
    }
}

#[via_fn]
proof fn spec_padded_decreases(v: int, b: int, width: int) {
    if !(0 <= v < b && width <= 1) && !(v < 0 || b < 2) {
        if v >= b {
            assert(0 <= v / b < v) by (nonlinear_arith)
                requires
                    v >= b >= 2,
            ;
        } else {
            assert(v / b == 0) by (nonlinear_arith)
                requires
                    0 <= v < b,
            ;
        }
    }
}

/// Append `v` in base `b`, zero-padded to at least `width` digits.
fn push_padded(s: &mut String, v: u64, b: u64, width: usize)
    requires
        2 <= b <= 16,
    ensures
        final(s)@ == old(s)@ + spec_padded(v as int, b as int, width as int),
    decreases v, width,
{
    if v < b && width <= 1 {
        let d = digit(v);
        s.push(d);
        proof {
            assert(old(s)@.push(spec_digit(v as int)) =~= old(s)@ + seq![spec_digit(v as int)]);
        }
    } else {
        let w2: usize = if width <= 1 {
            0
        } else {
            width - 1
        };
        proof {
            if v >= b {
                assert(0 <= (v as int) / (b as int) < v as int) by (nonlinear_arith)
                    requires
                        (v as int) >= (b as int) >= 2,
                ;
            } else {
                assert((v as int) / (b as int) == 0) by (nonlinear_arith)
                    requires
                        0 <= (v as int) && (v as int) < (b as int),
                ;
            }
        }
        push_padded(s, v / b, b, w2);
        let d = digit(v % b);
        s.push(d);
        proof {
            let head = spec_padded((v as int) / (b as int), b as int, w2 as int);
            assert((old(s)@ + head).push(spec_digit(v as int % b as int)) =~= old(s)@ + (head
                + seq![spec_digit(v as int % b as int)]));
        }
    }
}

/// One audit-log line: `* OFFSET -> POINTER`, the offset at least six and the
/// pointer at least eight upper-case hex digits, followed for an external
/// entry by ` from ID` with the file id in decimal.
pub open spec fn spec_reloc_line(e: (u16, usize, u32), with_fid: bool) -> Seq<char> {
    "* "@ + spec_padded(e.1 as int, 16, 6) + " -> "@ + spec_padded(e.2 as int, 16, 8) + (if with_fid {
        " from "@ + spec_padded(e.0 as int, 10, 1)
    } else {
        Seq::empty()
    }) + "\n"@
}

/// The audit-log lines of one chain, in log order.
pub open spec fn spec_reloc_lines(log: Seq<(u16, usize, u32)>, with_fid: bool) -> Seq<char>
    decreases log.len(),
{
    if log.len() == 0 {
        Seq::empty()
    } else {
        spec_reloc_lines(log.drop_last(), with_fid) + spec_reloc_line(log.last(), with_fid)
    }
}

/// The whole relocation report: a heading, the internal section when an
/// internal chain was walked, a blank line, and the external section when an
/// external chain was walked.
pub open spec fn spec_report(
    internal: Option<Seq<(u16, usize, u32)>>,
    external: Option<Seq<(u16, usize, u32)>>,
) -> Seq<char> {
    "# Relocations\n"@ + (match internal {
        Some(log) => "## Internal Relocations\n"@ + spec_reloc_lines(log, false),
        None => Seq::empty(),
    }) + "\n"@ + (match external {
        Some(log) => "## External Relocations\n"@ + spec_reloc_lines(log, true),
        None => Seq::empty(),
    })
}

/// Append the lines of one audit log.
fn push_reloc_lines(s: &mut String, log: &Vec<(u16, usize, u32)>, with_fid: bool)
    ensures
        final(s)@ == old(s)@ + spec_reloc_lines(log@, with_fid),
{
    let ghost base = s@;
    let mut i: usize = 0;
    while i < log.len()
        invariant
            base == old(s)@,
            i <= log@.len(),
            s@ == base + spec_reloc_lines(log@.take(i as int), with_fid),
        decreases log@.len() - i,
    {
        let ghost before = s@;
        let (fid, offset, ptr) = log[i];
        s.append("* ");
        push_padded(s, offset as u64, 16, 6);
        s.append(" -> ");
        push_padded(s, ptr as u64, 16, 8);
        if with_fid {
            s.append(" from ");
            push_padded(s, fid as u64, 10, 1);
        }
        s.append("\n");
        proof {
            assert(log@.take(i as int + 1).drop_last() =~= log@.take(i as int));
            assert(log@.take(i as int + 1).last() == log@[i as int]);
            assert(s@ =~= before + spec_reloc_line(log@[i as int], with_fid));
            assert(s@ =~= base + spec_reloc_lines(log@.take(i as int + 1), with_fid));
        }
        i = i + 1;
    }
    proof {
        assert(log@.take(log@.len() as int) =~= log@);
    }
}

impl FileReloc {
    /// Render the audit logs as a plain-text report; see [`spec_report`].
    pub fn report(&self) -> (r: String)
        ensures
            r@ == spec_report(
                match self.internal {
                    Some(l) => Some(l@),
                    None => None,
                },
                match self.external {
                    Some(l) => Some(l@),
                    None => None,
                },
            ),
    {
        let mut s = String::new();
        s.append("# Relocations\n");
        match &self.internal {
            Some(log) => {
                s.append("## Internal Relocations\n");
                push_reloc_lines(&mut s, log, false);
            },
            None => (),
        }
        s.append("\n");
        match &self.external {
            Some(log) => {
                s.append("## External Relocations\n");
                push_reloc_lines(&mut s, log, true);
            },
            None => (),
        }
        s
    }
}

/// The default output file name for exporting file `id` in the given mode:
/// `raw-IIII.vpk` or `raw-IIII.bin` for the raw bytes, depending on whether
/// they are compressed, and `file-IIII.bin` otherwise, the id zero-padded to
/// at least four decimal digits.
pub open spec fn spec_filename(id: int, mode: Mode, compressed: bool) -> Seq<char> {
    match mode {
        Mode::RawBytes => "raw-"@ + spec_padded(id, 10, 4) + (if compressed {
            ".vpk"@
        } else {
            ".bin"@
        }),
        _ => "file-"@ + spec_padded(id, 10, 4) + ".bin"@,
    }
}

/// The default output file name for exporting file `id` in the given mode;
/// see [`spec_filename`].
pub fn generate_filename(id: usize, mode: Mode, compressed: bool) -> (r: String)
    ensures
        r@ == spec_filename(id as int, mode, compressed),
{
    let mut s = String::new();
    match mode {
        Mode::RawBytes => {
            s.append("raw-");
            push_padded(&mut s, id as u64, 10, 4);
            if compressed {
                s.append(".vpk");
            } else {
                s.append(".bin");
            }
        },
        _ => {
            s.append("file-");
            push_padded(&mut s, id as u64, 10, 4);
            s.append(".bin");
        },
    }
    s
}

/// Index of the last '.' of `name` that is not its first character, or -1
/// when there is none; the dot that separates a file name's stem from its
/// extension.
pub open spec fn spec_last_dot(name: Seq<char>) -> int
    decreases name.len(),
{
    if name.len() <= 1 {
        -1
    } else if name[name.len() - 1] == '.' {
        name.len() - 1
    } else {
        spec_last_dot(name.drop_last())
    }
}

/// The stem of a file name: everything before the extension separator, or
/// the whole name when it has no extension.
pub open spec fn spec_stem(name: Seq<char>) -> Seq<char> {
    if spec_last_dot(name) >= 1 {
        name.take(spec_last_dot(name))
    } else {
        name
    }
}

/// The index found by a right-to-left scan is the spec's last dot.
proof fn lemma_last_dot_at(name: Seq<char>, d: int)
    requires
        1 <= d < name.len(),
        name[d] == '.',
        forall|k: int| d < k < name.len() ==> name[k] != '.',
    ensures
        spec_last_dot(name) == d,
    decreases name.len(),
{
    if d < name.len() - 1 {
        lemma_last_dot_at(name.drop_last(), d);
    }
}

/// A name without a separating dot has no last dot.
proof fn lemma_no_dot(name: Seq<char>)
    requires
        forall|k: int| 1 <= k < name.len() ==> name[k] != '.',
    ensures
        spec_last_dot(name) == -1,
    decreases name.len(),
{
    if name.len() > 1 {
        lemma_no_dot(name.drop_last());
    }
}

/// The file name of the relocation report that accompanies a data file:
/// the data file's stem followed by `-relocs.txt`.
pub fn generate_reloc_filename(datafile: &str) -> (r: String)
    ensures
        r@ == spec_stem(datafile@) + "-relocs.txt"@,
{
    let n = datafile.unicode_len();
    let mut dot: usize = 0;
    let mut found = false;
    let mut j: usize = 1;
    while j < n
        invariant
            n == datafile@.len(),
            1 <= j,
            found ==> 1 <= dot < j && dot < n && datafile@[dot as int] == '.' && (forall|k: int|
                dot < k < j && k < n ==> datafile@[k] != '.'),
            !found ==> (forall|k: int| 1 <= k < j && k < n ==> datafile@[k] != '.') && dot == 0,
        decreases n - j,
    {
        if datafile.get_char(j) == '.' {
            dot = j;
            found = true;
        }
        j = j + 1;
    }
    let stem = if found {
        proof {
            lemma_last_dot_at(datafile@, dot as int);
        }
        datafile.substring_char(0, dot)
    } else {
        proof {
            if n > 1 {
                lemma_no_dot(datafile@);
            } else {
                assert(datafile@.len() <= 1);
            }
        }
        datafile.substring_char(0, n)
    };
    let mut s = stem.to_owned();
    s.append("-relocs.txt");
    proof {
        assert(datafile@.take(datafile@.len() as int) =~= datafile@);
        if found {
            assert(datafile@.subrange(0, dot as int) =~= datafile@.take(dot as int));
        }
    }
    s
}

} // verus!
