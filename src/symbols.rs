use vstd::prelude::*;

use crate::error::ExportError;

verus! {

/// The five entry points that a flash algorithm exports.
#[derive(Debug, Clone, Copy, PartialEq, Eq, Structural)]
pub enum EntryPoint {
    Init,
    UnInit,
    ProgramPage,
    EraseSector,
    EraseChip,
}

/// The resolved entry addresses, with the Thumb bit already added.
#[derive(Debug, Clone, Copy, PartialEq, Eq, Structural)]
pub struct Addresses {
    pub init: u64,
    pub uninit: u64,
    pub program_page: u64,
    pub erase_sector: u64,
    pub erase_chip: u64,
}

impl Addresses {
    /// All five addresses zero: the value before any symbol has been seen.
    pub open spec fn zero_spec() -> Addresses {
        Addresses { init: 0, uninit: 0, program_page: 0, erase_sector: 0, erase_chip: 0 }
    }

    pub fn zero() -> (r: Addresses)
        ensures
            r == Addresses::zero_spec(),
    {
        Addresses { init: 0, uninit: 0, program_page: 0, erase_sector: 0, erase_chip: 0 }
    }

    /// The address recorded for entry point `e`.
    pub open spec fn get(self, e: EntryPoint) -> u64 {
        match e {
            EntryPoint::Init => self.init,
            EntryPoint::UnInit => self.uninit,
            EntryPoint::ProgramPage => self.program_page,
            EntryPoint::EraseSector => self.erase_sector,
            EntryPoint::EraseChip => self.erase_chip,
        }
    }

    /// These addresses with the one of `e` replaced by `v`.
    pub open spec fn with(self, e: EntryPoint, v: u64) -> Addresses {
        match e {
            EntryPoint::Init => Addresses { init: v, ..self },
            EntryPoint::UnInit => Addresses { uninit: v, ..self },
            EntryPoint::ProgramPage => Addresses { program_page: v, ..self },
            EntryPoint::EraseSector => Addresses { erase_sector: v, ..self },
            EntryPoint::EraseChip => Addresses { erase_chip: v, ..self },
        }
    }

    fn set(&mut self, e: EntryPoint, v: u64)
        ensures
            *final(self) == old(self).with(e, v),
    {
        match e {
            EntryPoint::Init => self.init = v,
            EntryPoint::UnInit => self.uninit = v,
            EntryPoint::ProgramPage => self.program_page = v,
            EntryPoint::EraseSector => self.erase_sector = v,
            EntryPoint::EraseChip => self.erase_chip = v,
        }
    }
}

// ---------------------------------------------------------------------------
// Hexadecimal numbers
// ---------------------------------------------------------------------------

pub open spec fn is_hex_digit(b: u8) -> bool {
    (48 <= b && b <= 57) || (97 <= b && b <= 102) || (65 <= b && b <= 70)
}

pub open spec fn hex_digit_value(b: u8) -> nat {
    if b <= 57 {
        (b - 48) as nat
    } else if b <= 70 {
        (b - 65 + 10) as nat
    } else {
        (b - 97 + 10) as nat
    }
}

/// The number that a string of hexadecimal digits denotes, most significant first.
pub open spec fn hex_value(s: Seq<u8>) -> nat
    decreases s.len(),
{
    if s.len() == 0 {
        0
    } else {
        hex_value(s.drop_last()) * 16 + hex_digit_value(s.last())
    }
}

/// `s` is a non-empty string of hexadecimal digits whose value fits in a `u64`.
pub open spec fn hex_u64(s: Seq<u8>) -> Option<u64> {
    if s.len() > 0 && (forall|i: int| 0 <= i < s.len() ==> is_hex_digit(#[trigger] s[i]))
        && hex_value(s) <= u64::MAX {
        Some(hex_value(s) as u64)
    } else {
        None
    }
}

proof fn lemma_hex_value_prefix(s: Seq<u8>, k: int)
    requires
        0 <= k <= s.len(),
    ensures
        hex_value(s.subrange(0, k)) <= hex_value(s),
    decreases s.len(),
{
    if k < s.len() {
        lemma_hex_value_prefix(s.drop_last(), k);
        assert(s.drop_last().subrange(0, k) =~= s.subrange(0, k));
    } else {
        assert(s.subrange(0, k) =~= s);
    }
}

fn hex_digit(b: u8) -> (r: Option<u64>)
    ensures
        r == (if is_hex_digit(b) { Some(hex_digit_value(b) as u64) } else { None::<u64> }),
{
    if 48 <= b && b <= 57 {
        Some((b - 48) as u64)
    } else if 97 <= b && b <= 102 {
        Some((b - 97 + 10) as u64)
    } else if 65 <= b && b <= 70 {
        Some((b - 65 + 10) as u64)
    } else {
        None
    }
}

/// Reads `text[start..end]` as a hexadecimal `u64`.
pub fn parse_hex(text: &[u8], start: usize, end: usize) -> (r: Option<u64>)
    requires
        start <= end <= text@.len(),
    ensures
        r == hex_u64(text@.subrange(start as int, end as int)),
{
    let ghost s = text@.subrange(start as int, end as int);
    if start == end {
        return None;
    }
    let mut v: u64 = 0;
    let mut i: usize = start;
    while i < end
        invariant
            start <= i <= end <= text@.len(),
            s == text@.subrange(start as int, end as int),
            v as nat == hex_value(text@.subrange(start as int, i as int)),
            forall|j: int| start <= j < i ==> is_hex_digit(#[trigger] text@[j]),
        decreases end - i,
    {
        let ghost before = text@.subrange(start as int, i as int);
        let ghost after = text@.subrange(start as int, i + 1);
        assert(after.drop_last() =~= before);
        match hex_digit(text[i]) {
            None => {
                assert(!is_hex_digit(s[i - start]));
                return None;
            },
            Some(d) => {
                if v > 0x0fff_ffff_ffff_ffff {
                    proof {
                        lemma_hex_value_prefix(s, i + 1 - start);
                        assert(s.subrange(0, i + 1 - start) =~= after);
                    }
                    return None;
                }
                v = v * 16 + d;
            },
        }
        i = i + 1;
    }
    assert(text@.subrange(start as int, i as int) =~= s);
    assert forall|j: int| 0 <= j < s.len() implies is_hex_digit(#[trigger] s[j]) by {
        assert(s[j] == text@[start + j]);
    }
    Some(v)
}

// ---------------------------------------------------------------------------
// Lines of a listing
// ---------------------------------------------------------------------------

/// The index of the first newline at or after `i`, or the length when there is none.
pub open spec fn line_end(s: Seq<u8>, i: int) -> int
    decreases s.len() - i,
{
    if i >= s.len() {
        s.len() as int
    } else if s[i] == 10 {
        i
    } else {
        line_end(s, i + 1)
    }
}

pub(crate) proof fn lemma_line_end_bounds(s: Seq<u8>, i: int)
    requires
        0 <= i,
    ensures
        i <= s.len() ==> i <= line_end(s, i) <= s.len(),
        i < s.len() ==> line_end(s, i) < s.len() ==> s[line_end(s, i)] == 10,
        forall|j: int| i <= j < line_end(s, i) ==> s[j] != 10,
    decreases s.len() - i,
{
    if i < s.len() && s[i] != 10 {
        lemma_line_end_bounds(s, i + 1);
    }
}

/// The text of the line that starts at `pos`: up to the next newline, without
/// the carriage return of a `\r\n` ending.
pub open spec fn line_at(s: Seq<u8>, pos: int) -> Seq<u8> {
    let e = line_end(s, pos);
    if e < s.len() && e > pos && s[e - 1] == 13 {
        s.subrange(pos, e - 1)
    } else {
        s.subrange(pos, e)
    }
}

/// The lines of `s` from `pos` on; a final newline ends the last line and
/// starts no new one.
pub open spec fn lines_from(s: Seq<u8>, pos: int) -> Seq<Seq<u8>>
    decreases s.len() + 1 - pos,
    via lines_from_decreases
{
    if pos < 0 || pos >= s.len() {
        Seq::empty()
    } else {
        seq![line_at(s, pos)] + lines_from(s, line_end(s, pos) + 1)
    }
}

#[via_fn]
proof fn lines_from_decreases(s: Seq<u8>, pos: int) {
    if 0 <= pos < s.len() {
        lemma_line_end_bounds(s, pos);
    }
}

/// The lines of a listing, as `str::lines` splits them.
pub open spec fn listing_lines(s: Seq<u8>) -> Seq<Seq<u8>> {
    lines_from(s, 0)
}

// ---------------------------------------------------------------------------
// Symbol lines
// ---------------------------------------------------------------------------

/// The separator `" T "` of a text-section symbol starts at `i`.
pub open spec fn separator_at(line: Seq<u8>, i: int) -> bool {
    0 <= i && i + 3 <= line.len() && line[i] == 32 && line[i + 1] == 84 && line[i + 2] == 32
}

/// The first separator at or after `i`, or the length of the line when there is none.
pub open spec fn next_separator(line: Seq<u8>, i: int) -> int
    decreases line.len() - i,
{
    if i < 0 || i + 3 > line.len() {
        line.len() as int
    } else if separator_at(line, i) {
        i
    } else {
        next_separator(line, i + 1)
    }
}

proof fn lemma_next_separator(line: Seq<u8>, i: int)
    requires
        0 <= i,
    ensures
        i <= line.len() ==> i <= next_separator(line, i) <= line.len(),
        next_separator(line, i) < line.len() ==> separator_at(line, next_separator(line, i)),
    decreases line.len() - i,
{
    if i + 3 <= line.len() && !separator_at(line, i) {
        lemma_next_separator(line, i + 1);
    }
}

/// Address text and symbol name of a line that the separator cuts into exactly
/// two pieces (searched left to right, matches not overlapping).
pub open spec fn symbol_entry(line: Seq<u8>) -> Option<(Seq<u8>, Seq<u8>)> {
    let k = next_separator(line, 0);
    if k < line.len() && next_separator(line, k + 3) == line.len() {
        Some((line.subrange(0, k), line.subrange(k + 3, line.len() as int)))
    } else {
        None
    }
}

pub open spec fn entry_point_named(name: Seq<u8>) -> Option<EntryPoint> {
    if name == seq![73u8, 110, 105, 116] {
        Some(EntryPoint::Init)
    } else if name == seq![85u8, 110, 73, 110, 105, 116] {
        Some(EntryPoint::UnInit)
    } else if name == seq![80u8, 114, 111, 103, 114, 97, 109, 80, 97, 103, 101] {
        Some(EntryPoint::ProgramPage)
    } else if name == seq![69u8, 114, 97, 115, 101, 83, 101, 99, 116, 111, 114] {
        Some(EntryPoint::EraseSector)
    } else if name == seq![69u8, 114, 97, 115, 101, 67, 104, 105, 112] {
        Some(EntryPoint::EraseChip)
    } else {
        None
    }
}

/// The entry point that a symbol line names, with its address text.
pub open spec fn line_entry(line: Seq<u8>) -> Option<(EntryPoint, Seq<u8>)> {
    match symbol_entry(line) {
        Some((addr, name)) => match entry_point_named(name) {
            Some(e) => Some((e, addr)),
            None => None,
        },
        None => None,
    }
}

/// The line names entry point `e`.
pub open spec fn names_entry(line: Seq<u8>, e: EntryPoint) -> bool {
    match line_entry(line) {
        Some((f, _)) => f == e,
        None => false,
    }
}

/// The addresses after one line of the listing has been read.
pub open spec fn apply_line(a: Addresses, line: Seq<u8>) -> Result<Addresses, ExportError> {
    match line_entry(line) {
        None => Ok(a),
        Some((e, addr)) => match hex_u64(addr) {
            Some(v) => if v < u64::MAX {
                Ok(a.with(e, (v + 1) as u64))
            } else {
                Err(ExportError::SymbolParse)
            },
            None => Err(ExportError::SymbolParse),
        },
    }
}

/// The addresses after the lines have been read in order, starting from `a`;
/// the first failing line ends the reading.
pub open spec fn resolve_lines(a: Addresses, lines: Seq<Seq<u8>>) -> Result<Addresses, ExportError>
    decreases lines.len(),
{
    if lines.len() == 0 {
        Ok(a)
    } else {
        match apply_line(a, lines[0]) {
            Ok(b) => resolve_lines(b, lines.drop_first()),
            Err(err) => Err(err),
        }
    }
}

/// What a symbol listing resolves to.
pub open spec fn resolve_listing(listing: Seq<u8>) -> Result<Addresses, ExportError> {
    resolve_lines(Addresses::zero_spec(), listing_lines(listing))
}

pub(crate) fn find_line_end(s: &[u8], i: usize) -> (r: usize)
    requires
        i <= s@.len(),
    ensures
        r == line_end(s@, i as int),
{
    let mut j: usize = i;
    while j < s.len()
        invariant
            i <= j <= s@.len(),
            line_end(s@, i as int) == line_end(s@, j as int),
        decreases s@.len() - j,
    {
        if s[j] == 10 {
            return j;
        }
        j = j + 1;
    }
    j
}

/// The first separator in `s[start..end]` at or after `i`, or `end`.
fn find_separator(s: &[u8], start: usize, end: usize, i: usize) -> (r: usize)
    requires
        start <= i <= end <= s@.len(),
    ensures
        r == start + next_separator(s@.subrange(start as int, end as int), i - start),
{
    let ghost line = s@.subrange(start as int, end as int);
    let mut j: usize = i;
    while j < end && end - j >= 3
        invariant
            start <= i <= j <= end <= s@.len(),
            line == s@.subrange(start as int, end as int),
            next_separator(line, i - start) == next_separator(line, j - start),
        decreases end - j,
    {
        if s[j] == 32 && s[j + 1] == 84 && s[j + 2] == 32 {
            assert(separator_at(line, j - start));
            return j;
        }
        assert(!separator_at(line, j - start));
        j = j + 1;
    }
    end
}

/// Which entry point `s[start..end]` names, if any.
fn entry_point_at(s: &[u8], start: usize, end: usize) -> (r: Option<EntryPoint>)
    requires
        start <= end <= s@.len(),
    ensures
        r == entry_point_named(s@.subrange(start as int, end as int)),
{
    let ghost name = s@.subrange(start as int, end as int);
    let n = end - start;
    proof {
        let w = seq![73u8, 110, 105, 116];
        assert(w.len() == 4 && w[0] == 73 && w[1] == 110 && w[2] == 105 && w[3] == 116);
        let w = seq![85u8, 110, 73, 110, 105, 116];
        assert(w.len() == 6 && w[0] == 85 && w[1] == 110 && w[2] == 73 && w[3] == 110
            && w[4] == 105 && w[5] == 116);
        let w = seq![80u8, 114, 111, 103, 114, 97, 109, 80, 97, 103, 101];
        assert(w.len() == 11 && w[0] == 80 && w[1] == 114 && w[2] == 111 && w[3] == 103
            && w[4] == 114 && w[5] == 97 && w[6] == 109 && w[7] == 80 && w[8] == 97 && w[9] == 103
            && w[10] == 101);
        let w = seq![69u8, 114, 97, 115, 101, 83, 101, 99, 116, 111, 114];
        assert(w.len() == 11 && w[0] == 69 && w[1] == 114 && w[2] == 97 && w[3] == 115
            && w[4] == 101 && w[5] == 83 && w[6] == 101 && w[7] == 99 && w[8] == 116 && w[9] == 111
            && w[10] == 114);
        let w = seq![69u8, 114, 97, 115, 101, 67, 104, 105, 112];
        assert(w.len() == 9 && w[0] == 69 && w[1] == 114 && w[2] == 97 && w[3] == 115
            && w[4] == 101 && w[5] == 67 && w[6] == 104 && w[7] == 105 && w[8] == 112);
    }
    if n == 4 && s[start] == 73 && s[start + 1] == 110 && s[start + 2] == 105 && s[start + 3] == 116 {
        assert(name =~= seq![73u8, 110, 105, 116]);
        Some(EntryPoint::Init)
    } else if n == 6 && s[start] == 85 && s[start + 1] == 110 && s[start + 2] == 73
        && s[start + 3] == 110 && s[start + 4] == 105 && s[start + 5] == 116 {
        assert(name =~= seq![85u8, 110, 73, 110, 105, 116]);
        Some(EntryPoint::UnInit)
    } else if n == 11 && s[start] == 80 && s[start + 1] == 114 && s[start + 2] == 111
        && s[start + 3] == 103 && s[start + 4] == 114 && s[start + 5] == 97 && s[start + 6] == 109
        && s[start + 7] == 80 && s[start + 8] == 97 && s[start + 9] == 103 && s[start + 10] == 101 {
        assert(name =~= seq![80u8, 114, 111, 103, 114, 97, 109, 80, 97, 103, 101]);
        Some(EntryPoint::ProgramPage)
    } else if n == 11 && s[start] == 69 && s[start + 1] == 114 && s[start + 2] == 97
        && s[start + 3] == 115 && s[start + 4] == 101 && s[start + 5] == 83 && s[start + 6] == 101
        && s[start + 7] == 99 && s[start + 8] == 116 && s[start + 9] == 111 && s[start + 10] == 114 {
        assert(name =~= seq![69u8, 114, 97, 115, 101, 83, 101, 99, 116, 111, 114]);
        Some(EntryPoint::EraseSector)
    } else if n == 9 && s[start] == 69 && s[start + 1] == 114 && s[start + 2] == 97
        && s[start + 3] == 115 && s[start + 4] == 101 && s[start + 5] == 67 && s[start + 6] == 104
        && s[start + 7] == 105 && s[start + 8] == 112 {
        assert(name =~= seq![69u8, 114, 97, 115, 101, 67, 104, 105, 112]);
        Some(EntryPoint::EraseChip)
    } else {
        None
    }
}

/// Reads the line `s[start..end]` into `acc`.
fn apply_symbol_line(s: &[u8], start: usize, end: usize, acc: Addresses) -> (r: Result<Addresses, ExportError>)
    requires
        start <= end <= s@.len(),
    ensures
        r == apply_line(acc, s@.subrange(start as int, end as int)),
{
    let ghost line = s@.subrange(start as int, end as int);
    let k = find_separator(s, start, end, start);
    proof {
        lemma_next_separator(line, 0);
    }
    if k == end {
        return Ok(acc);
    }
    let k2 = find_separator(s, start, end, k + 3);
    if k2 != end {
        return Ok(acc);
    }
    assert(line.subrange(0, k - start) =~= s@.subrange(start as int, k as int));
    assert(line.subrange(k + 3 - start, line.len() as int) =~= s@.subrange(k + 3, end as int));
    match entry_point_at(s, k + 3, end) {
        None => Ok(acc),
        Some(e) => match parse_hex(s, start, k) {
            None => Err(ExportError::SymbolParse),
            Some(v) => {
                if v == u64::MAX {
                    Err(ExportError::SymbolParse)
                } else {
                    let mut a = acc;
                    a.set(e, v + 1);
                    Ok(a)
                }
            },
        },
    }
}

/// Resolves the five entry addresses from a symbol listing (the output of `nm`).
///
/// Each line of the form `<hex address> T <name>` whose name is one of the entry
/// points sets that entry point to the address plus one (the Thumb bit); a later
/// line for the same name wins, and names that are absent stay zero. An entry
/// line whose address is not a hexadecimal `u64` below `u64::MAX` is an error.
pub fn resolve_addresses(listing: &[u8]) -> (r: Result<Addresses, ExportError>)
    ensures
        r == resolve_listing(listing@),
{
    let mut acc = Addresses::zero();
    let mut pos: usize = 0;
    while pos < listing.len()
        invariant
            pos <= listing@.len(),
            resolve_lines(acc, lines_from(listing@, pos as int)) == resolve_listing(listing@),
        decreases listing@.len() - pos,
    {
        let e = find_line_end(listing, pos);
        proof {
            lemma_line_end_bounds(listing@, pos as int);
        }
        let le = if e < listing.len() && e > pos && listing[e - 1] == 13 {
            e - 1
        } else {
            e
        };
        let ghost line = line_at(listing@, pos as int);
        let ghost rest = lines_from(listing@, e + 1);
        assert(lines_from(listing@, pos as int) == seq![line] + rest);
        assert((seq![line] + rest).drop_first() =~= rest);
        assert((seq![line] + rest)[0] == line);
        match apply_symbol_line(listing, pos, le, acc) {
            Err(err) => {
                return Err(err);
            },
            Ok(b) => {
                acc = b;
            },
        }
        if e < listing.len() {
            pos = e + 1;
        } else {
            pos = listing.len();
        }
    }
    Ok(acc)
}

proof fn lemma_entry_untouched(a: Addresses, lines: Seq<Seq<u8>>, e: EntryPoint)
    requires
        forall|j: int| 0 <= j < lines.len() ==> !names_entry(#[trigger] lines[j], e),
        resolve_lines(a, lines) is Ok,
    ensures
        resolve_lines(a, lines)->Ok_0.get(e) == a.get(e),
    decreases lines.len(),
{
    if lines.len() > 0 {
        assert(!names_entry(lines[0], e));
        let b = apply_line(a, lines[0])->Ok_0;
        assert(b.get(e) == a.get(e));
        assert forall|j: int| 0 <= j < lines.drop_first().len() implies !names_entry(
            #[trigger] lines.drop_first()[j],
            e,
        ) by {
            assert(lines.drop_first()[j] == lines[j + 1]);
        }
        lemma_entry_untouched(b, lines.drop_first(), e);
    }
}

proof fn lemma_last_entry_line(a: Addresses, lines: Seq<Seq<u8>>, i: int, e: EntryPoint, addr: Seq<u8>)
    requires
        0 <= i < lines.len(),
        line_entry(lines[i]) == Some((e, addr)),
        forall|j: int| i < j < lines.len() ==> !names_entry(#[trigger] lines[j], e),
        resolve_lines(a, lines) is Ok,
    ensures
        hex_u64(addr) is Some,
        resolve_lines(a, lines)->Ok_0.get(e) == hex_u64(addr)->0 + 1,
    decreases lines.len(),
{
    let b = apply_line(a, lines[0])->Ok_0;
    assert forall|j: int| i - 1 < j < lines.drop_first().len() implies !names_entry(
        #[trigger] lines.drop_first()[j],
        e,
    ) by {
        assert(lines.drop_first()[j] == lines[j + 1]);
    }
    if i == 0 {
        lemma_entry_untouched(b, lines.drop_first(), e);
    } else {
        assert(lines.drop_first()[i - 1] == lines[i]);
        lemma_last_entry_line(b, lines.drop_first(), i - 1, e, addr);
    }
}

/// A line `<addr> T <name>` for an entry point, with no later line for the same
/// entry point, fixes that entry point's address: a listing that resolves gives
/// it the value of `addr` plus one.
pub proof fn law_entry_line_sets_address(listing: Seq<u8>, i: int, e: EntryPoint, addr: Seq<u8>)
    requires
        0 <= i < listing_lines(listing).len(),
        line_entry(listing_lines(listing)[i]) == Some((e, addr)),
        forall|j: int|
            i < j < listing_lines(listing).len() ==> !names_entry(
                #[trigger] listing_lines(listing)[j],
                e,
            ),
        resolve_listing(listing) is Ok,
    ensures
        hex_u64(addr) is Some,
        resolve_listing(listing)->Ok_0.get(e) == hex_u64(addr)->0 + 1,
{
    lemma_last_entry_line(Addresses::zero_spec(), listing_lines(listing), i, e, addr);
}

/// An entry point that no line of the listing names resolves to zero.
pub proof fn law_absent_entry_is_zero(listing: Seq<u8>, e: EntryPoint)
    requires
        forall|j: int|
            0 <= j < listing_lines(listing).len() ==> !names_entry(
                #[trigger] listing_lines(listing)[j],
                e,
            ),
        resolve_listing(listing) is Ok,
    ensures
        resolve_listing(listing)->Ok_0.get(e) == 0,
{
    lemma_entry_untouched(Addresses::zero_spec(), listing_lines(listing), e);
}

proof fn lemma_no_entries(a: Addresses, lines: Seq<Seq<u8>>)
    requires
        forall|j: int| 0 <= j < lines.len() ==> line_entry(#[trigger] lines[j]) is None,
    ensures
        resolve_lines(a, lines) == Ok::<Addresses, ExportError>(a),
    decreases lines.len(),
{
    if lines.len() > 0 {
        assert(line_entry(lines[0]) is None);
        assert forall|j: int| 0 <= j < lines.drop_first().len() implies line_entry(
            #[trigger] lines.drop_first()[j],
        ) is None by {
            assert(lines.drop_first()[j] == lines[j + 1]);
        }
        lemma_no_entries(a, lines.drop_first());
    }
}

/// A listing in which no line names an entry point, the empty listing among them,
/// is no error: it resolves to all-zero addresses.
pub proof fn law_listing_without_entries(listing: Seq<u8>)
    requires
        forall|j: int|
            0 <= j < listing_lines(listing).len() ==> line_entry(
                #[trigger] listing_lines(listing)[j],
            ) is None,
    ensures
        resolve_listing(listing) == Ok::<Addresses, ExportError>(Addresses::zero_spec()),
{
    lemma_no_entries(Addresses::zero_spec(), listing_lines(listing));
}

} // verus!
