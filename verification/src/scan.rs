use vstd::prelude::*;

verus! {

/// Whether `b` is one of the six white-space bytes of the file format.
pub open spec fn is_space(b: u8) -> bool {
    b == 0 || b == 9 || b == 10 || b == 12 || b == 13 || b == 32
}

/// Whether `b` is one of the delimiter bytes `( ) < > [ ] { } / %`.
pub open spec fn is_delimiter(b: u8) -> bool {
    b == 0x28 || b == 0x29 || b == 0x3C || b == 0x3E || b == 0x5B || b == 0x5D || b == 0x7B || b
        == 0x7D || b == 0x2F || b == 0x25
}

/// Whether `b` can stand inside a name or a number.
pub open spec fn is_regular(b: u8) -> bool {
    !is_space(b) && !is_delimiter(b)
}

/// Whether `b` is a decimal digit.
pub open spec fn is_digit(b: u8) -> bool {
    0x30 <= b <= 0x39
}

/// Whether the bytes `pat` stand in `data` at `pos`.
pub open spec fn holds_at(data: Seq<u8>, pos: int, pat: Seq<u8>) -> bool {
    0 <= pos && pos + pat.len() <= data.len() && data.subrange(pos, pos + pat.len()) == pat
}

/// Whether the name `key` stands in `data` at `pos` and ends there: what
/// follows is no byte that could continue it.
pub open spec fn key_at(data: Seq<u8>, pos: int, key: Seq<u8>) -> bool {
    holds_at(data, pos, key) && (pos + key.len() == data.len() || !is_regular(
        data[pos + key.len()],
    ))
}

/// The first position at or after `from` where the name `key` stands.
pub open spec fn first_key(data: Seq<u8>, key: Seq<u8>, from: int) -> Option<int>
    decreases data.len() - from,
{
    if from < 0 || from >= data.len() || from + key.len() > data.len() {
        None
    } else if key_at(data, from, key) {
        Some(from)
    } else {
        first_key(data, key, from + 1)
    }
}

/// The first position at or after `pos` that holds no white space.
pub open spec fn after_spaces(data: Seq<u8>, pos: int) -> int
    decreases data.len() - pos,
{
    if 0 <= pos < data.len() && is_space(data[pos]) {
        after_spaces(data, pos + 1)
    } else {
        pos
    }
}

/// The largest value a number may have before a further digit is read.
pub const NUMBER_CAP: u64 = 999_999_999;

/// Reads the digits from `pos` on into `acc`; the value and where the
/// digits end. A number of more than ten digits is not read.
pub open spec fn scan_number(data: Seq<u8>, pos: int, acc: int) -> Option<(int, int)>
    decreases data.len() - pos,
{
    if 0 <= pos < data.len() && is_digit(data[pos]) {
        if acc > NUMBER_CAP {
            None
        } else {
            scan_number(data, pos + 1, acc * 10 + (data[pos] - 0x30))
        }
    } else {
        Some((acc, pos))
    }
}

/// The unsigned decimal number that starts at `pos`, and where it ends.
pub open spec fn number_at(data: Seq<u8>, pos: int) -> Option<(int, int)> {
    if 0 <= pos < data.len() && is_digit(data[pos]) {
        scan_number(data, pos, 0)
    } else {
        None
    }
}

/// The decimal number with an optional sign that starts at `pos`, and
/// where it ends.
pub open spec fn signed_at(data: Seq<u8>, pos: int) -> Option<(int, int)> {
    if 0 <= pos < data.len() && data[pos] == 0x2D {
        match number_at(data, pos + 1) {
            Some((v, e)) => Some((-v, e)),
            None => None,
        }
    } else if 0 <= pos < data.len() && data[pos] == 0x2B {
        number_at(data, pos + 1)
    } else {
        number_at(data, pos)
    }
}

/// Whether `b` is a white-space byte.
pub fn space(b: u8) -> (r: bool)
    ensures
        r == is_space(b),
{
    b == 0 || b == 9 || b == 10 || b == 12 || b == 13 || b == 32
}

/// Whether `b` can stand inside a name or a number.
pub fn regular(b: u8) -> (r: bool)
    ensures
        r == is_regular(b),
{
    !space(b) && !(b == 0x28 || b == 0x29 || b == 0x3C || b == 0x3E || b == 0x5B || b == 0x5D || b
        == 0x7B || b == 0x7D || b == 0x2F || b == 0x25)
}

/// Whether the bytes `pat` stand in `data` at `pos`.
pub fn starts_at(data: &[u8], pos: usize, pat: &[u8]) -> (r: bool)
    ensures
        r == holds_at(data@, pos as int, pat@),
{
    if pos > data.len() || pat.len() > data.len() - pos {
        return false;
    }
    let mut j: usize = 0;
    while j < pat.len()
        invariant
            j <= pat.len(),
            pos + pat.len() <= data.len(),
            data@.subrange(pos as int, pos + j) =~= pat@.subrange(0, j as int),
        decreases pat.len() - j,
    {
        if data[pos + j] != pat[j] {
            assert(data@.subrange(pos as int, pos + pat.len())[j as int] != pat@[j as int]);
            return false;
        }
        assert(data@.subrange(pos as int, pos + j + 1) =~= data@.subrange(pos as int, pos + j).push(
            data@[pos + j],
        ));
        assert(pat@.subrange(0, j + 1) =~= pat@.subrange(0, j as int).push(pat@[j as int]));
        j += 1;
    }
    assert(pat@.subrange(0, pat.len() as int) =~= pat@);
    true
}

/// Whether the name `key` stands in `data` at `pos` and ends there.
pub fn name_at(data: &[u8], pos: usize, key: &[u8]) -> (r: bool)
    ensures
        r == key_at(data@, pos as int, key@),
{
    if pos > data.len() || key.len() > data.len() - pos || !starts_at(data, pos, key) {
        return false;
    }
    let end: usize = pos + key.len();
    end == data.len() || !regular(data[end])
}

/// Finds the first position at or after `from` where the name `key` stands.
pub fn find_key(data: &[u8], key: &[u8], from: usize) -> (r: Option<usize>)
    ensures
        match r {
            Some(p) => first_key(data@, key@, from as int) == Some(p as int) && from <= p && p
                + key.len() <= data.len() && key_at(data@, p as int, key@),
            None => first_key(data@, key@, from as int) is None,
        },
{
    let mut i: usize = from;
    while i < data.len() && key.len() <= data.len() - i
        invariant
            from <= i,
            first_key(data@, key@, from as int) == first_key(data@, key@, i as int),
        decreases data.len() - i,
    {
        if name_at(data, i, key) {
            return Some(i);
        }
        i += 1;
    }
    None
}

/// Finds the first position at or after `pos` that holds no white space.
pub fn skip_spaces(data: &[u8], pos: usize) -> (r: usize)
    ensures
        r == after_spaces(data@, pos as int),
        pos <= r,
        r <= data.len() || r == pos,
{
    let mut i: usize = pos;
    while i < data.len() && space(data[i])
        invariant
            pos <= i,
            i <= data.len() || i == pos,
            after_spaces(data@, pos as int) == after_spaces(data@, i as int),
        decreases data.len() - i,
    {
        i += 1;
    }
    i
}

/// Reads the unsigned decimal number that starts at `pos`.
pub fn read_number(data: &[u8], pos: usize) -> (r: Option<(u64, usize)>)
    ensures
        match r {
            Some((v, e)) => number_at(data@, pos as int) == Some((v as int, e as int)) && pos < e
                <= data.len() && v <= 9_999_999_999,
            None => number_at(data@, pos as int) is None,
        },
{
    if pos >= data.len() || !(0x30 <= data[pos] && data[pos] <= 0x39) {
        return None;
    }
    let mut acc: u64 = 0;
    let mut i: usize = pos;
    while i < data.len() && 0x30 <= data[i] && data[i] <= 0x39
        invariant
            pos <= i <= data.len(),
            i == pos ==> acc == 0,
            acc <= 9_999_999_999,
            number_at(data@, pos as int) == scan_number(data@, i as int, acc as int),
        decreases data.len() - i,
    {
        if acc > NUMBER_CAP {
            return None;
        }
        acc = acc * 10 + (data[i] - 0x30) as u64;
        i += 1;
    }
    Some((acc, i))
}

/// Reads the decimal number with an optional sign that starts at `pos`.
pub fn read_signed(data: &[u8], pos: usize) -> (r: Option<(i64, usize)>)
    ensures
        match r {
            Some((v, e)) => signed_at(data@, pos as int) == Some((v as int, e as int)) && pos < e
                <= data.len(),
            None => signed_at(data@, pos as int) is None,
        },
{
    if pos < data.len() && data[pos] == 0x2D {
        match read_number(data, pos + 1) {
            Some((v, e)) => Some((-(v as i64), e)),
            None => None,
        }
    } else if pos < data.len() && data[pos] == 0x2B {
        match read_number(data, pos + 1) {
            Some((v, e)) => Some((v as i64, e)),
            None => None,
        }
    } else {
        match read_number(data, pos) {
            Some((v, e)) => Some((v as i64, e)),
            None => None,
        }
    }
}

/// The last position before `upto` where the name `key` stands.
pub open spec fn last_key(data: Seq<u8>, key: Seq<u8>, upto: int) -> Option<int>
    decreases upto,
{
    if upto <= 0 {
        None
    } else if key_at(data, upto - 1, key) {
        Some(upto - 1)
    } else {
        last_key(data, key, upto - 1)
    }
}

/// Finds the last position where the name `key` stands.
pub fn find_last_key(data: &[u8], key: &[u8]) -> (r: Option<usize>)
    ensures
        match r {
            Some(p) => last_key(data@, key@, data.len() as int) == Some(p as int) && p
                + key.len() <= data.len() && key_at(data@, p as int, key@),
            None => last_key(data@, key@, data.len() as int) is None,
        },
{
    let mut i: usize = data.len();
    while i > 0
        invariant
            i <= data.len(),
            last_key(data@, key@, data.len() as int) == last_key(data@, key@, i as int),
        decreases i,
    {
        if name_at(data, i - 1, key) {
            return Some(i - 1);
        }
        i -= 1;
    }
    None
}

/// What `last_key` finds is the greatest position before `upto` where the
/// name stands; it finds nothing exactly when the name stands nowhere
/// before `upto`.
pub proof fn lemma_last_key_is_greatest(data: Seq<u8>, key: Seq<u8>, upto: int)
    ensures
        match last_key(data, key, upto) {
            Some(p) => 0 <= p < upto && key_at(data, p, key) && forall|q: int|
                p < q < upto ==> !key_at(data, q, key),
            None => forall|q: int| 0 <= q < upto ==> !key_at(data, q, key),
        },
    decreases upto,
{
    if upto > 0 && !key_at(data, upto - 1, key) {
        lemma_last_key_is_greatest(data, key, upto - 1);
    }
}

/// What `first_key` finds is the least position from `from` on where the
/// name stands; it finds nothing exactly when the name stands nowhere from
/// `from` on.
pub proof fn lemma_first_key_is_least(data: Seq<u8>, key: Seq<u8>, from: int)
    requires
        0 <= from,
    ensures
        match first_key(data, key, from) {
            Some(p) => from <= p < data.len() && key_at(data, p, key) && forall|q: int|
                from <= q < p ==> !key_at(data, q, key),
            None => forall|q: int| from <= q < data.len() ==> !key_at(data, q, key),
        },
    decreases data.len() - from,
{
    if from < data.len() && from + key.len() <= data.len() && !key_at(data, from, key) {
        lemma_first_key_is_least(data, key, from + 1);
    }
}

/// `after_spaces` passes over white space only and stops at the first
/// byte that is none, or at the end.
pub proof fn lemma_after_spaces(data: Seq<u8>, pos: int)
    requires
        0 <= pos <= data.len(),
    ensures
        pos <= after_spaces(data, pos) <= data.len(),
        forall|q: int| pos <= q < after_spaces(data, pos) ==> is_space(data[q]),
        after_spaces(data, pos) < data.len() ==> !is_space(data[after_spaces(data, pos)]),
    decreases data.len() - pos,
{
    if pos < data.len() && is_space(data[pos]) {
        lemma_after_spaces(data, pos + 1);
    }
}

} // verus!
