use vstd::prelude::*;
use crate::scan::{is_space, space};

verus! {

/// The value of a hexadecimal digit.
pub open spec fn hex_value(b: u8) -> Option<u8> {
    if 0x30 <= b <= 0x39 {
        Some((b - 0x30) as u8)
    } else if 0x41 <= b <= 0x46 {
        Some((b - 0x41 + 10) as u8)
    } else if 0x61 <= b <= 0x66 {
        Some((b - 0x61 + 10) as u8)
    } else {
        None
    }
}

/// The rest of a hexadecimal string from `pos` on, after the bytes `out`
/// and, where `high` is given, the first digit of the next byte. White space
/// between digits is passed over; a last digit without a partner counts as
/// the high half of a byte. The bytes, and the position after the closing `>`.
pub open spec fn hex_from(data: Seq<u8>, pos: int, high: Option<u8>, out: Seq<u8>) -> Option<
    (Seq<u8>, int),
>
    decreases data.len() - pos,
{
    if pos < 0 || pos >= data.len() {
        None
    } else if data[pos] == 0x3E {
        Some(
            (
                match high {
                    Some(h) => out.push((h * 16) as u8),
                    None => out,
                },
                pos + 1,
            ),
        )
    } else if is_space(data[pos]) {
        hex_from(data, pos + 1, high, out)
    } else {
        match hex_value(data[pos]) {
            None => None,
            Some(v) => match high {
                Some(h) => hex_from(data, pos + 1, None, out.push((h * 16 + v) as u8)),
                None => hex_from(data, pos + 1, Some(v), out),
            },
        }
    }
}

/// Whether `b` is an octal digit.
pub open spec fn is_octal(b: u8) -> bool {
    0x30 <= b <= 0x37
}

/// What the escape sequence whose first byte after the backslash stands at
/// `pos` contributes, and where it ends: a control character for `n r t b
/// f`, the byte of one to three octal digits (modulo 256), nothing for a
/// line end, and for any other byte that byte itself.
pub open spec fn escape_at(data: Seq<u8>, pos: int) -> (Option<u8>, int) {
    let e = data[pos];
    if e == 0x6E {
        (Some(10u8), pos + 1)
    } else if e == 0x72 {
        (Some(13u8), pos + 1)
    } else if e == 0x74 {
        (Some(9u8), pos + 1)
    } else if e == 0x62 {
        (Some(8u8), pos + 1)
    } else if e == 0x66 {
        (Some(12u8), pos + 1)
    } else if e == 13 {
        if pos + 1 < data.len() && data[pos + 1] == 10 {
            (None, pos + 2)
        } else {
            (None, pos + 1)
        }
    } else if e == 10 {
        (None, pos + 1)
    } else if is_octal(e) {
        if pos + 1 < data.len() && is_octal(data[pos + 1]) {
            if pos + 2 < data.len() && is_octal(data[pos + 2]) {
                (
                    Some(
                        (((e - 0x30) * 64 + (data[pos + 1] - 0x30) * 8 + (data[pos + 2] - 0x30))
                            % 256) as u8,
                    ),
                    pos + 3,
                )
            } else {
                (Some(((e - 0x30) * 8 + (data[pos + 1] - 0x30)) as u8), pos + 2)
            }
        } else {
            (Some((e - 0x30) as u8), pos + 1)
        }
    } else {
        (Some(e), pos + 1)
    }
}

/// The rest of a literal string from `pos` on, after the bytes `out` and
/// inside `depth` open parentheses of its own. The bytes, and the position
/// after the closing `)`.
pub open spec fn literal_from(data: Seq<u8>, pos: int, depth: nat, out: Seq<u8>) -> Option<
    (Seq<u8>, int),
>
    decreases data.len() - pos,
{
    if pos < 0 || pos >= data.len() {
        None
    } else if data[pos] == 0x5C {
        if pos + 1 >= data.len() {
            None
        } else {
            let r = escape_at(data, pos + 1);
            literal_from(
                data,
                r.1,
                depth,
                match r.0 {
                    Some(b) => out.push(b),
                    None => out,
                },
            )
        }
    } else if data[pos] == 0x28 {
        literal_from(data, pos + 1, depth + 1, out.push(0x28u8))
    } else if data[pos] == 0x29 {
        if depth == 0 {
            Some((out, pos + 1))
        } else {
            literal_from(data, pos + 1, (depth - 1) as nat, out.push(0x29u8))
        }
    } else {
        literal_from(data, pos + 1, depth, out.push(data[pos]))
    }
}

/// The string, literal or hexadecimal, that starts at `pos`: its bytes and
/// the position after it.
pub open spec fn string_at(data: Seq<u8>, pos: int) -> Option<(Seq<u8>, int)> {
    if 0 <= pos < data.len() && data[pos] == 0x28 {
        literal_from(data, pos + 1, 0, Seq::empty())
    } else if 0 <= pos < data.len() && data[pos] == 0x3C {
        hex_from(data, pos + 1, None, Seq::empty())
    } else {
        None
    }
}

fn hex_digit(b: u8) -> (r: Option<u8>)
    ensures
        r == hex_value(b),
        r matches Some(v) ==> v < 16,
{
    if 0x30 <= b && b <= 0x39 {
        Some(b - 0x30)
    } else if 0x41 <= b && b <= 0x46 {
        Some(b - 0x41 + 10)
    } else if 0x61 <= b && b <= 0x66 {
        Some(b - 0x61 + 10)
    } else {
        None
    }
}

fn read_hex(data: &[u8], start: usize) -> (r: Option<(Vec<u8>, usize)>)
    ensures
        match r {
            Some((v, e)) => hex_from(data@, start as int, None, Seq::empty()) == Some(
                (v@, e as int),
            ) && start < e <= data.len(),
            None => hex_from(data@, start as int, None, Seq::empty()) is None,
        },
{
    let mut out: Vec<u8> = Vec::new();
    let mut high: Option<u8> = None;
    let mut i: usize = start;
    while i < data.len()
        invariant
            start <= i,
            high matches Some(h) ==> h < 16,
            hex_from(data@, start as int, None, Seq::empty()) == hex_from(
                data@,
                i as int,
                high,
                out@,
            ),
        decreases data.len() - i,
    {
        let b: u8 = data[i];
        if b == 0x3E {
            match high {
                Some(h) => {
                    out.push(h * 16);
                },
                None => {},
            }
            return Some((out, i + 1));
        }
        if !space(b) {
            match hex_digit(b) {
                None => {
                    return None;
                },
                Some(v) => {
                    match high {
                        Some(h) => {
                            out.push(h * 16 + v);
                            high = None;
                        },
                        None => {
                            high = Some(v);
                        },
                    }
                },
            }
        }
        i += 1;
    }
    None
}

fn octal(b: u8) -> (r: bool)
    ensures
        r == is_octal(b),
{
    0x30 <= b && b <= 0x37
}

fn read_escape(data: &[u8], pos: usize) -> (r: (Option<u8>, usize))
    requires
        pos < data.len(),
    ensures
        (r.0, r.1 as int) == escape_at(data@, pos as int),
        pos < r.1 <= data.len(),
{
    let e: u8 = data[pos];
    if e == 0x6E {
        (Some(10), pos + 1)
    } else if e == 0x72 {
        (Some(13), pos + 1)
    } else if e == 0x74 {
        (Some(9), pos + 1)
    } else if e == 0x62 {
        (Some(8), pos + 1)
    } else if e == 0x66 {
        (Some(12), pos + 1)
    } else if e == 13 {
        if pos + 1 < data.len() && data[pos + 1] == 10 {
            (None, pos + 2)
        } else {
            (None, pos + 1)
        }
    } else if e == 10 {
        (None, pos + 1)
    } else if octal(e) {
        if pos + 1 < data.len() && octal(data[pos + 1]) {
            if pos + 2 < data.len() && octal(data[pos + 2]) {
                let v: u32 = ((e - 0x30) as u32) * 64 + ((data[pos + 1] - 0x30) as u32) * 8 + ((
                data[pos + 2] - 0x30) as u32);
                (Some((v % 256) as u8), pos + 3)
            } else {
                (Some((e - 0x30) * 8 + (data[pos + 1] - 0x30)), pos + 2)
            }
        } else {
            (Some(e - 0x30), pos + 1)
        }
    } else {
        (Some(e), pos + 1)
    }
}

fn read_literal(data: &[u8], start: usize) -> (r: Option<(Vec<u8>, usize)>)
    ensures
        match r {
            Some((v, e)) => literal_from(data@, start as int, 0, Seq::empty()) == Some(
                (v@, e as int),
            ) && start < e <= data.len(),
            None => literal_from(data@, start as int, 0, Seq::empty()) is None,
        },
{
    let mut out: Vec<u8> = Vec::new();
    let mut depth: usize = 0;
    let mut i: usize = start;
    while i < data.len()
        invariant
            start <= i,
            depth <= i - start,
            literal_from(data@, start as int, 0, Seq::empty()) == literal_from(
                data@,
                i as int,
                depth as nat,
                out@,
            ),
        decreases data.len() - i,
    {
        let b: u8 = data[i];
        if b == 0x5C {
            if i + 1 >= data.len() {
                return None;
            }
            let r = read_escape(data, i + 1);
            match r.0 {
                Some(x) => {
                    out.push(x);
                },
                None => {},
            }
            i = r.1;
        } else if b == 0x28 {
            out.push(b);
            depth += 1;
            i += 1;
        } else if b == 0x29 {
            if depth == 0 {
                return Some((out, i + 1));
            }
            out.push(b);
            depth -= 1;
            i += 1;
        } else {
            out.push(b);
            i += 1;
        }
    }
    None
}

/// Reads the string, literal or hexadecimal, that starts at `pos`.
pub fn read_string(data: &[u8], pos: usize) -> (r: Option<(Vec<u8>, usize)>)
    ensures
        match r {
            Some((v, e)) => string_at(data@, pos as int) == Some((v@, e as int)) && pos < e
                <= data.len(),
            None => string_at(data@, pos as int) is None,
        },
{
    if pos < data.len() && data[pos] == 0x28 {
        read_literal(data, pos + 1)
    } else if pos < data.len() && data[pos] == 0x3C {
        read_hex(data, pos + 1)
    } else {
        None
    }
}

} // verus!
