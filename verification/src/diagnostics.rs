use vstd::prelude::*;

verus! {

/// One hexadecimal digit, as the character `0`-`9` or `a`-`f`.
pub open spec fn hex_char(d: u8) -> char
    recommends
        d < 16,
{
    "0123456789abcdef"@[d as int]
}

/// The three characters one cell is shown as: two hexadecimal digits and a
/// space.
pub open spec fn hex_cell(b: u8) -> Seq<char> {
    seq![hex_char(b / 16), hex_char(b % 16), ' ']
}

/// The hexadecimal dump of the cells from `start` up to (excluding) `end`.
pub open spec fn hex_row(memory: Seq<u8>, start: int, end: int) -> Seq<char>
    decreases end - start,
{
    if end <= start {
        Seq::empty()
    } else {
        hex_row(memory, start, end - 1) + hex_cell(memory[end - 1])
    }
}

/// The indicator line under the dump: `^^ ` below the selected cell,
/// blanks below every other.
pub open spec fn marker_row(location: int, start: int, end: int) -> Seq<char>
    decreases end - start,
{
    if end <= start {
        Seq::empty()
    } else {
        marker_row(location, start, end - 1) + (if end - 1 == location {
            "^^ "@
        } else {
            "   "@
        })
    }
}

/// The first cell of the window shown around `location`.
pub open spec fn window_start(location: int) -> int {
    if location <= 10 {
        0
    } else {
        location - 10
    }
}

/// One past the last cell of the window shown around `location` on a tape
/// of `len` cells.
pub open spec fn window_end(location: int, len: int) -> int {
    if location > len - 10 {
        len
    } else {
        location + 10
    }
}

/// The whole two-line view: the dump of the window around `location`, a
/// line break, and the indicator line.
pub open spec fn memory_view_chars(memory: Seq<u8>, location: int) -> Seq<char> {
    hex_row(memory, window_start(location), window_end(location, memory.len() as int)) + "\n"@
        + marker_row(
        location,
        window_start(location),
        window_end(location, memory.len() as int),
    )
}

/// Renders the tape around the given cell for diagnostics: up to ten cells
/// on either side in hexadecimal, with an indicator marking the cell the
/// data pointer rests on.
pub fn memory_view(memory: &Vec<u8>, location: usize) -> (r: String)
    requires
        10 <= memory@.len(),
        location < memory@.len(),
    ensures
        r@ == memory_view_chars(memory@, location as int),
{
    let memsize: usize = memory.len();
    let top_bound: usize = memsize - 10;
    let start: usize = if location <= 10 {
        0
    } else {
        location - 10
    };
    let end: usize = if location > top_bound {
        memsize
    } else {
        location + 10
    };
    let digits = "0123456789abcdef";
    proof {
        reveal_strlit("0123456789abcdef");
        assert(start as int == window_start(location as int));
        assert(end as int == window_end(location as int, memory@.len() as int));
    }
    let mut output = String::new();
    let mut i: usize = start;
    while i < end
        invariant
            start <= i <= end,
            end <= memory@.len(),
            digits@.len() == 16,
            digits@ == "0123456789abcdef"@,
            output@ == hex_row(memory@, start as int, i as int),
        decreases end - i,
    {
        let b = memory[i];
        let hi_s = digits.substring_char((b / 16) as usize, (b / 16) as usize + 1);
        output.append(hi_s);
        let lo_s = digits.substring_char((b % 16) as usize, (b % 16) as usize + 1);
        output.append(lo_s);
        output.append(" ");
        proof {
            reveal_strlit(" ");
            assert(hi_s@ =~= seq![hex_char(b / 16)]);
            assert(lo_s@ =~= seq![hex_char(b % 16)]);
            assert(output@ =~= hex_row(memory@, start as int, i as int) + hex_cell(memory@[i as int]));
            assert(output@ == hex_row(memory@, start as int, i as int + 1));
        }
        i = i + 1;
    }
    output.append("\n");
    let ghost first_line = output@;
    let mut k: usize = start;
    while k < end
        invariant
            start <= k <= end,
            first_line == hex_row(memory@, start as int, end as int) + "\n"@,
            output@ == first_line + marker_row(location as int, start as int, k as int),
        decreases end - k,
    {
        if k == location {
            output.append("^^ ");
        } else {
            output.append("   ");
        }
        proof {
            assert(output@ =~= first_line + marker_row(location as int, start as int, k as int + 1));
        }
        k = k + 1;
    }
    proof {
        assert(output@ =~= memory_view_chars(memory@, location as int));
    }
    output
}

} // verus!
