//! The hex renderer: raw bytes as a fixed-width dump, sixteen bytes a line.

use vstd::prelude::*;

verus! {

/// Bytes shown on one line of a dump.
pub const ROW_LENGTH: usize = 16;

/// The upper-case hexadecimal digit of a value below sixteen.
pub open spec fn hex_digit(n: nat) -> char
    recommends
        n < 16,
{
    if n < 10 {
        (('0' as nat) + n) as char
    } else {
        (('A' as nat) + n - 10) as char
    }
}

/// One byte: two hexadecimal digits and a space.
pub open spec fn hex_cell(b: u8) -> Seq<char> {
    seq![hex_digit((b / 16) as nat), hex_digit((b % 16) as nat), ' ']
}

/// The cells of a run of bytes, one after the other.
pub open spec fn hex_cells(bytes: Seq<u8>) -> Seq<char>
    decreases bytes.len(),
{
    if bytes.len() == 0 {
        Seq::empty()
    } else {
        hex_cells(bytes.drop_last()) + hex_cell(bytes.last())
    }
}

/// Where the last line of a dump of `len` bytes starts.
pub open spec fn last_row_start(len: nat) -> int
    recommends
        len > 0,
{
    ((len - 1) / 16) * 16
}

/// The dump of `bytes`: every line holds the cells of up to sixteen bytes and
/// ends with a newline; only the last line may be shorter. No bytes, no lines.
pub open spec fn hex_dump(bytes: Seq<u8>) -> Seq<char>
    decreases bytes.len(),
{
    if bytes.len() == 0 {
        Seq::empty()
    } else {
        let start = last_row_start(bytes.len());
        hex_dump(bytes.take(start)) + hex_cells(bytes.skip(start)).push('\n')
    }
}

/// Every byte takes three characters.
pub proof fn lemma_hex_cells_len(bytes: Seq<u8>)
    ensures
        hex_cells(bytes).len() == 3 * bytes.len(),
    decreases bytes.len(),
{
    if bytes.len() > 0 {
        lemma_hex_cells_len(bytes.drop_last());
    }
}

/// A dump holds three characters for every byte and one newline for every
/// sixteen bytes begun.
pub proof fn lemma_hex_dump_len(bytes: Seq<u8>)
    ensures
        hex_dump(bytes).len() == 3 * bytes.len() + (bytes.len() + 15) / 16,
    decreases bytes.len(),
{
    if bytes.len() > 0 {
        let start = last_row_start(bytes.len());
        lemma_hex_dump_len(bytes.take(start));
        lemma_hex_cells_len(bytes.skip(start));
    }
}

/// The last line of a dump holds the cells of the bytes left over after the
/// full lines, and the dump ends with a newline.
pub proof fn lemma_hex_dump_last_line(bytes: Seq<u8>)
    requires
        bytes.len() > 0,
    ensures
        hex_dump(bytes).last() == '\n',
        0 < bytes.len() - last_row_start(bytes.len()) <= 16,
        last_row_start(bytes.len()) % 16 == 0,
{
}

fn hex_digit_char(n: u8) -> (c: char)
    requires
        n < 16,
    ensures
        c == hex_digit(n as nat),
{
    if n == 0 {
        '0'
    } else if n == 1 {
        '1'
    } else if n == 2 {
        '2'
    } else if n == 3 {
        '3'
    } else if n == 4 {
        '4'
    } else if n == 5 {
        '5'
    } else if n == 6 {
        '6'
    } else if n == 7 {
        '7'
    } else if n == 8 {
        '8'
    } else if n == 9 {
        '9'
    } else if n == 10 {
        'A'
    } else if n == 11 {
        'B'
    } else if n == 12 {
        'C'
    } else if n == 13 {
        'D'
    } else if n == 14 {
        'E'
    } else {
        'F'
    }
}

/// Renders `bytes` as a hex dump.
pub fn bytes_to_hex_dump(bytes: &[u8]) -> (r: String)
    ensures
        r@ == hex_dump(bytes@),
{
    let mut grid = String::new();
    let mut start: usize = 0;
    assert(bytes@.take(0).len() == 0);
    while start < bytes.len()
        invariant
            start <= bytes.len(),
            start % 16 == 0 || start == bytes.len(),
            grid@ == hex_dump(bytes@.take(start as int)),
        decreases bytes.len() - start,
    {
        let end: usize = if bytes.len() - start > ROW_LENGTH {
            start + ROW_LENGTH
        } else {
            bytes.len()
        };
        let ghost before = grid@;
        let mut i: usize = start;
        assert(bytes@.subrange(start as int, start as int).len() == 0);
        while i < end
            invariant
                start <= i <= end <= bytes.len(),
                grid@ == before + hex_cells(bytes@.subrange(start as int, i as int)),
            decreases end - i,
        {
            let b: u8 = bytes[i];
            let ghost so_far = grid@;
            grid.push(hex_digit_char(b / 16));
            grid.push(hex_digit_char(b % 16));
            grid.push(' ');
            proof {
                let next = bytes@.subrange(start as int, i + 1);
                assert(next.drop_last() =~= bytes@.subrange(start as int, i as int));
                assert(next.last() == b);
                assert(grid@ =~= so_far + hex_cell(b));
                assert(grid@ =~= before + hex_cells(next));
            }
            i += 1;
        }
        grid.push('\n');
        proof {
            let upto = bytes@.take(end as int);
            assert(last_row_start(upto.len()) == start) by {
                assert(start < end <= start + 16);
                assert(start % 16 == 0);
            }
            assert(upto.take(start as int) =~= bytes@.take(start as int));
            assert(upto.skip(start as int) =~= bytes@.subrange(start as int, end as int));
            assert(grid@ =~= hex_dump(upto));
        }
        start = end;
    }
    assert(bytes@.take(bytes@.len() as int) =~= bytes@);
    grid
}

} // verus!
