//! The human-readable reports of a compiled fuse map: the chip diagram,
//! the pin table and the fuse listing.

use vstd::prelude::*;
use vstd::string::{StringExecFns, StringSliceAdditionalSpecFns};

verus! {

/// `n` blanks.
pub open spec fn spaces(n: nat) -> Seq<char> {
    Seq::new(n, |i: int| ' ')
}

/// The decimal digit `d`.
pub open spec fn digit(d: nat) -> char {
    seq!['0', '1', '2', '3', '4', '5', '6', '7', '8', '9'][d as int]
}

/// `n` in decimal, without leading zeros.
pub open spec fn decimal(n: nat) -> Seq<char>
    decreases n,
{
    if n < 10 {
        seq![digit(n)]
    } else {
        decimal(n / 10).push(digit(n % 10))
    }
}

/// `s` right-aligned in a field of `w` columns.
pub open spec fn right_aligned(s: Seq<char>, w: nat) -> Seq<char> {
    if s.len() < w {
        spaces((w - s.len()) as nat) + s
    } else {
        s
    }
}

/// Appends `n` blanks to `buf`.
pub fn make_spaces(buf: &mut String, n: usize)
    ensures
        final(buf)@ == old(buf)@ + spaces(n as nat),
{
    let mut i: usize = 0;
    while i < n
        invariant
            i <= n,
            buf@ == old(buf)@ + spaces(i as nat),
        decreases n - i,
    {
        proof {
            reveal_strlit(" ");
        }
        buf.append(" ");
        i = i + 1;
        assert(buf@ =~= old(buf)@ + spaces(i as nat));
    }
}

fn digit_str(d: usize) -> (r: &'static str)
    requires
        d < 10,
    ensures
        r@ == seq![digit(d as nat)],
{
    proof {
        reveal_strlit("0");
        reveal_strlit("1");
        reveal_strlit("2");
        reveal_strlit("3");
        reveal_strlit("4");
        reveal_strlit("5");
        reveal_strlit("6");
        reveal_strlit("7");
        reveal_strlit("8");
        reveal_strlit("9");
    }
    if d == 0 {
        "0"
    } else if d == 1 {
        "1"
    } else if d == 2 {
        "2"
    } else if d == 3 {
        "3"
    } else if d == 4 {
        "4"
    } else if d == 5 {
        "5"
    } else if d == 6 {
        "6"
    } else if d == 7 {
        "7"
    } else if d == 8 {
        "8"
    } else {
        "9"
    }
}

fn push_decimal(buf: &mut String, n: usize)
    ensures
        final(buf)@ == old(buf)@ + decimal(n as nat),
    decreases n,
{
    if n >= 10 {
        push_decimal(buf, n / 10);
    }
    buf.append(digit_str(n % 10));
    assert(buf@ =~= old(buf)@ + decimal(n as nat));
}


proof fn lemma_decimal_len(n: nat)
    ensures
        1 <= decimal(n).len() <= n + 1,
    decreases n,
{
    if n >= 10 {
        lemma_decimal_len(n / 10);
    }
}

fn decimal_len(n: usize) -> (r: usize)
    ensures
        r == decimal(n as nat).len(),
    decreases n,
{
    if n >= 10 {
        proof {
            lemma_decimal_len((n / 10) as nat);
        }
        decimal_len(n / 10) + 1
    } else {
        1
    }
}

/// Appends `n` in decimal, right-aligned in `w` columns.
fn push_right(buf: &mut String, n: usize, w: usize)
    ensures
        final(buf)@ == old(buf)@ + right_aligned(decimal(n as nat), w as nat),
{
    let k = decimal_len(n);
    if k < w {
        make_spaces(buf, w - k);
    }
    push_decimal(buf, n);
    assert(buf@ =~= old(buf)@ + right_aligned(decimal(n as nat), w as nat));
}

/// The text of one fuse cell: `-` where the fuse is intact, `x` where it
/// is blown.
pub open spec fn cell(v: u8) -> Seq<char> {
    if v != 0 {
        seq!['-']
    } else {
        seq!['x']
    }
}

/// The first `n` cells of fuse row `row` of a `width`-column array, with a
/// blank before every fourth column.
pub open spec fn cells(width: nat, row: nat, data: Seq<u8>, n: nat) -> Seq<char>
    decreases n,
{
    if n == 0 {
        Seq::empty()
    } else {
        let col = (n - 1) as nat;
        cells(width, row, data, col) + (if col % 4 == 0 {
            seq![' ']
        } else {
            Seq::empty()
        }) + cell(data[(row * width + col) as int])
    }
}

/// One line of the fuse listing: a newline, the row number in three
/// columns, a blank, then the row's cells.
pub open spec fn row_text(width: nat, row: nat, data: Seq<u8>) -> Seq<char> {
    seq!['\n'] + right_aligned(decimal(row), 3) + seq![' '] + cells(width, row, data, width)
}

/// Appends fuse row `row` of the `num_of_col`-column array `data`.
pub fn make_row(buf: &mut String, num_of_col: usize, row: usize, data: &[u8])
    requires
        (row + 1) * num_of_col <= data@.len(),
    ensures
        final(buf)@ == old(buf)@ + row_text(num_of_col as nat, row as nat, data@),
{
    proof {
        reveal_strlit("\n");
        reveal_strlit(" ");
        reveal_strlit("-");
        reveal_strlit("x");
        assert((row + 1) * num_of_col == row * num_of_col + num_of_col) by (nonlinear_arith);
        assert(row * num_of_col + num_of_col <= data@.len());
    }
    buf.append("\n");
    push_right(buf, row, 3);
    buf.append(" ");
    let ghost head = buf@;
    let len = data.len();
    let base = row * num_of_col;
    let mut col: usize = 0;
    while col < num_of_col
        invariant
            col <= num_of_col,
            base == row * num_of_col,
            len == data@.len(),
            base + num_of_col <= len,
            buf@ == head + cells(num_of_col as nat, row as nat, data@, col as nat),
        decreases num_of_col - col,
    {
        proof {
            reveal_strlit(" ");
            reveal_strlit("-");
            reveal_strlit("x");
        }
        let ghost before = buf@;
        if col % 4 == 0 {
            buf.append(" ");
            assert(buf@ == before + seq![' ']);
        }
        let ghost mid = buf@;
        let v = data[base + col];
        if v != 0 {
            buf.append("-");
            assert(buf@ == mid + seq!['-']);
        } else {
            buf.append("x");
            assert(buf@ == mid + seq!['x']);
        }
        proof {
            let sep: Seq<char> = if col % 4 == 0 {
                seq![' ']
            } else {
                Seq::empty()
            };
            assert(buf@ =~= before + sep + cell(v));
            assert(cells(num_of_col as nat, row as nat, data@, (col + 1) as nat) == cells(
                num_of_col as nat,
                row as nat,
                data@,
                col as nat,
            ) + sep + cell(data@[(row * num_of_col + col) as int]));
        }
        col = col + 1;
        assert(buf@ =~= head + cells(num_of_col as nat, row as nat, data@, col as nat));
    }
    assert(buf@ =~= old(buf)@ + row_text(num_of_col as nat, row as nat, data@));
}


/// Device identifiers of the C interface.
pub const GAL16V8: i32 = 1;
pub const GAL20V8: i32 = 2;
pub const GAL22V10: i32 = 3;
pub const GAL20RA10: i32 = 4;

/// The mode in which a GAL16V8 or GAL20V8 has a clock and an output-enable pin.
pub const MODE3: i32 = 3;

/// The macrocell pin type that marks a pin used as an input.
pub const INPUT: i32 = 2;

pub open spec fn known_type(gal_type: i32) -> bool {
    1 <= gal_type <= 4
}

/// Bytes of a pin name: the width it takes in a report.
pub open spec fn name_len(s: &str) -> nat {
    s.spec_bytes().len()
}

/// The device name, centred by its leading blank, as the diagram's title.
pub open spec fn chip_title(gal_type: i32) -> Seq<char> {
    if gal_type == GAL16V8 {
        " GAL16V8\n\n"@
    } else if gal_type == GAL20V8 {
        " GAL20V8\n\n"@
    } else if gal_type == GAL22V10 {
        " GAL22V10\n\n"@
    } else {
        "GAL20RA10\n\n"@
    }
}

/// Line `n` (from 0) of the chip body: pin `n + 1` on the left, its name
/// right-aligned in 25 columns, and pin `len - n` on the right.
pub open spec fn chip_line(names: Seq<&str>, n: int) -> Seq<char> {
    let len = names.len();
    spaces((25 - name_len(names[n])) as nat) + names[n]@ + " | "@ + right_aligned(
        decimal((n + 1) as nat),
        2,
    ) + "           "@ + right_aligned(decimal((len - n) as nat), 2) + " | "@ + names[len - n
        - 1]@ + "\n"@
}

/// The first `k` lines of the chip body, with a spacer line between two.
pub open spec fn chip_body(names: Seq<&str>, k: nat) -> Seq<char>
    decreases k,
{
    if k == 0 {
        Seq::empty()
    } else {
        chip_body(names, (k - 1) as nat) + (if k > 1 {
            spaces(26) + "|                 |\n"@
        } else {
            Seq::empty()
        }) + chip_line(names, k - 1)
    }
}

/// The whole chip diagram.
pub open spec fn chip_text(gal_type: i32, names: Seq<&str>) -> Seq<char> {
    "\n\n"@ + spaces(31) + chip_title(gal_type) + spaces(26) + "-------\\___/-------\n"@
        + chip_body(names, names.len() / 2) + spaces(26) + "-------------------\n"@
}

fn push_chip_line(buf: &mut String, pin_names: &[&str], n: usize)
    requires
        n < pin_names@.len() / 2,
        name_len(pin_names@[n as int]) <= 25,
    ensures
        final(buf)@ == old(buf)@ + chip_line(pin_names@, n as int),
{
    let num_of_pins = pin_names.len();
    let name = pin_names[n];
    make_spaces(buf, 25 - name.len());
    buf.append(name);
    buf.append(" | ");
    push_right(buf, n + 1, 2);
    buf.append("           ");
    push_right(buf, num_of_pins - n, 2);
    buf.append(" | ");
    buf.append(pin_names[num_of_pins - n - 1]);
    buf.append("\n");
    assert(buf@ =~= old(buf)@ + chip_line(pin_names@, n as int));
}

/// Draws the chip with its pin names: pins 1 to `n/2` down the left side,
/// the others up the right side.
pub fn make_chip(gal_type: i32, pin_names: &[&str]) -> (r: String)
    requires
        known_type(gal_type),
        forall|i: int| 0 <= i < pin_names@.len() / 2 ==> name_len(#[trigger] pin_names@[i]) <= 25,
    ensures
        r@ == chip_text(gal_type, pin_names@),
{
    let num_of_pins = pin_names.len();
    let mut buf = String::new();
    buf.append("\n\n");
    make_spaces(&mut buf, 31);
    if gal_type == GAL16V8 {
        buf.append(" GAL16V8\n\n");
    } else if gal_type == GAL20V8 {
        buf.append(" GAL20V8\n\n");
    } else if gal_type == GAL22V10 {
        buf.append(" GAL22V10\n\n");
    } else {
        buf.append("GAL20RA10\n\n");
    }
    make_spaces(&mut buf, 26);
    buf.append("-------\\___/-------\n");
    let ghost head = buf@;
    let half = num_of_pins / 2;
    let mut n: usize = 0;
    while n < half
        invariant
            num_of_pins == pin_names@.len(),
            half == num_of_pins / 2,
            n <= half,
            forall|i: int| 0 <= i < half ==> name_len(#[trigger] pin_names@[i]) <= 25,
            buf@ == head + chip_body(pin_names@, n as nat),
        decreases half - n,
    {
        let ghost before = buf@;
        if n > 0 {
            make_spaces(&mut buf, 26);
            buf.append("|                 |\n");
        }
        let ghost mid = buf@;
        push_chip_line(&mut buf, pin_names, n);
        proof {
            if n > 0 {
                assert(mid =~= before + (spaces(26) + "|                 |\n"@));
            } else {
                assert(mid =~= before + Seq::<char>::empty());
            }
        }
        n = n + 1;
        assert(buf@ =~= head + chip_body(pin_names@, n as nat));
    }
    make_spaces(&mut buf, 26);
    buf.append("-------------------\n");
    assert(buf@ =~= chip_text(gal_type, pin_names@));
    buf
}


/// Pin of the first macrocell.
pub open spec fn olmc_base(gal_type: i32) -> int {
    if gal_type == GAL16V8 {
        12
    } else if gal_type == GAL20V8 {
        15
    } else {
        14
    }
}

/// Pin `n` belongs to a macrocell slot (on a GAL22V10 up to the dummy
/// slot at pin 25).
pub open spec fn olmc_pin(gal_type: i32, n: int) -> bool {
    if gal_type == GAL16V8 {
        12 <= n <= 19
    } else if gal_type == GAL20V8 {
        15 <= n <= 22
    } else if gal_type == GAL22V10 {
        14 <= n <= 25
    } else {
        14 <= n <= 23
    }
}

/// Product-term rows of macrocell slot `olmc`.
pub open spec fn olmc_rows(gal_type: i32, olmc: int) -> nat {
    if gal_type == GAL22V10 {
        crate::chips::capacity_22v10(olmc)
    } else {
        8
    }
}

pub fn is_olmc(gal_type: i32, n: usize) -> (r: bool)
    requires
        known_type(gal_type),
    ensures
        r == olmc_pin(gal_type, n as int),
{
    if gal_type == GAL16V8 {
        n >= 12 && n <= 19
    } else if gal_type == GAL20V8 {
        n >= 15 && n <= 22
    } else if gal_type == GAL22V10 {
        n >= 14 && n <= 25
    } else {
        n >= 14 && n <= 23
    }
}

/// The macrocell slot of an output pin.
pub fn pin_to_olmc(gal_type: i32, pin: usize) -> (r: usize)
    requires
        known_type(gal_type),
        pin >= olmc_base(gal_type),
    ensures
        r == pin - olmc_base(gal_type),
{
    if gal_type == GAL16V8 {
        pin - 12
    } else if gal_type == GAL20V8 {
        pin - 15
    } else {
        pin - 14
    }
}

/// Product-term rows of macrocell slot `olmc`.
pub fn get_size(gal_type: i32, olmc: usize) -> (r: i32)
    requires
        known_type(gal_type),
        gal_type == GAL22V10 ==> olmc < 12,
    ensures
        r == olmc_rows(gal_type, olmc as int),
{
    if gal_type == GAL22V10 {
        crate::chips::Chip::GAL22V10.olmc_capacity(olmc) as i32
    } else {
        8
    }
}

/// Macrocell slots that the pin table may look up.
pub open spec fn olmc_slots(gal_type: i32) -> nat {
    if gal_type == GAL16V8 || gal_type == GAL20V8 {
        8
    } else {
        10
    }
}

pub open spec fn opt_text(b: bool, s: Seq<char>) -> Seq<char> {
    if b {
        s
    } else {
        Seq::empty()
    }
}

/// The type column of pin `n` in the pin table of a `len`-pin device.
#[verifier::opaque]
pub open spec fn pin_type(gal_type: i32, len: int, mode: i32, types: Seq<i32>, n: int) -> Seq<char> {
    let gnd = n == len / 2;
    let vcc = n == len;
    let small = gal_type == GAL16V8 || gal_type == GAL20V8;
    let clock = small && mode == MODE3 && n == 1;
    let oe = small && mode == MODE3 && ((gal_type == GAL16V8 && n == 11) || (gal_type == GAL20V8
        && n == 13));
    let clock_in = gal_type == GAL22V10 && n == 1;
    opt_text(gnd, "| GND\n"@) + opt_text(vcc, "| VCC\n\n"@) + opt_text(clock, "| Clock\n"@) + opt_text(
        oe,
        "| /OE\n"@,
    ) + opt_text(clock_in, "| Clock/Input\n"@) + if olmc_pin(gal_type, n) && n < 24 {
        let k = types[n - olmc_base(gal_type)];
        if k == INPUT {
            "| Input\n"@
        } else if k != 0 {
            "| Output\n"@
        } else {
            "| NC\n"@
        }
    } else {
        opt_text(!(gnd || vcc || clock || oe || clock_in), "| Input\n"@)
    }
}

fn push_pin_type(buf: &mut String, gal_type: i32, len: usize, mode: i32, types: &[i32], n: usize)
    requires
        known_type(gal_type),
        types@.len() >= olmc_slots(gal_type),
    ensures
        final(buf)@ == old(buf)@ + pin_type(gal_type, len as int, mode, types@, n as int),
{
    let gnd = n == len / 2;
    let vcc = n == len;
    let small = gal_type == GAL16V8 || gal_type == GAL20V8;
    let clock = small && mode == MODE3 && n == 1;
    let oe = small && mode == MODE3 && ((gal_type == GAL16V8 && n == 11) || (gal_type == GAL20V8
        && n == 13));
    let clock_in = gal_type == GAL22V10 && n == 1;
    proof {
        reveal(pin_type);
    }
    let ghost s0 = buf@;
    if gnd {
        buf.append("| GND\n");
    }
    let ghost s1 = buf@;
    assert(s1 =~= s0 + opt_text(gnd, "| GND\n"@));
    if vcc {
        buf.append("| VCC\n\n");
    }
    let ghost s2 = buf@;
    assert(s2 =~= s1 + opt_text(vcc, "| VCC\n\n"@));
    if clock {
        buf.append("| Clock\n");
    }
    let ghost s3 = buf@;
    assert(s3 =~= s2 + opt_text(clock, "| Clock\n"@));
    if oe {
        buf.append("| /OE\n");
    }
    let ghost s4 = buf@;
    assert(s4 =~= s3 + opt_text(oe, "| /OE\n"@));
    if clock_in {
        buf.append("| Clock/Input\n");
    }
    let ghost s5 = buf@;
    assert(s5 =~= s4 + opt_text(clock_in, "| Clock/Input\n"@));
    if is_olmc(gal_type, n) && n < 24 {
        let k = types[pin_to_olmc(gal_type, n)];
        if k == INPUT {
            buf.append("| Input\n");
        } else if k != 0 {
            buf.append("| Output\n");
        } else {
            buf.append("| NC\n");
        }
    } else if !(gnd || vcc || clock || oe || clock_in) {
        buf.append("| Input\n");
    } else {
        assert(buf@ =~= s5 + Seq::<char>::empty());
    }
    assert(buf@ =~= old(buf)@ + pin_type(gal_type, len as int, mode, types@, n as int));
}


/// Line `n` (from 1) of the pin table.
pub open spec fn pin_line(gal_type: i32, names: Seq<&str>, mode: i32, types: Seq<i32>, n: int) -> Seq<
    char,
> {
    "  "@ + right_aligned(decimal(n as nat), 2) + "   | "@ + names[n - 1]@ + spaces(
        (9 - name_len(names[n - 1])) as nat,
    ) + pin_type(gal_type, names.len() as int, mode, types, n)
}

/// The first `k` lines of the pin table.
pub open spec fn pin_lines(gal_type: i32, names: Seq<&str>, mode: i32, types: Seq<i32>, k: nat) -> Seq<
    char,
>
    decreases k,
{
    if k == 0 {
        Seq::empty()
    } else {
        pin_lines(gal_type, names, mode, types, (k - 1) as nat) + pin_line(
            gal_type,
            names,
            mode,
            types,
            k as int,
        )
    }
}

/// The whole pin table.
pub open spec fn pin_text(gal_type: i32, names: Seq<&str>, mode: i32, types: Seq<i32>) -> Seq<char> {
    "\n\n"@ + " Pin # | Name     | Pin Type\n"@ + "-----------------------------\n"@ + pin_lines(
        gal_type,
        names,
        mode,
        types,
        names.len(),
    )
}

fn push_pin_line(
    buf: &mut String,
    gal_type: i32,
    pin_names: &[&str],
    mode: i32,
    olmc_pin_types: &[i32],
    n: usize,
)
    requires
        known_type(gal_type),
        olmc_pin_types@.len() >= olmc_slots(gal_type),
        1 <= n <= pin_names@.len(),
        name_len(pin_names@[n - 1]) <= 9,
    ensures
        final(buf)@ == old(buf)@ + pin_line(gal_type, pin_names@, mode, olmc_pin_types@, n as int),
{
    buf.append("  ");
    push_right(buf, n, 2);
    buf.append("   | ");
    let name = pin_names[n - 1];
    buf.append(name);
    make_spaces(buf, 9 - name.len());
    push_pin_type(buf, gal_type, pin_names.len(), mode, olmc_pin_types, n);
    assert(buf@ =~= old(buf)@ + pin_line(gal_type, pin_names@, mode, olmc_pin_types@, n as int));
}

/// The pin table: number, name and type of every pin. `olmc_pin_types`
/// gives each macrocell's use (0 unused, `INPUT`, or an output).
pub fn make_pin(gal_type: i32, pin_names: &[&str], mode: i32, olmc_pin_types: &[i32]) -> (r: String)
    requires
        known_type(gal_type),
        olmc_pin_types@.len() >= olmc_slots(gal_type),
        forall|i: int| 0 <= i < pin_names@.len() ==> name_len(#[trigger] pin_names@[i]) <= 9,
    ensures
        r@ == pin_text(gal_type, pin_names@, mode, olmc_pin_types@),
{
    let num_of_pins = pin_names.len();
    let mut buf = String::new();
    buf.append("\n\n");
    buf.append(" Pin # | Name     | Pin Type\n");
    buf.append("-----------------------------\n");
    let ghost head = buf@;
    let mut i: usize = 0;
    while i < num_of_pins
        invariant
            num_of_pins == pin_names@.len(),
            i <= num_of_pins,
            known_type(gal_type),
            olmc_pin_types@.len() >= olmc_slots(gal_type),
            forall|i: int| 0 <= i < pin_names@.len() ==> name_len(#[trigger] pin_names@[i]) <= 9,
            buf@ == head + pin_lines(gal_type, pin_names@, mode, olmc_pin_types@, i as nat),
        decreases num_of_pins - i,
    {
        let n = i + 1;
        push_pin_line(&mut buf, gal_type, pin_names, mode, olmc_pin_types, n);
        i = n;
        assert(buf@ =~= head + pin_lines(gal_type, pin_names@, mode, olmc_pin_types@, i as nat));
    }
    assert(buf@ =~= pin_text(gal_type, pin_names@, mode, olmc_pin_types@));
    buf
}


/// The highest output pin.
pub open spec fn last_pin(gal_type: i32) -> int {
    if gal_type == GAL16V8 {
        19
    } else if gal_type == GAL20V8 {
        22
    } else {
        23
    }
}

/// Output macrocells.
pub open spec fn olmc_total(gal_type: i32) -> nat {
    if gal_type == GAL16V8 || gal_type == GAL20V8 {
        8
    } else {
        10
    }
}

/// Fuses per row.
pub open spec fn row_len(gal_type: i32) -> nat {
    if gal_type == GAL16V8 {
        32
    } else if gal_type == GAL22V10 {
        44
    } else {
        40
    }
}

/// Rows of fuses.
pub open spec fn row_total(gal_type: i32) -> nat {
    if gal_type == GAL22V10 {
        132
    } else if gal_type == GAL20RA10 {
        80
    } else {
        64
    }
}

/// Row of the first product term of macrocell slot `olmc`: the rows of
/// the slots before it, after the AR row on a GAL22V10.
#[verifier::opaque]
pub open spec fn first_row(gal_type: i32, olmc: int) -> nat {
    if gal_type == GAL22V10 {
        if olmc <= 0 {
            1
        } else if olmc == 1 {
            10
        } else if olmc == 2 {
            21
        } else if olmc == 3 {
            34
        } else if olmc == 4 {
            49
        } else if olmc == 5 {
            66
        } else if olmc == 6 {
            83
        } else if olmc == 7 {
            98
        } else if olmc == 8 {
            111
        } else if olmc == 9 {
            122
        } else {
            131
        }
    } else {
        (8 * olmc) as nat
    }
}

/// The mode bits printed beside output pin `pin`.
pub open spec fn mode_bits(gal_type: i32, xor: Seq<u8>, ac1: Seq<u8>, s1: Seq<u8>, pin: int) -> Seq<
    char,
> {
    let i = last_pin(gal_type) - pin;
    if gal_type == GAL16V8 || gal_type == GAL20V8 {
        "XOR = "@ + decimal(xor[i] as nat) + "   AC1 = "@ + decimal(ac1[i] as nat)
    } else if gal_type == GAL22V10 {
        "S0 = "@ + decimal(xor[i] as nat) + "   S1 = "@ + decimal(s1[i] as nat)
    } else {
        "S0 = "@ + decimal(xor[i] as nat)
    }
}

/// `count` consecutive fuse rows from row `start`.
pub open spec fn rows_text(width: nat, start: nat, count: nat, fuse: Seq<u8>) -> Seq<char>
    decreases count,
{
    if count == 0 {
        Seq::empty()
    } else {
        rows_text(width, start, (count - 1) as nat, fuse) + row_text(
            width,
            (start + count - 1) as nat,
            fuse,
        )
    }
}

/// The heading of an output pin's listing: its number, name and mode bits.
pub open spec fn pin_header(
    gal_type: i32,
    names: Seq<&str>,
    xor: Seq<u8>,
    ac1: Seq<u8>,
    s1: Seq<u8>,
    pin: int,
) -> Seq<char> {
    "\n\nPin "@ + right_aligned(decimal(pin as nat), 2) + " = "@ + names[pin - 1]@ + spaces(
        (13 - name_len(names[pin - 1])) as nat,
    ) + mode_bits(gal_type, xor, ac1, s1, pin)
}

/// The listing of macrocell slot `olmc`: its pin, name and mode bits and
/// its product-term rows; on a GAL22V10 preceded by the AR row (first
/// slot) or followed by the SP row (last slot).
#[verifier::opaque]
pub open spec fn olmc_block(
    gal_type: i32,
    names: Seq<&str>,
    fuse: Seq<u8>,
    xor: Seq<u8>,
    ac1: Seq<u8>,
    s1: Seq<u8>,
    olmc: int,
) -> Seq<char> {
    let w = row_len(gal_type);
    let pin = last_pin(gal_type) - olmc;
    let start = first_row(gal_type, olmc);
    let count = olmc_rows(gal_type, olmc);
    opt_text(gal_type == GAL22V10 && olmc == 0, "\n\nAR"@ + row_text(w, 0, fuse)) + pin_header(
        gal_type,
        names,
        xor,
        ac1,
        s1,
        pin,
    ) + rows_text(w, start, count, fuse) + opt_text(
        gal_type == GAL22V10 && olmc == 9,
        "\n\nSP"@ + row_text(w, start + count, fuse),
    )
}

/// The listings of the first `k` macrocell slots, from the highest pin down.
pub open spec fn fuse_blocks(
    gal_type: i32,
    names: Seq<&str>,
    fuse: Seq<u8>,
    xor: Seq<u8>,
    ac1: Seq<u8>,
    s1: Seq<u8>,
    k: nat,
) -> Seq<char>
    decreases k,
{
    if k == 0 {
        Seq::empty()
    } else {
        fuse_blocks(gal_type, names, fuse, xor, ac1, s1, (k - 1) as nat) + olmc_block(
            gal_type,
            names,
            fuse,
            xor,
            ac1,
            s1,
            k - 1,
        )
    }
}

/// The whole fuse listing.
pub open spec fn fuse_text(
    gal_type: i32,
    names: Seq<&str>,
    fuse: Seq<u8>,
    xor: Seq<u8>,
    ac1: Seq<u8>,
    s1: Seq<u8>,
) -> Seq<char> {
    fuse_blocks(gal_type, names, fuse, xor, ac1, s1, olmc_total(gal_type)) + "\n\n"@
}

/// What the fuse listing reads: enough names, short enough where they are
/// printed, and every bit array as long as the device needs.
pub open spec fn fuse_inputs_ok(
    gal_type: i32,
    names: Seq<&str>,
    fuse: Seq<u8>,
    xor: Seq<u8>,
    ac1: Seq<u8>,
    s1: Seq<u8>,
) -> bool {
    &&& known_type(gal_type)
    &&& names.len() >= last_pin(gal_type)
    &&& forall|i: int|
        last_pin(gal_type) - olmc_total(gal_type) <= i < last_pin(gal_type) ==> name_len(
            #[trigger] names[i],
        ) <= 13
    &&& fuse.len() >= row_len(gal_type) * row_total(gal_type)
    &&& xor.len() >= olmc_total(gal_type)
    &&& (gal_type == GAL16V8 || gal_type == GAL20V8) ==> ac1.len() >= 8
    &&& gal_type == GAL22V10 ==> s1.len() >= 10
}

fn push_mode_bits(buf: &mut String, gal_type: i32, xor: &[u8], ac1: &[u8], s1: &[u8], pin: usize)
    requires
        known_type(gal_type),
        last_pin(gal_type) - olmc_total(gal_type) < pin <= last_pin(gal_type),
        xor@.len() >= olmc_total(gal_type),
        (gal_type == GAL16V8 || gal_type == GAL20V8) ==> ac1@.len() >= 8,
        gal_type == GAL22V10 ==> s1@.len() >= 10,
    ensures
        final(buf)@ == old(buf)@ + mode_bits(gal_type, xor@, ac1@, s1@, pin as int),
{
    let i: usize = if gal_type == GAL16V8 {
        19 - pin
    } else if gal_type == GAL20V8 {
        22 - pin
    } else {
        23 - pin
    };
    if gal_type == GAL16V8 || gal_type == GAL20V8 {
        buf.append("XOR = ");
        push_decimal(buf, xor[i] as usize);
        buf.append("   AC1 = ");
        push_decimal(buf, ac1[i] as usize);
    } else if gal_type == GAL22V10 {
        buf.append("S0 = ");
        push_decimal(buf, xor[i] as usize);
        buf.append("   S1 = ");
        push_decimal(buf, s1[i] as usize);
    } else {
        buf.append("S0 = ");
        push_decimal(buf, xor[i] as usize);
    }
    assert(buf@ =~= old(buf)@ + mode_bits(gal_type, xor@, ac1@, s1@, pin as int));
}


fn push_pin_header(
    buf: &mut String,
    gal_type: i32,
    pin_names: &[&str],
    gal_xor: &[u8],
    gal_ac1: &[u8],
    gal_s1: &[u8],
    pin: usize,
)
    requires
        known_type(gal_type),
        pin_names@.len() >= last_pin(gal_type),
        name_len(pin_names@[pin - 1]) <= 13,
        last_pin(gal_type) - olmc_total(gal_type) < pin <= last_pin(gal_type),
        gal_xor@.len() >= olmc_total(gal_type),
        (gal_type == GAL16V8 || gal_type == GAL20V8) ==> gal_ac1@.len() >= 8,
        gal_type == GAL22V10 ==> gal_s1@.len() >= 10,
    ensures
        final(buf)@ == old(buf)@ + pin_header(
            gal_type,
            pin_names@,
            gal_xor@,
            gal_ac1@,
            gal_s1@,
            pin as int,
        ),
{
    buf.append("\n\nPin ");
    push_right(buf, pin, 2);
    buf.append(" = ");
    let name = pin_names[pin - 1];
    buf.append(name);
    make_spaces(buf, 13 - name.len());
    push_mode_bits(buf, gal_type, gal_xor, gal_ac1, gal_s1, pin);
    assert(buf@ =~= old(buf)@ + pin_header(
        gal_type,
        pin_names@,
        gal_xor@,
        gal_ac1@,
        gal_s1@,
        pin as int,
    ));
}

fn push_rows(buf: &mut String, width: usize, start: usize, count: usize, data: &[u8])
    requires
        start + count <= usize::MAX,
        (start + count) * width <= data@.len(),
    ensures
        final(buf)@ == old(buf)@ + rows_text(width as nat, start as nat, count as nat, data@),
{
    let ghost head = buf@;
    let mut j: usize = 0;
    while j < count
        invariant
            j <= count,
            start + count <= usize::MAX,
            (start + count) * width <= data@.len(),
            buf@ == head + rows_text(width as nat, start as nat, j as nat, data@),
        decreases count - j,
    {
        assert((start + j + 1) * width <= (start + count) * width) by (nonlinear_arith)
            requires
                j < count,
        ;
        make_row(buf, width, start + j, data);
        j = j + 1;
        assert(buf@ =~= head + rows_text(width as nat, start as nat, j as nat, data@));
    }
}

/// Each macrocell's rows follow those of the one before, and all of them,
/// with the SP row of a GAL22V10, fit in the array.
proof fn lemma_block_rows(gal_type: i32, olmc: int)
    requires
        known_type(gal_type),
        0 <= olmc < olmc_total(gal_type),
    ensures
        first_row(gal_type, olmc + 1) == first_row(gal_type, olmc) + olmc_rows(gal_type, olmc),
        first_row(gal_type, olmc) + olmc_rows(gal_type, olmc) + (if gal_type == GAL22V10 {
            1int
        } else {
            0
        }) <= row_total(gal_type),
        1 <= olmc_rows(gal_type, olmc) <= 17,
{
    reveal(first_row);
}

proof fn lemma_row_fits(width: nat, total: nat, row: nat, len: nat)
    requires
        row < total,
        len >= width * total,
    ensures
        (row + 1) * width <= len,
{
    assert((row + 1) * width <= total * width) by (nonlinear_arith)
        requires
            row + 1 <= total,
    ;
    assert(width * total == total * width) by (nonlinear_arith);
}

#[verifier::rlimit(40)]
fn push_olmc_block(
    buf: &mut String,
    gal_type: i32,
    pin_names: &[&str],
    gal_fuse: &[u8],
    gal_xor: &[u8],
    gal_ac1: &[u8],
    gal_s1: &[u8],
    olmc: usize,
    row: usize,
    width: usize,
)
    requires
        fuse_inputs_ok(gal_type, pin_names@, gal_fuse@, gal_xor@, gal_ac1@, gal_s1@),
        olmc < olmc_total(gal_type),
        row == first_row(gal_type, olmc as int),
        width == row_len(gal_type),
    ensures
        final(buf)@ == old(buf)@ + olmc_block(
            gal_type,
            pin_names@,
            gal_fuse@,
            gal_xor@,
            gal_ac1@,
            gal_s1@,
            olmc as int,
        ),
{
    let ghost total = row_total(gal_type);
    let ghost flen = gal_fuse@.len();
    let ghost w = width as nat;
    let last: usize = if gal_type == GAL16V8 {
        19
    } else if gal_type == GAL20V8 {
        22
    } else {
        23
    };
    let pin = last - olmc;
    proof {
        lemma_block_rows(gal_type, olmc as int);
    }
    let ghost s0 = buf@;
    if gal_type == GAL22V10 && olmc == 0 {
        buf.append("\n\nAR");
        proof {
            lemma_row_fits(w, total, 0, flen);
        }
        make_row(buf, width, 0, gal_fuse);
    }
    let ghost s1 = buf@;
    assert(s1 =~= s0 + opt_text(
        gal_type == GAL22V10 && olmc == 0,
        "\n\nAR"@ + row_text(w, 0, gal_fuse@),
    ));
    push_pin_header(buf, gal_type, pin_names, gal_xor, gal_ac1, gal_s1, pin);
    let ghost s2 = buf@;
    let count = get_size(gal_type, olmc) as usize;
    proof {
        lemma_row_fits(w, total, (row + count - 1) as nat, flen);
    }
    push_rows(buf, width, row, count, gal_fuse);
    let ghost s3 = buf@;
    if gal_type == GAL22V10 && olmc == 9 {
        buf.append("\n\nSP");
        proof {
            lemma_row_fits(w, total, (row + count) as nat, flen);
        }
        make_row(buf, width, row + count, gal_fuse);
    }
    assert(buf@ =~= s3 + opt_text(
        gal_type == GAL22V10 && olmc == 9,
        "\n\nSP"@ + row_text(w, (row + count) as nat, gal_fuse@),
    ));
    assert(buf@ =~= old(buf)@ + olmc_block(
        gal_type,
        pin_names@,
        gal_fuse@,
        gal_xor@,
        gal_ac1@,
        gal_s1@,
        olmc as int,
    )) by {
        reveal(olmc_block);
    }
}

/// The fuse listing: for each macrocell, from the highest output pin
/// down, its pin, name and mode bits and its rows of fuses (`-` intact,
/// `x` blown); on a GAL22V10 also the AR row first and the SP row last.
pub fn make_fuse(
    gal_type: i32,
    pin_names: &[&str],
    gal_fuse: &[u8],
    gal_xor: &[u8],
    gal_ac1: &[u8],
    gal_s1: &[u8],
) -> (r: String)
    requires
        fuse_inputs_ok(gal_type, pin_names@, gal_fuse@, gal_xor@, gal_ac1@, gal_s1@),
    ensures
        r@ == fuse_text(gal_type, pin_names@, gal_fuse@, gal_xor@, gal_ac1@, gal_s1@),
{
    let mut buf = String::new();
    let num_olmcs: usize = if gal_type == GAL16V8 || gal_type == GAL20V8 {
        8
    } else {
        10
    };
    let width: usize = if gal_type == GAL16V8 {
        32
    } else if gal_type == GAL22V10 {
        44
    } else {
        40
    };
    let mut row: usize = if gal_type == GAL22V10 {
        1
    } else {
        0
    };
    let mut olmc: usize = 0;
    proof {
        reveal(first_row);
    }
    while olmc < num_olmcs
        invariant
            fuse_inputs_ok(gal_type, pin_names@, gal_fuse@, gal_xor@, gal_ac1@, gal_s1@),
            num_olmcs == olmc_total(gal_type),
            width == row_len(gal_type),
            olmc <= num_olmcs,
            row == first_row(gal_type, olmc as int),
            buf@ == fuse_blocks(
                gal_type,
                pin_names@,
                gal_fuse@,
                gal_xor@,
                gal_ac1@,
                gal_s1@,
                olmc as nat,
            ),
        decreases num_olmcs - olmc,
    {
        push_olmc_block(
            &mut buf,
            gal_type,
            pin_names,
            gal_fuse,
            gal_xor,
            gal_ac1,
            gal_s1,
            olmc,
            row,
            width,
        );
        proof {
            lemma_block_rows(gal_type, olmc as int);
        }
        row = row + get_size(gal_type, olmc) as usize;
        olmc = olmc + 1;
    }
    buf.append("\n\n");
    buf
}

} // verus!
