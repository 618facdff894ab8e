//! Entries of the pending set, as shown in the queue panel.
use vstd::prelude::*;

use crate::app_table::TableCell;
use crate::enums::SelectedTopTab;

verus! {

/// A pending cell together with its address and the ordinal of its space.
#[derive(Clone, Copy, Debug, PartialEq, Eq)]
pub struct QueueItem {
    pub address: u16,
    pub cell: TableCell,
    pub table_index: usize,
}

/// The digit of value `d` in base 16, upper case.
pub open spec fn hex_digit(d: int) -> char {
    if d == 0 { '0' } else if d == 1 { '1' } else if d == 2 { '2' } else if d == 3 { '3' }
    else if d == 4 { '4' } else if d == 5 { '5' } else if d == 6 { '6' } else if d == 7 { '7' }
    else if d == 8 { '8' } else if d == 9 { '9' } else if d == 10 { 'A' } else if d == 11 { 'B' }
    else if d == 12 { 'C' } else if d == 13 { 'D' } else if d == 14 { 'E' } else { 'F' }
}

/// `v` as four upper-case hexadecimal digits.
pub open spec fn hex4(v: u16) -> Seq<char> {
    let x = v as int;
    seq![hex_digit(x / 4096), hex_digit((x / 256) % 16), hex_digit((x / 16) % 16), hex_digit(x % 16)]
}

/// `v` as five decimal digits, zero-padded.
pub open spec fn dec5(v: u16) -> Seq<char> {
    let x = v as int;
    seq![
        hex_digit(x / 10000),
        hex_digit((x / 1000) % 10),
        hex_digit((x / 100) % 10),
        hex_digit((x / 10) % 10),
        hex_digit(x % 10),
    ]
}

/// The digit that prefixes addresses of each space in the conventional numbering.
pub open spec fn space_prefix(s: SelectedTopTab) -> char {
    match s {
        SelectedTopTab::Coils => '0',
        SelectedTopTab::DiscreteInputs => '1',
        SelectedTopTab::InputRegisters => '3',
        SelectedTopTab::HoldingRegisters => '4',
    }
}

/// Relies on String::push: appends one character.
#[verifier::external_body]
fn push_char(s: &mut String, c: char)
    ensures
        final(s)@ == old(s)@.push(c),
{
    s.push(c);
}

fn digit_char(d: u16) -> (r: char)
    requires
        d < 16,
    ensures
        r == hex_digit(d as int),
{
    match d {
        0 => '0',
        1 => '1',
        2 => '2',
        3 => '3',
        4 => '4',
        5 => '5',
        6 => '6',
        7 => '7',
        8 => '8',
        9 => '9',
        10 => 'A',
        11 => 'B',
        12 => 'C',
        13 => 'D',
        14 => 'E',
        _ => 'F',
    }
}

fn five_digits(v: u16) -> (r: String)
    ensures
        r@ == dec5(v),
{
    let mut s = String::new();
    push_char(&mut s, digit_char(v / 10000));
    push_char(&mut s, digit_char((v / 1000) % 10));
    push_char(&mut s, digit_char((v / 100) % 10));
    push_char(&mut s, digit_char((v / 10) % 10));
    push_char(&mut s, digit_char(v % 10));
    assert(s@ =~= dec5(v));
    s
}

impl QueueItem {
    /// Name of the item's space.
    pub fn table_name(&self) -> (r: String)
        ensures
            r@ == self.cell.table_type.spec_name(),
    {
        self.cell.table_type.name()
    }

    /// "0x", the space's prefix digit, then the address in four hexadecimal digits.
    pub fn memory_address(&self) -> (r: String)
        ensures
            r@ == seq!['0', 'x', space_prefix(self.cell.table_type)] + hex4(self.address),
    {
        let mut s = String::new();
        push_char(&mut s, '0');
        push_char(&mut s, 'x');
        let prefix = match self.cell.table_type {
            SelectedTopTab::Coils => '0',
            SelectedTopTab::DiscreteInputs => '1',
            SelectedTopTab::InputRegisters => '3',
            SelectedTopTab::HoldingRegisters => '4',
        };
        push_char(&mut s, prefix);
        let a = self.address;
        push_char(&mut s, digit_char(a / 4096));
        push_char(&mut s, digit_char((a / 256) % 16));
        push_char(&mut s, digit_char((a / 16) % 16));
        push_char(&mut s, digit_char(a % 16));
        assert(s@ =~= seq!['0', 'x', space_prefix(self.cell.table_type)] + hex4(self.address));
        s
    }

    /// The confirmed value as five decimal digits.
    pub fn original_content(&self) -> (r: String)
        ensures
            r@ == dec5(self.cell.original_content.spec_u16()),
    {
        five_digits(self.cell.original_content.to_u16())
    }

    /// The staged value as five decimal digits.
    pub fn queued_content(&self) -> (r: String)
        ensures
            r@ == dec5(self.cell.queued_content.spec_u16()),
    {
        five_digits(self.cell.queued_content.to_u16())
    }
}

} // verus!
