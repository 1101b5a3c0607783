//! Sequential allocation of request handles.

use vstd::prelude::*;
use vstd::string::*;

verus! {

/// Issues request handles in ascending order, starting at zero.
pub struct HandleAllocator {
    next: u64,
}

impl View for HandleAllocator {
    type V = nat;

    /// The number of handles issued since the last reset, which is also the
    /// handle that will be issued next.
    closed spec fn view(&self) -> nat {
        self.next as nat
    }
}

impl HandleAllocator {
    /// Whether `handle` has been issued since the last reset.
    pub open spec fn issued(&self, handle: u64) -> bool {
        (handle as nat) < self@
    }

    /// Whether another handle can still be issued.
    pub open spec fn has_room(&self) -> bool {
        self@ < u64::MAX
    }

    /// An allocator that has issued nothing.
    pub fn new() -> (allocator: Self)
        ensures
            allocator@ == 0,
    {
        HandleAllocator { next: 0 }
    }

    /// The handle that the next call of `next` will return.
    pub fn peek(&self) -> (handle: u64)
        ensures
            handle as nat == self@,
    {
        self.next
    }

    /// Whether another handle can still be issued.
    pub fn can_allocate(&self) -> (room: bool)
        ensures
            room == self.has_room(),
    {
        self.next < u64::MAX
    }

    /// Returns the current counter value, then increments the counter.
    pub fn next(&mut self) -> (handle: u64)
        requires
            old(self).has_room(),
        ensures
            handle as nat == old(self)@,
            final(self)@ == old(self)@ + 1,
            !old(self).issued(handle),
            final(self).issued(handle),
            forall|earlier: u64| old(self).issued(earlier) ==> earlier < handle,
            forall|other: u64| other != handle ==> final(self).issued(other) == old(self).issued(other),
    {
        let handle: u64 = self.next;
        self.next = handle + 1;
        handle
    }

    /// Sets the counter back to zero.
    pub fn reset(&mut self)
        ensures
            final(self)@ == 0,
    {
        self.next = 0;
    }
}

/// The character that stands for the digit `d`.
pub open spec fn digit_char(d: nat) -> char
    recommends
        d < 10,
{
    (48 + d) as u8 as char
}

/// Whether `c` is one of the ten decimal digits.
pub open spec fn is_digit(c: char) -> bool {
    '0' <= c <= '9'
}

/// The number that the digit `c` stands for.
pub open spec fn digit_value(c: char) -> nat
    recommends
        is_digit(c),
{
    (c as u8 - 48) as nat
}

/// The decimal numeral of `n`, without leading zeros.
pub open spec fn decimal(n: nat) -> Seq<char>
    decreases n,
{
    if n < 10 {
        seq![digit_char(n)]
    } else {
        decimal(n / 10).push(digit_char(n % 10))
    }
}

/// Whether every character of `text` is a decimal digit.
pub open spec fn all_digits(text: Seq<char>) -> bool {
    forall|i: int| 0 <= i < text.len() ==> is_digit(#[trigger] text[i])
}

/// The number that a sequence of digits denotes.
pub open spec fn decimal_value(text: Seq<char>) -> nat
    decreases text.len(),
{
    if text.len() == 0 {
        0
    } else {
        decimal_value(text.drop_last()) * 10 + digit_value(text.last())
    }
}

/// The handle that a host-supplied text names: the text must be a non-empty
/// run of decimal digits whose value fits a handle. No sign and no blanks
/// are accepted.
pub open spec fn handle_of_text(text: Seq<char>) -> Option<u64> {
    if text.len() > 0 && all_digits(text) && decimal_value(text) <= u64::MAX {
        Some(decimal_value(text) as u64)
    } else {
        None
    }
}

/// The numeral of a number consists of digits and denotes that number.
pub proof fn lemma_decimal_denotes(n: nat)
    ensures
        decimal(n).len() > 0,
        all_digits(decimal(n)),
        decimal_value(decimal(n)) == n,
    decreases n,
{
    if n < 10 {
        let numeral = decimal(n);
        assert(numeral.drop_last() =~= Seq::empty());
        assert(decimal_value(numeral.drop_last()) == 0);
    } else {
        lemma_decimal_denotes(n / 10);
        let front = decimal(n / 10);
        let numeral = decimal(n);
        assert(numeral.drop_last() =~= front);
        assert(numeral.last() == digit_char(n % 10));
        assert forall|i: int| 0 <= i < numeral.len() implies is_digit(#[trigger] numeral[i]) by {
            if i < front.len() {
                assert(numeral[i] == front[i]);
            }
        }
    }
}

/// Reading the numeral of a handle gives the handle back.
pub proof fn lemma_handle_text_round_trip(handle: u64)
    ensures
        handle_of_text(decimal(handle as nat)) == Some(handle),
{
    lemma_decimal_denotes(handle as nat);
}

/// A run of digits denotes at least what any of its prefixes denotes.
pub proof fn lemma_prefix_denotes_less(text: Seq<char>, upto: int)
    requires
        0 <= upto <= text.len(),
    ensures
        decimal_value(text.take(upto)) <= decimal_value(text),
    decreases text.len() - upto,
{
    if upto < text.len() {
        let longer = text.take(upto + 1);
        assert(longer.drop_last() =~= text.take(upto));
        lemma_prefix_denotes_less(text, upto + 1);
    } else {
        assert(text.take(upto) =~= text);
    }
}

/// The one-character text for a digit.
fn digit_str(d: u64) -> (text: &'static str)
    requires
        d < 10,
    ensures
        text@ == seq![digit_char(d as nat)],
{
    proof {
        reveal_strlit("0");
        reveal_strlit("1");
        reveal_strlit("2");
        reveal_strlit("3");
        reveal_strlit("4");
        reveal_strlit("5");
        reveal_strlit("6");
        reveal_strlit("7");
        reveal_strlit("8");
        reveal_strlit("9");
    }
    let text = match d {
        0 => "0",
        1 => "1",
        2 => "2",
        3 => "3",
        4 => "4",
        5 => "5",
        6 => "6",
        7 => "7",
        8 => "8",
        _ => "9",
    };
    assert(text@ =~= seq![digit_char(d as nat)]);
    text
}

/// Writes a handle as the host sees it: in decimal, without leading zeros.
pub fn format_handle(handle: u64) -> (text: String)
    ensures
        text@ == decimal(handle as nat),
    decreases handle,
{
    if handle < 10 {
        digit_str(handle).to_owned()
    } else {
        let mut text = format_handle(handle / 10);
        text.append(digit_str(handle % 10));
        text
    }
}

/// Reads a handle from the text that the host passed.
pub fn parse_handle(text: &str) -> (handle: Option<u64>)
    ensures
        handle == handle_of_text(text@),
{
    if !text.is_ascii() {
        assert(!all_digits(text@));
        return None;
    }
    let bytes = text.as_bytes();
    proof {
        is_ascii_spec_bytes(text);
    }
    if bytes.len() == 0 {
        return None;
    }
    let mut value: u64 = 0;
    let mut i: usize = 0;
    assert(text@.take(0) =~= Seq::empty());
    while i < bytes.len()
        invariant
            i <= bytes.len(),
            bytes@.len() == text@.len(),
            forall|k: int| 0 <= k < text@.len() ==> bytes@[k] == (#[trigger] text@[k]) as u8,
            is_ascii(text),
            all_digits(text@.take(i as int)),
            value as nat == decimal_value(text@.take(i as int)),
        decreases bytes.len() - i,
    {
        let b: u8 = bytes[i];
        let ghost upto = text@.take(i as int + 1);
        assert(upto.drop_last() =~= text@.take(i as int));
        assert(upto.last() == text@[i as int]);
        if b < 48 || b > 57 {
            assert(!is_digit(text@[i as int]));
            return None;
        }
        assert(is_digit(text@[i as int]));
        let digit: u64 = (b - 48) as u64;
        let next = match value.checked_mul(10) {
            Some(tens) => tens.checked_add(digit),
            None => None,
        };
        match next {
            Some(sum) => {
                value = sum;
            },
            None => {
                proof {
                    lemma_prefix_denotes_less(text@, i as int + 1);
                }
                return None;
            },
        }
        assert forall|k: int| 0 <= k < upto.len() implies is_digit(#[trigger] upto[k]) by {
            if k < i {
                assert(upto[k] == text@.take(i as int)[k]);
            }
        }
        i += 1;
    }
    assert(text@.take(i as int) =~= text@);
    Some(value)
}

} // verus!
