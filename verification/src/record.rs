//! The layout of stored records: numbers and lists in the postcard format.

use vstd::prelude::*;
use crate::big_endian::be_bytes;

verus! {

/// The low `width` bytes of `n`, least significant first.
pub open spec fn le_bytes(n: nat, width: nat) -> Seq<u8> {
    be_bytes(n, width).reverse()
}

/// A number in groups of seven bits, the lowest first, with the high bit set in
/// every byte but the last.
pub open spec fn number_form(n: nat) -> Seq<u8>
    decreases n,
{
    if n < 128 {
        seq![n as u8]
    } else {
        seq![(n % 128 + 128) as u8] + number_form(n / 128)
    }
}

/// A number with a sign, folded so that small numbers stay small.
pub open spec fn signed_form(i: int) -> Seq<u8> {
    number_form(
        if i >= 0 {
            (2 * i) as nat
        } else {
            (-2 * i - 1) as nat
        },
    )
}

/// The items of a list, one behind the other.
pub open spec fn items_form<T>(s: Seq<T>, form: spec_fn(T) -> Seq<u8>) -> Seq<u8>
    decreases s.len(),
{
    if s.len() == 0 {
        Seq::empty()
    } else {
        items_form(s.drop_last(), form) + form(s.last())
    }
}

/// A list: how many items it has, and the items.
pub open spec fn list_form<T>(s: Seq<T>, form: spec_fn(T) -> Seq<u8>) -> Seq<u8> {
    number_form(s.len()) + items_form(s, form)
}

/// A list of bytes.
pub open spec fn bytes_form(s: Seq<u8>) -> Seq<u8> {
    number_form(s.len()) + s
}

/// A signed number and its negative take places side by side: 0, -1, 1, -2, 2
/// and so on.
pub proof fn law_signs_are_folded(i: int)
    ensures
        0 <= i < 64 ==> signed_form(i) == seq![(2 * i) as u8],
        -64 <= i < 0 ==> signed_form(i) == seq![(-2 * i - 1) as u8],
        i >= 0 ==> signed_form(i) == number_form((2 * i) as nat),
{
}

/// Numbers below 128 take one byte; a larger one a byte with its lowest seven
/// bits and the high bit set, and then the bytes of the rest.
pub proof fn law_layout_of_stored_numbers(n: nat)
    ensures
        n < 128 ==> number_form(n) == seq![n as u8],
        n >= 128 ==> number_form(n)[0] == n % 128 + 128,
        n >= 128 ==> number_form(n).drop_first() == number_form(n / 128),
{
    if n >= 128 {
        assert(number_form(n).drop_first() =~= number_form(n / 128));
    }
}

/// Numbers have their lowest byte first.
pub proof fn law_lowest_byte_first(n: nat)
    requires
        n < 65536,
    ensures
        le_bytes(n, 2) == seq![(n % 256) as u8, (n / 256) as u8],
{
    reveal_with_fuel(be_bytes, 3);
    assert(le_bytes(n, 2) =~= seq![(n % 256) as u8, (n / 256) as u8]);
}

} // verus!
