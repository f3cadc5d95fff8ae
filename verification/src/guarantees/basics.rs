//! Numbers as text, settings, digests, the clock and comparisons.
use crate::clock::{time_from_distance, within_seconds};
use crate::constant_time::{address_eq, address_ne, bytes_eq, u32_eq, u32_ne};
use crate::hashing::{sha256_digest, sha256_hex_text};
use crate::string_map::StringMap;
use crate::table::types::Address;
use crate::text::{
    decimal, decimal_value, parse_unsigned, trim_end, trimmed_end, u32_setting, u64_setting,
    u64_to_text,
};
use vstd::prelude::*;

verus! {

// ---------------------------------------------------------------------------
// Numbers
// ---------------------------------------------------------------------------

/// True when every character is a decimal digit.
pub open spec fn all_digits(text: Seq<char>) -> bool {
    forall|i: int| 0 <= i < text.len() ==> '0' <= #[trigger] text[i] && text[i] <= '9'
}

/// The number that decimal digits stand for, the last digit counting least.
pub open spec fn number_of(digits: Seq<char>) -> int
    decreases digits.len(),
{
    if digits.len() == 0 {
        0
    } else {
        10 * number_of(digits.drop_last()) + (digits.last() as int - '0' as int)
    }
}

/// True when a text is how a number is written: digits that stand for it, with
/// no zero in front of another digit.
pub open spec fn writes(text: Seq<char>, n: int) -> bool {
    &&& text.len() > 0
    &&& all_digits(text)
    &&& number_of(text) == n
    &&& text.len() > 1 ==> text[0] != '0'
}

/// True when a text reads as a number: at least one digit, a plus sign before
/// them or not, and nothing else.
pub open spec fn reads(text: Seq<char>, n: int) -> bool {
    let digits = if text.len() > 0 && text[0] == '+' {
        text.skip(1)
    } else {
        text
    };
    digits.len() > 0 && all_digits(digits) && number_of(digits) == n
}

/// True when a setting gives `n`: it reads as `n` and is not too large, or it is
/// missing, unreadable or too large and `n` is the default.
pub open spec fn gives(setting: Option<String>, max: int, default: int, n: int) -> bool {
    if setting is Some && exists|k: int| k <= max && #[trigger] reads(setting->0@, k) {
        n <= max && reads(setting->0@, n)
    } else {
        n == default
    }
}

/// Both ways of counting digits agree.
pub proof fn number_is_decimal_value(digits: Seq<char>)
    ensures
        number_of(digits) == decimal_value(digits),
    decreases digits.len(),
{
    if digits.len() > 0 {
        number_is_decimal_value(digits.drop_last());
    }
}

/// A number is written with digits that stand for it.
pub proof fn decimal_writes(n: nat)
    ensures
        writes(decimal(n), n as int),
        n > 0 ==> decimal(n)[0] != '0',
    decreases n,
{
    if n < 10 {
        let text = decimal(n);
        assert(text[0] as int == 48 + n);
        assert(text.drop_last() =~= Seq::empty());
        assert(number_of(text.drop_last()) == 0);
    } else {
        let head = decimal(n / 10);
        let text = decimal(n);
        decimal_writes(n / 10);
        assert(text.drop_last() =~= head);
        assert(text.last() as int == 48 + n % 10);
        assert forall|i: int| 0 <= i < text.len() implies '0' <= #[trigger] text[i] && text[i]
            <= '9' by {
            if i < head.len() {
                assert(text[i] == head[i]);
            }
        }
        assert(text[0] == head[0]);
    }
}

/// A number is written in decimal.
pub proof fn number_is_written(n: u64, text: String)
    requires
        call_ensures(u64_to_text, (n,), text),
    ensures
        writes(text@, n as int),
{
    decimal_writes(n as nat);
}

/// A text is read exactly when it stands for a number that is not too large, and
/// then as that number.
pub proof fn number_is_read(text: &str, max: u64, n: Option<u64>)
    requires
        call_ensures(parse_unsigned, (text, max), n),
    ensures
        n is Some <==> exists|k: int| k <= max && #[trigger] reads(text@, k),
        n is Some ==> reads(text@, n->0 as int) && n->0 <= max,
{
    reading(text@, max as int);
    if n is Some {
        assert(reads(text@, n->0 as int));
    }
}

/// What a text reads as is what parsing it gives.
proof fn reading(text: Seq<char>, max: int)
    ensures
        match crate::text::parsed(text, max) {
            Some(n) => n <= max && reads(text, n),
            None => forall|k: int| k <= max ==> !#[trigger] reads(text, k),
        },
{
    let digits = crate::text::unsigned_digits(text);
    if text.len() > 0 && text[0] == '+' {
        assert(text.skip(1) =~= text.drop_first());
    }
    number_is_decimal_value(digits);
    assert(all_digits(digits) <==> forall|i: int|
        0 <= i < digits.len() ==> crate::text::is_digit(#[trigger] digits[i])) by {
        if all_digits(digits) {
            assert forall|i: int| 0 <= i < digits.len() implies crate::text::is_digit(
                #[trigger] digits[i],
            ) by {
                assert('0' <= digits[i] && digits[i] <= '9');
            }
        }
        if forall|i: int| 0 <= i < digits.len() ==> crate::text::is_digit(#[trigger] digits[i]) {
            assert forall|i: int| 0 <= i < digits.len() implies '0' <= #[trigger] digits[i]
                && digits[i] <= '9' by {
                assert(crate::text::is_digit(digits[i]));
            }
        }
    }
}

/// A setting gives the number it reads as, or the default.
pub proof fn setting_gives(setting: Option<String>, max: int, default: int)
    ensures
        gives(
            setting,
            max,
            default,
            crate::text::setting_value(crate::text::setting_view(setting), max, default),
        ),
{
    if setting is Some {
        reading(setting->0@, max);
        match crate::text::parsed(setting->0@, max) {
            Some(n) => {
                assert(reads(setting->0@, n));
            },
            None => {},
        }
    }
}

/// A setting is read as the number it stands for; a missing, unreadable or too
/// large one counts as the default.
pub proof fn settings_are_read(
    setting: Option<String>,
    long_default: u64,
    long: u64,
    short_default: u32,
    short: u32,
)
    ensures
        call_ensures(u64_setting, (setting, long_default), long) ==> gives(
            setting,
            u64::MAX as int,
            long_default as int,
            long as int,
        ),
        call_ensures(u32_setting, (setting, short_default), short) ==> gives(
            setting,
            u32::MAX as int,
            short_default as int,
            short as int,
        ),
{
    setting_gives(setting, u64::MAX as int, long_default as int);
    setting_gives(setting, u32::MAX as int, short_default as int);
}

/// Trimming takes exactly the copies of a character off the end of a text.
pub proof fn end_is_trimmed(text: &str, c: char, trimmed: &str)
    requires
        call_ensures(trim_end, (text, c), trimmed),
    ensures
        trimmed@.len() <= text@.len(),
        trimmed@ == text@.take(trimmed@.len() as int),
        trimmed@.len() > 0 ==> trimmed@.last() != c,
        forall|i: int| trimmed@.len() <= i < text@.len() ==> #[trigger] text@[i] == c,
{
    trimming(text@, c);
}

/// What trimming leaves of a text.
pub proof fn trimming(text: Seq<char>, c: char)
    ensures
        trimmed_end(text, c).len() <= text.len(),
        trimmed_end(text, c) == text.take(trimmed_end(text, c).len() as int),
        trimmed_end(text, c).len() > 0 ==> trimmed_end(text, c).last() != c,
        forall|i: int| trimmed_end(text, c).len() <= i < text.len() ==> #[trigger] text[i] == c,
    decreases text.len(),
{
    let left = trimmed_end(text, c);
    if text.len() > 0 && text.last() == c {
        let rest = text.drop_last();
        trimming(rest, c);
        assert(rest.take(left.len() as int) =~= text.take(left.len() as int));
        assert forall|i: int| left.len() <= i < text.len() implies #[trigger] text[i] == c by {
            if i < rest.len() {
                assert(rest[i] == c);
            }
        }
    } else {
        assert(text.take(text.len() as int) =~= text);
    }
}

// ---------------------------------------------------------------------------
// Digests
// ---------------------------------------------------------------------------

/// The number that a lowercase hexadecimal digit stands for; -1 for another
/// character.
pub open spec fn nibble(c: char) -> int {
    if '0' <= c && c <= '9' {
        c as int - '0' as int
    } else if 'a' <= c && c <= 'f' {
        c as int - 'a' as int + 10
    } else {
        -1
    }
}

/// True when a text spells a byte string in lowercase hexadecimal: two digits for
/// each byte.
pub open spec fn spells(text: Seq<char>, data: Seq<u8>) -> bool {
    &&& text.len() == 2 * data.len()
    &&& forall|i: int|
        0 <= i < data.len() ==> {
            &&& 0 <= nibble(text[2 * i]) < 16
            &&& 0 <= nibble(text[2 * i + 1]) < 16
            &&& 16 * nibble(text[2 * i]) + nibble(text[2 * i + 1]) == #[trigger] data[i]
        }
}

/// The hexadecimal text of a byte string spells it.
pub proof fn hex_text_spells(data: Seq<u8>)
    ensures
        spells(crate::hashing::hex_text(data), data),
{
    let text = crate::hashing::hex_text(data);
    assert forall|i: int| 0 <= i < data.len() implies {
        &&& 0 <= nibble(text[2 * i]) < 16
        &&& 0 <= nibble(text[2 * i + 1]) < 16
        &&& 16 * nibble(text[2 * i]) + nibble(text[2 * i + 1]) == #[trigger] data[i]
    } by {
        let (high, low) = (data[i] as int / 16, data[i] as int % 16);
        assert((2 * i) / 2 == i && (2 * i + 1) / 2 == i);
        assert(text[2 * i] == crate::hashing::hex_digit(high));
        assert(text[2 * i + 1] == crate::hashing::hex_digit(low));
        assert(text[2 * i] as int == if high < 10 { 48 + high } else { 87 + high });
        assert(text[2 * i + 1] as int == if low < 10 { 48 + low } else { 87 + low });
    }
}

/// A byte string is hashed with SHA-256, and the text spells the digest.
pub proof fn digest_is_spelled(data: &[u8], text: String)
    requires
        call_ensures(sha256_hex_text, (data,), text),
    ensures
        spells(text@, sha256_digest(data@)),
        text@.len() == 64,
{
    hex_text_spells(sha256_digest(data@));
}

// ---------------------------------------------------------------------------
// The clock
// ---------------------------------------------------------------------------

/// A time is as far from the epoch as the clock says, after it or before it.
pub proof fn time_has_its_distance(distance: Result<i128, i128>, now: i128)
    requires
        call_ensures(time_from_distance, (distance,), now),
    ensures
        distance is Ok ==> now == distance->Ok_0,
        distance is Err && distance->Err_0 != i128::MIN ==> now + distance->Err_0 == 0,
        distance is Err && distance->Err_0 == i128::MIN ==> now == i128::MAX,
{
}

/// A time lies back by less than some seconds exactly when it lies back, and by
/// less than as many billion nanoseconds.
pub proof fn seconds_are_billions(now: i128, earlier: i128, secs: u64, r: bool)
    requires
        call_ensures(within_seconds, (now, earlier, secs), r),
    ensures
        r <==> earlier <= now && now - earlier < secs * 1_000_000_000,
{
}

// ---------------------------------------------------------------------------
// Comparisons
// ---------------------------------------------------------------------------

/// Two numbers are told apart exactly when they differ.
pub proof fn numbers_are_compared(a: u32, b: u32, r: bool)
    ensures
        call_ensures(u32_eq, (a, b), r) ==> (r <==> a == b),
        call_ensures(u32_ne, (a, b), r) ==> (r <==> a != b),
{
}

/// Two addresses, or byte strings, are told apart exactly when some byte differs.
pub proof fn bytes_are_compared<const N: usize>(
    x: [u8; N],
    y: [u8; N],
    a: Address,
    b: Address,
    r: bool,
)
    ensures
        call_ensures(bytes_eq::<N>, (&x, &y), r) ==> (r <==> forall|i: int|
            0 <= i < N ==> #[trigger] x@[i] == y@[i]),
        call_ensures(address_eq, (&a, &b), r) ==> (r <==> forall|i: int|
            0 <= i < 56 ==> #[trigger] a.strkey@[i] == b.strkey@[i]),
        call_ensures(address_ne, (&a, &b), r) ==> (r <==> exists|i: int|
            0 <= i < 56 && #[trigger] a.strkey@[i] != b.strkey@[i]),
{
    if forall|i: int| 0 <= i < N ==> #[trigger] x@[i] == y@[i] {
        assert(x =~= y);
    }
    if forall|i: int| 0 <= i < 56 ==> #[trigger] a.strkey@[i] == b.strkey@[i] {
        assert(a.strkey =~= b.strkey);
    }
}

// ---------------------------------------------------------------------------
// Maps from texts
// ---------------------------------------------------------------------------

/// A value that was inserted is found under its key, every other key keeps what
/// it had, and a new key comes last.
pub proof fn inserted_value_is_found<V>(
    map: &mut StringMap<V>,
    key: String,
    value: V,
    asked: String,
    before: Option<&V>,
    after: Option<&V>,
    done: (),
)
    requires
        call_ensures(StringMap::<V>::insert, (map, key, value), done),
        call_ensures(StringMap::<V>::get, (&*old(map), &asked), before),
        call_ensures(StringMap::<V>::get, (&*final(map), &asked), after),
    ensures
        asked@ == key@ ==> after == Some(&value),
        asked@ != key@ ==> after == before,
        final(map).keys() == old(map).keys() || final(map).keys() == old(map).keys().push(key@),
{
}

/// A new map finds nothing, and has no keys.
pub proof fn new_map_is_empty<V>(map: StringMap<V>, key: String, value: Option<&V>, n: usize)
    requires
        call_ensures(StringMap::<V>::new, (), map),
        call_ensures(StringMap::<V>::get, (&map, &key), value),
        call_ensures(StringMap::<V>::len, (&map,), n),
    ensures
        value is None,
        n == 0,
{
}

/// The key at a position is found, and its value is the one at that position.
pub proof fn positions_are_told<V>(
    map: StringMap<V>,
    i: usize,
    n: usize,
    key: &String,
    value: &V,
    found: Option<&V>,
)
    requires
        call_ensures(StringMap::<V>::len, (&map,), n),
        i < n,
        call_ensures(StringMap::<V>::key_at, (&map, i), key),
        call_ensures(StringMap::<V>::value_at, (&map, i), value),
        call_ensures(StringMap::<V>::get, (&map, key), found),
    ensures
        found == Some(value),
        key@ == map.keys()[i as int],
        n == map@.dom().len(),
{
    map.keys().unique_seq_to_set();
    assert(map.keys().to_set() =~= map@.dom());
}

/// A key removed by its position is not found any more, every other keeps what it
/// had, and those behind it move up by one.
pub proof fn removed_key_is_gone<V>(
    map: &mut StringMap<V>,
    i: usize,
    done: (),
    asked: String,
    before: Option<&V>,
    after: Option<&V>,
)
    requires
        i < old(map).keys().len(),
        call_ensures(StringMap::<V>::remove_at, (map, i), done),
        call_ensures(StringMap::<V>::get, (&*old(map), &asked), before),
        call_ensures(StringMap::<V>::get, (&*final(map), &asked), after),
    ensures
        asked@ == old(map).keys()[i as int] ==> after is None,
        asked@ != old(map).keys()[i as int] ==> after == before,
        final(map).keys().len() == old(map).keys().len() - 1,
        forall|k: int| 0 <= k < i ==> #[trigger] final(map).keys()[k] == old(map).keys()[k],
        forall|k: int|
            i <= k < final(map).keys().len() ==> #[trigger] final(map).keys()[k] == old(
                map
            ).keys()[k + 1],
{
}

} // verus!
