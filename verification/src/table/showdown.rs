//! Showdown: the hole cards that the committee submits are held against the
//! public outputs of the showdown proof.
use crate::constant_time;
use crate::sequences::{filter_next, filter_none};
use crate::table::types::{PlayerState, PokerTableError, TableState};
use vstd::prelude::*;

verus! {

/// `soroban_sdk::Bytes`: a handle to an immutable byte string of the host.
#[verifier::external_type_specification]
#[verifier::external_body]
pub struct ExBytes(soroban_sdk::Bytes);

/// The bytes that a `soroban_sdk::Bytes` holds.
pub uninterp spec fn bytes_contents(bytes: soroban_sdk::Bytes) -> Seq<u8>;

/// Calls `soroban_sdk::Bytes::get`, which returns the byte at position `i`, or
/// `None` past the end.
#[verifier::external_body]
fn byte_at(bytes: &soroban_sdk::Bytes, i: u32) -> (byte: Option<u8>)
    ensures
        byte == if i < bytes_contents(*bytes).len() {
            Some(bytes_contents(*bytes)[i as int])
        } else {
            None
        },
{
    bytes.get(i)
}

/// The byte at position `i`; past the end, 0.
pub open spec fn byte_or_zero(contents: Seq<u8>, i: int) -> u8 {
    if 0 <= i < contents.len() {
        contents[i]
    } else {
        0
    }
}

/// The small integer in field `field` of a proof's public inputs. A field is 32
/// bytes long, and a small integer is encoded big-endian in its last four.
pub open spec fn field_value(contents: Seq<u8>, field: int) -> int {
    let start = field * 32 + 28;
    byte_or_zero(contents, start) * 0x100_0000 + byte_or_zero(contents, start + 1) * 0x1_0000
        + byte_or_zero(contents, start + 2) * 0x100 + byte_or_zero(contents, start + 3)
}

/// True when the position of every byte of field `field` is a `u32`.
pub open spec fn field_fits(field: int) -> bool {
    0 <= field && field * 32 + 31 <= u32::MAX
}

/// Extract a u32 from a BN254 field element at `field_index` in public_inputs.
/// Small integers are encoded big-endian in the last 4 bytes.
pub fn extract_u32_from_public_inputs(public_inputs: &soroban_sdk::Bytes, field_index: u32) -> (r:
    u32)
    requires
        field_fits(field_index as int),
    ensures
        r == field_value(bytes_contents(*public_inputs), field_index as int),
{
    let start: u32 = field_index * 32 + 28;
    let b0: u32 = byte_at(public_inputs, start).unwrap_or(0) as u32;
    let b1: u32 = byte_at(public_inputs, start + 1).unwrap_or(0) as u32;
    let b2: u32 = byte_at(public_inputs, start + 2).unwrap_or(0) as u32;
    let b3: u32 = byte_at(public_inputs, start + 3).unwrap_or(0) as u32;
    assert((b0 << 24 | b1 << 16 | b2 << 8 | b3) == b0 * 0x100_0000 + b1 * 0x1_0000 + b2 * 0x100
        + b3) by (bit_vector)
        requires
            b0 < 256,
            b1 < 256,
            b2 < 256,
            b3 < 256,
    ;
    b0 << 24 | b1 << 16 | b2 << 8 | b3
}

/// First field of the seat-indexed first hole cards.
pub const HOLE_CARD1_FIELD: u32 = 13;

/// First field of the seat-indexed second hole cards.
pub const HOLE_CARD2_FIELD: u32 = 19;

/// Field of the proved winner.
pub const WINNER_FIELD: u32 = 25;

/// Field of the mask of tied winners.
pub const TIE_MASK_FIELD: u32 = 26;

/// The last seat whose cards have positions that fit a `u32`.
pub const LAST_SEAT_IN_RANGE: u32 = 134_217_708;

/// Selects the seats still in the hand.
pub open spec fn in_hand() -> spec_fn(PlayerState) -> bool {
    |p: PlayerState| !p.folded
}

/// True when `cards` are the hole cards that the proof shows for this seat.
pub open spec fn cards_proved(contents: Seq<u8>, seat: u32, cards: (u32, u32)) -> bool {
    &&& field_value(contents, HOLE_CARD1_FIELD + seat) == cards.0
    &&& field_value(contents, HOLE_CARD2_FIELD + seat) == cards.1
}

/// True when the first `n` seats still in the hand have been given cards, and
/// the ones that the proof shows.
pub open spec fn proved_up_to(
    active: Seq<PlayerState>,
    contents: Seq<u8>,
    cards: Seq<(u32, u32)>,
    n: int,
) -> bool {
    &&& n <= cards.len()
    &&& forall|k: int|
        0 <= k < n ==> cards_proved(contents, (#[trigger] active[k]).seat_index, cards[k])
}

/// What holding the submitted hole cards against the proof gives: the first
/// seat that was given no cards, or other cards, decides.
pub open spec fn hole_cards_result(
    players: Seq<PlayerState>,
    contents: Seq<u8>,
    cards: Seq<(u32, u32)>,
) -> Result<(), PokerTableError> {
    let active = players.filter(in_hand());
    if active.len() == 0 {
        Err(PokerTableError::InvalidHoleCards)
    } else if proved_up_to(active, contents, cards, active.len() as int) {
        Ok(())
    } else if exists|k: int|
        0 <= k < active.len() && k < cards.len() && #[trigger] proved_up_to(
            active,
            contents,
            cards,
            k,
        ) && !cards_proved(contents, active[k].seat_index, cards[k]) {
        Err(PokerTableError::HoleCardMismatch)
    } else {
        Err(PokerTableError::InvalidHoleCards)
    }
}

/// True when the fields of every seat that is looked at have positions in
/// range. A seat is looked at when all before it were proved.
pub open spec fn seat_fields_fit(
    players: Seq<PlayerState>,
    contents: Seq<u8>,
    cards: Seq<(u32, u32)>,
) -> bool {
    let active = players.filter(in_hand());
    forall|k: int|
        0 <= k < active.len() && #[trigger] proved_up_to(active, contents, cards, k) ==> field_fits(
            HOLE_CARD2_FIELD + active[k].seat_index,
        )
}

/// Verify that the committee-submitted hole cards (in active-player order, seat
/// order skipping folded) match the card values in the proof's public outputs.
///
/// Public output layout for showdown:
///   [13..19)  hole_card1[0..6], seat-indexed
///   [19..25)  hole_card2[0..6], seat-indexed
pub fn verify_hole_cards_against_proof(
    table: &TableState,
    public_inputs: &soroban_sdk::Bytes,
    hole_cards: &Vec<(u32, u32)>,
) -> (r: Result<(), PokerTableError>)
    requires
        seat_fields_fit(table.players@, bytes_contents(*public_inputs), hole_cards@),
    ensures
        r == hole_cards_result(table.players@, bytes_contents(*public_inputs), hole_cards@),
{
    let ghost players = table.players@;
    let ghost contents = bytes_contents(*public_inputs);
    let ghost cards = hole_cards@;
    let ghost active = players.filter(in_hand());
    let mut active_idx: usize = 0;
    let mut i: usize = 0;
    proof {
        filter_none(players, in_hand());
    }
    while i < table.players.len()
        invariant
            i <= table.players.len(),
            players == table.players@,
            contents == bytes_contents(*public_inputs),
            cards == hole_cards@,
            active == players.filter(in_hand()),
            seat_fields_fit(players, contents, cards),
            active_idx <= i,
            active_idx == players.take(i as int).filter(in_hand()).len(),
            active_idx <= active.len(),
            proved_up_to(active, contents, cards, active_idx as int),
        decreases table.players.len() - i,
    {
        let player: PlayerState = table.players[i];
        proof {
            filter_next(players, i as int, in_hand());
            filter_prefix(players, i + 1, in_hand());
        }
        if !player.folded {
            assert(active[active_idx as int] == player);
            let seat: u32 = player.seat_index;
            let proof_c1: u32 = extract_u32_from_public_inputs(
                public_inputs,
                HOLE_CARD1_FIELD + seat,
            );
            let proof_c2: u32 = extract_u32_from_public_inputs(
                public_inputs,
                HOLE_CARD2_FIELD + seat,
            );
            if active_idx >= hole_cards.len() {
                proof {
                    unproved_is_last(active, contents, cards, active_idx as int);
                }
                return Err(PokerTableError::InvalidHoleCards);
            }
            let (submitted_c1, submitted_c2) = hole_cards[active_idx];
            if constant_time::u32_ne(proof_c1, submitted_c1) || constant_time::u32_ne(
                proof_c2,
                submitted_c2,
            ) {
                assert(!cards_proved(
                    contents,
                    active[active_idx as int].seat_index,
                    cards[active_idx as int],
                ));
                return Err(PokerTableError::HoleCardMismatch);
            }
            active_idx = active_idx + 1;
        }
        i = i + 1;
    }
    assert(players.take(players.len() as int) =~= players);
    if active_idx == 0 {
        return Err(PokerTableError::InvalidHoleCards);
    }
    Ok(())
}

/// Tells whether `verify_hole_cards_against_proof` can be computed on these
/// values: false when it would look for a seat's cards at a position that is no
/// `u32`.
pub fn hole_cards_fit(
    table: &TableState,
    public_inputs: &soroban_sdk::Bytes,
    hole_cards: &Vec<(u32, u32)>,
) -> (r: bool)
    ensures
        r == seat_fields_fit(table.players@, bytes_contents(*public_inputs), hole_cards@),
{
    let ghost players = table.players@;
    let ghost contents = bytes_contents(*public_inputs);
    let ghost cards = hole_cards@;
    let ghost active = players.filter(in_hand());
    let mut active_idx: usize = 0;
    let mut i: usize = 0;
    proof {
        filter_none(players, in_hand());
    }
    while i < table.players.len()
        invariant
            i <= table.players.len(),
            players == table.players@,
            contents == bytes_contents(*public_inputs),
            cards == hole_cards@,
            active == players.filter(in_hand()),
            active_idx <= i,
            active_idx == players.take(i as int).filter(in_hand()).len(),
            active_idx <= active.len(),
            proved_up_to(active, contents, cards, active_idx as int),
            forall|k: int|
                0 <= k < active_idx ==> field_fits(
                    HOLE_CARD2_FIELD + (#[trigger] active[k]).seat_index,
                ),
        decreases table.players.len() - i,
    {
        let player: PlayerState = table.players[i];
        proof {
            filter_next(players, i as int, in_hand());
            filter_prefix(players, i + 1, in_hand());
        }
        if !player.folded {
            assert(active[active_idx as int] == player);
            let seat: u32 = player.seat_index;
            if seat > LAST_SEAT_IN_RANGE {
                return false;
            }
            if active_idx >= hole_cards.len() {
                return true;
            }
            let (submitted_c1, submitted_c2) = hole_cards[active_idx];
            if extract_u32_from_public_inputs(public_inputs, HOLE_CARD1_FIELD + seat)
                != submitted_c1 || extract_u32_from_public_inputs(
                public_inputs,
                HOLE_CARD2_FIELD + seat,
            ) != submitted_c2 {
                return true;
            }
            active_idx = active_idx + 1;
        }
        i = i + 1;
    }
    assert(players.take(players.len() as int) =~= players);
    true
}

/// What a filter keeps of a prefix is a prefix of what it keeps.
proof fn filter_prefix<A>(s: Seq<A>, i: int, pred: spec_fn(A) -> bool)
    requires
        0 <= i <= s.len(),
    ensures
        s.take(i).filter(pred).len() <= s.filter(pred).len(),
        forall|k: int|
            0 <= k < s.take(i).filter(pred).len() ==> s.take(i).filter(pred)[k] == s.filter(
                pred,
            )[k],
{
    Seq::filter_distributes_over_add(s.take(i), s.skip(i), pred);
    assert(s.take(i) + s.skip(i) =~= s);
}

/// Where a seat still in the hand was given no cards, no seat was given wrong
/// ones.
proof fn unproved_is_last(
    active: Seq<PlayerState>,
    contents: Seq<u8>,
    cards: Seq<(u32, u32)>,
    n: int,
)
    requires
        0 <= n < active.len(),
        cards.len() <= n,
        proved_up_to(active, contents, cards, n),
    ensures
        !proved_up_to(active, contents, cards, active.len() as int),
        forall|k: int|
            0 <= k < active.len() && k < cards.len() && #[trigger] proved_up_to(
                active,
                contents,
                cards,
                k,
            ) ==> cards_proved(contents, active[k].seat_index, cards[k]),
{
}

} // verus!
