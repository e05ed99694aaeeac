//! The textual form of a hardware address: six groups of two hexadecimal
//! digits, separated by colons.

use vstd::prelude::*;
use crate::groups::{
    colon_groups, joined, lemma_groups_of_joined, lemma_groups_of_prefix, lemma_joined_groups,
};
use crate::hex::{hex_digit, hex_digit_value, is_hex_digit};

verus! {

/// A group of exactly two hexadecimal digits.
pub open spec fn is_hex_pair(group: Seq<char>) -> bool {
    &&& group.len() == 2
    &&& is_hex_digit(group[0])
    &&& is_hex_digit(group[1])
}

/// The number that a pair of hexadecimal digits stands for, most significant
/// digit first.
pub open spec fn hex_pair_value(group: Seq<char>) -> nat
    recommends
        is_hex_pair(group),
{
    16 * hex_digit_value(group[0]) + hex_digit_value(group[1])
}

/// Whether `text` is a hardware address in its textual form: exactly six
/// groups between colons, each a pair of hexadecimal digits in either case.
pub open spec fn is_mac_text(text: Seq<char>) -> bool {
    let groups = colon_groups(text);
    &&& groups.len() == 6
    &&& forall|k: int| 0 <= k < 6 ==> is_hex_pair(#[trigger] groups[k])
}

/// The six octets that a textual hardware address names, in the order in
/// which its groups are written.
pub open spec fn mac_octets(text: Seq<char>) -> Seq<u8>
    recommends
        is_mac_text(text),
{
    Seq::new(6, |k: int| hex_pair_value(colon_groups(text)[k]) as u8)
}

/// The same format told place by place: seventeen characters, a colon at
/// every third place and a hexadecimal digit at every other.
pub open spec fn has_mac_shape(text: Seq<char>) -> bool {
    &&& text.len() == 17
    &&& forall|i: int|
        0 <= i < 17 ==> if i % 3 == 2 {
            #[trigger] text[i] == ':'
        } else {
            is_hex_digit(text[i])
        }
}

/// Groups that can still grow into a hardware address when more text
/// follows: at most six of them, all but the last complete pairs, and the last
/// made of at most two hexadecimal digits.
pub open spec fn is_mac_start(groups: Seq<Seq<char>>) -> bool {
    &&& 1 <= groups.len() <= 6
    &&& forall|k: int| 0 <= k < groups.len() - 1 ==> is_hex_pair(#[trigger] groups[k])
    &&& groups.last().len() <= 2
    &&& forall|i: int| 0 <= i < groups.last().len() ==> is_hex_digit(#[trigger] groups.last()[i])
}

/// Every beginning of a hardware address can still grow into one.
pub proof fn lemma_mac_start(text: Seq<char>, n: int)
    requires
        is_mac_text(text),
        0 <= n <= text.len(),
    ensures
        is_mac_start(colon_groups(text.take(n))),
{
    lemma_groups_of_prefix(text, n);
    let start = colon_groups(text.take(n));
    let whole = colon_groups(text);
    assert(is_hex_pair(whole[start.len() - 1]));
    assert forall|k: int| 0 <= k < start.len() - 1 implies is_hex_pair(#[trigger] start[k]) by {
        assert(is_hex_pair(whole[k]));
    }
    assert forall|i: int| 0 <= i < start.last().len() implies is_hex_digit(
        #[trigger] start.last()[i],
    ) by {
        assert(start.last()[i] == whole[start.len() - 1][i]);
    }
}

/// A text is a hardware address exactly when it has the shape
/// `hh:hh:hh:hh:hh:hh`, and its `k`-th group is then made of the two digits
/// at the places `3k` and `3k + 1`.
pub proof fn lemma_mac_shape(text: Seq<char>)
    ensures
        is_mac_text(text) <==> has_mac_shape(text),
        is_mac_text(text) ==> forall|k: int|
            0 <= k < 6 ==> #[trigger] colon_groups(text)[k] == seq![text[3 * k], text[3 * k + 1]],
{
    reveal_with_fuel(joined, 7);
    if is_mac_text(text) {
        let groups = colon_groups(text);
        lemma_joined_groups(text);
        assert(is_hex_pair(groups[0]) && is_hex_pair(groups[1]) && is_hex_pair(groups[2]));
        assert(is_hex_pair(groups[3]) && is_hex_pair(groups[4]) && is_hex_pair(groups[5]));
        let g5 = groups;
        let g4 = g5.drop_last();
        let g3 = g4.drop_last();
        let g2 = g3.drop_last();
        let g1 = g2.drop_last();
        let g0 = g1.drop_last();
        assert(joined(g0) == groups[0]);
        assert(joined(g1) == joined(g0) + seq![':'] + groups[1]);
        assert(joined(g2) == joined(g1) + seq![':'] + groups[2]);
        assert(joined(g3) == joined(g2) + seq![':'] + groups[3]);
        assert(joined(g4) == joined(g3) + seq![':'] + groups[4]);
        assert(joined(g5) == joined(g4) + seq![':'] + groups[5]);
        assert(text.len() == 17);
        assert forall|i: int| 0 <= i < 17 implies if i % 3 == 2 {
            #[trigger] text[i] == ':'
        } else {
            is_hex_digit(text[i])
        } by {
            let k = i / 3;
            assert(is_hex_pair(groups[k]));
        }
        assert forall|k: int| 0 <= k < 6 implies #[trigger] groups[k] == seq![
            text[3 * k],
            text[3 * k + 1],
        ] by {
            assert(is_hex_pair(groups[k]));
            assert(groups[k] =~= seq![text[3 * k], text[3 * k + 1]]);
        }
    }
    if has_mac_shape(text) {
        let groups = Seq::new(6, |k: int| seq![text[3 * k], text[3 * k + 1]]);
        assert forall|k: int, i: int| 0 <= k < groups.len() && 0 <= i < groups[k].len() implies
            #[trigger] groups[k][i] != ':' by {
            assert(is_hex_digit(text[3 * k + i]));
        }
        lemma_groups_of_joined(groups);
        let g5 = groups;
        let g4 = g5.drop_last();
        let g3 = g4.drop_last();
        let g2 = g3.drop_last();
        let g1 = g2.drop_last();
        let g0 = g1.drop_last();
        assert(joined(g0) == groups[0]);
        assert(joined(g1) == joined(g0) + seq![':'] + groups[1]);
        assert(joined(g2) == joined(g1) + seq![':'] + groups[2]);
        assert(joined(g3) == joined(g2) + seq![':'] + groups[3]);
        assert(joined(g4) == joined(g3) + seq![':'] + groups[4]);
        assert(joined(g5) == joined(g4) + seq![':'] + groups[5]);
        assert(joined(groups) =~= text);
        assert forall|k: int| 0 <= k < 6 implies is_hex_pair(#[trigger] colon_groups(text)[k]) by {
            assert(is_hex_digit(text[3 * k]));
            assert(is_hex_digit(text[3 * k + 1]));
        }
    }
}

/// What `validate_mac` answers to a text that is no hardware address.
pub const INVALID_MAC_FORMAT: &'static str = "Invalid MAC address format";

/// Accepts `mac` where it is six colon-separated pairs of hexadecimal digits,
/// in either letter case, and hands it back unchanged. Any other text is
/// refused with the message `Invalid MAC address format`.
pub fn validate_mac(mac: &str) -> (result: Result<String, String>)
    ensures
        result is Ok <==> is_mac_text(mac@),
        result matches Ok(accepted) ==> accepted@ == mac@,
        result matches Err(reason) ==> reason@ == INVALID_MAC_FORMAT@,
{
    match parse_mac(mac) {
        Some(_) => Ok(mac.to_owned()),
        None => Err(INVALID_MAC_FORMAT.to_owned()),
    }
}

/// Reads a textual hardware address: its six octets, or `None` where `mac`
/// is not six colon-separated pairs of hexadecimal digits.
pub fn parse_mac(mac: &str) -> (octets: Option<[u8; 6]>)
    ensures
        octets is Some <==> is_mac_text(mac@),
        octets matches Some(o) ==> o@ == mac_octets(mac@),
{
    let mut octets: [u8; 6] = [0u8; 6];
    let mut done: usize = 0;
    let mut digits: usize = 0;
    let mut value: u8 = 0;
    for c in it: mac.chars()
        invariant
            it.seq() == mac@,
            done <= 5,
            digits <= 2,
            colon_groups(mac@.take(it.index() as int)).len() == done + 1,
            colon_groups(mac@.take(it.index() as int)).last().len() == digits,
            is_mac_start(colon_groups(mac@.take(it.index() as int))),
            forall|k: int|
                0 <= k < done ==> octets@[k] == hex_pair_value(
                    #[trigger] colon_groups(mac@.take(it.index() as int))[k],
                ),
            digits == 0 ==> value == 0,
            digits == 1 ==> value == hex_digit_value(
                colon_groups(mac@.take(it.index() as int)).last()[0],
            ),
            digits == 2 ==> value == hex_pair_value(
                colon_groups(mac@.take(it.index() as int)).last(),
            ),
    {
        let ghost n = it.index() as int;
        let ghost before = colon_groups(mac@.take(n));
        let ghost after = colon_groups(mac@.take(n + 1));
        proof {
            assert(mac@.take(n + 1).drop_last() =~= mac@.take(n));
            assert(mac@.take(n + 1).last() == c);
            if is_mac_text(mac@) {
                lemma_mac_start(mac@, n + 1);
            }
        }
        if c == ':' {
            proof {
                assert(after =~= before.push(Seq::<char>::empty()));
                assert(after[done as int] == before.last());
            }
            if digits != 2 || done == 5 {
                return None;
            }
            octets[done] = value;
            done = done + 1;
            digits = 0;
            value = 0;
        } else {
            proof {
                assert(after =~= before.update(done as int, before.last().push(c)));
                assert(after.last()[digits as int] == c);
            }
            match hex_digit(c) {
                None => {
                    return None;
                },
                Some(v) => {
                    if digits == 2 {
                        return None;
                    }
                    value = value * 16 + v;
                    digits = digits + 1;
                },
            }
        }
    }
    proof {
        assert(mac@.take(mac@.len() as int) =~= mac@);
    }
    if done == 5 && digits == 2 {
        octets[5] = value;
        proof {
            assert(octets@ =~= mac_octets(mac@));
        }
        Some(octets)
    } else {
        None
    }
}

} // verus!
