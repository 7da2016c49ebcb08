//! What holds of [`crate::stream`].

use vstd::prelude::*;

use crate::base58::base58;
use crate::peer::{is_peer_id, lemma_peer_id_base58_length};
use crate::stream::BiStreamView;
use crate::text::{decimal, digit};

verus! {

/// Different numbers below ten have different digits.
proof fn lemma_digit_injective(m: nat, n: nat)
    requires
        m < 10,
        n < 10,
        digit(m) == digit(n),
    ensures
        m == n,
{
    reveal_strlit("0123456789");
}

/// Different numbers have different texts.
proof fn lemma_decimal_injective(m: nat, n: nat)
    requires
        decimal(m) == decimal(n),
    ensures
        m == n,
    decreases m,
{
    reveal_with_fuel(decimal, 2);
    assert(decimal(m).last() == digit(m % 10));
    assert(decimal(n).last() == digit(n % 10));
    lemma_digit_injective(m % 10, n % 10);
    if m >= 10 && n >= 10 {
        assert(decimal(m).drop_last() =~= decimal(m / 10));
        assert(decimal(n).drop_last() =~= decimal(n / 10));
        lemma_decimal_injective(m / 10, n / 10);
    }
}

/// Of the streams to one peer, those opened by the same side under the same number are shown
/// by the same text, and no others.
pub proof fn law_label_tells_streams_apart<S>(a: BiStreamView<S>, b: BiStreamView<S>)
    requires
        a.peer_id == b.peer_id,
        is_peer_id(a.peer_id),
        a.peer_id != seq![0u8, 0u8],
    ensures
        a.label() == b.label() <==> a.origin == b.origin && a.stream_id == b.stream_id,
{
    lemma_peer_id_base58_length(a.peer_id);
    reveal_strlit("accept");
    reveal_strlit("dial");
    reveal_strlit(":");
    reveal_strlit("…");
    if a.label() == b.label() {
        assert(a.label()[0] == if a.origin is Inbound {
            'a'
        } else {
            'd'
        });
        assert(b.label()[0] == if b.origin is Inbound {
            'a'
        } else {
            'd'
        });
        let before: int = if a.origin is Inbound {
            14
        } else {
            12
        };
        assert(a.label().skip(before) =~= decimal(a.stream_id as nat));
        assert(b.label().skip(before) =~= decimal(b.stream_id as nat));
        lemma_decimal_injective(a.stream_id as nat, b.stream_id as nat);
    }
}

} // verus!
